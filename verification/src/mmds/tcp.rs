//! The TCP endpoint of the metadata service: handshake, one request, one response,
//! close.
//!
//! ```text
//! SYN            -> SYN-ACK, connection waits for the handshake to end
//! ACK            -> established
//! data           -> ACK; a whole request is answered in one segment that also closes
//! FIN            -> FIN-ACK
//! ACK of our FIN -> connection forgotten
//! ```
//!
//! A segment for an unknown connection is answered with a reset. Segments that do not
//! continue the stream are dropped: there is no reassembly.

use std::collections::BTreeMap;
use vstd::prelude::*;
use vstd::string::*;

use crate::mmds::http::{self, try_parse_http, HttpParseOutcome, HttpRequest, HttpResponse};
use crate::mmds::pdu;
use crate::mmds::pdu::ipv4::{self, IpProtocol, Ipv4Header, IPV4_HDR_LEN};
use crate::mmds::pdu::tcp::{self, TcpHeader, TCP_ACK, TCP_FIN, TCP_RST, TCP_SYN};
use crate::wire::push_bytes;

verus! {

/// First initial sequence number.
pub const FIRST_ISS: u32 = 0x4000_0000;

/// Distance between initial sequence numbers.
pub const ISS_STEP: u32 = 0x1_0000;

/// The window that is advertised.
pub const WINDOW: u16 = 0xFFFF;

/// Flags of the answer to a request for a connection.
pub const FLAGS_SYN_ACK: u8 = 0x12;

/// Flags of a reset.
pub const FLAGS_RST_ACK: u8 = 0x14;

/// Flags of a close.
pub const FLAGS_FIN_ACK: u8 = 0x11;

/// Flags of a response: acknowledge, push, close.
pub const FLAGS_RESPONSE: u8 = 0x19;

/// The state of a connection.
#[derive(Clone, Copy, Debug, PartialEq, Eq, Structural)]
pub enum TcpState {
    /// Asked for and answered.
    SynReceived,
    /// Open for a request.
    Established,
    /// Closed from this side.
    LastAck,
}

/// The contents of a connection.
#[verifier::ext_equal]
pub struct ConnView {
    pub state: TcpState,
    /// Next sequence number to send.
    pub snd_nxt: u32,
    /// Next sequence number expected.
    pub rcv_nxt: u32,
    /// Bytes received so far.
    pub buf: Seq<u8>,
}

/// A frame for the guest, without its Ethernet header.
#[verifier::ext_equal]
pub struct FrameView {
    pub dst_mac: [u8; 6],
    pub payload: Seq<u8>,
}

/// The state of the endpoint.
#[verifier::ext_equal]
pub struct EndpointView {
    pub port: u16,
    pub ip: [u8; 4],
    pub guest_mac: Option<[u8; 6]>,
    /// Connections by the client's address and port.
    pub conns: Map<u64, ConnView>,
    pub next_iss: u32,
    pub ip_id: u16,
    /// Frames for the guest, oldest first.
    pub out: Seq<FrameView>,
}

/// The key of a connection: the client's address and port.
pub open spec fn conn_key(ip: [u8; 4], port: u16) -> u64 {
    ((((ip[0] * 256 + ip[1]) * 256 + ip[2]) * 256 + ip[3]) * 65536 + port) as u64
}

/// Two clients with one key are the same client.
pub proof fn conn_key_injective(ip1: [u8; 4], port1: u16, ip2: [u8; 4], port2: u16)
    ensures
        conn_key(ip1, port1) == conn_key(ip2, port2) <==> ip1 == ip2 && port1 == port2,
{
    if conn_key(ip1, port1) == conn_key(ip2, port2) {
        assert(ip1[0] == ip2[0] && ip1[1] == ip2[1] && ip1[2] == ip2[2] && ip1[3] == ip2[3]);
        assert(ip1 =~= ip2);
    }
}

/// A sequence number advanced by `n`, around the end of the number space.
pub open spec fn seq_add(a: u32, n: int) -> u32 {
    ((a + n) % 0x1_0000_0000) as u32
}

/// The hardware address that frames go to before the guest's is known.
pub open spec fn broadcast_mac() -> [u8; 6] {
    [0xFF, 0xFF, 0xFF, 0xFF, 0xFF, 0xFF]
}

/// The packet that carries a segment.
#[verifier::opaque]
pub open spec fn packet_of(
    from: [u8; 4],
    to: [u8; 4],
    header: TcpHeader,
    payload: Seq<u8>,
    id: u16,
) -> Seq<u8> {
    let segment = tcp::tcp_wire(header, from, to, payload);
    ipv4::ipv4_wire(
        ipv4::ipv4_built(from, to, IpProtocol::Tcp, tcp::segment_len(segment.len() as int), id),
    ) + segment
}

/// The endpoint after it sent a segment.
pub open spec fn sent(s: EndpointView, header: TcpHeader, to: [u8; 4], payload: Seq<u8>) -> EndpointView {
    let id = ((s.ip_id + 1) % 0x1_0000) as u16;
    EndpointView {
        ip_id: id,
        out: s.out.push(
            FrameView {
                dst_mac: match s.guest_mac {
                    Some(mac) => mac,
                    None => broadcast_mac(),
                },
                payload: packet_of(s.ip, to, header, payload, id),
            },
        ),
        ..s
    }
}

/// A connection in the state after the client asked for it.
pub open spec fn opened_conn(client_seq: u32, iss: u32) -> ConnView {
    ConnView {
        state: TcpState::SynReceived,
        snd_nxt: seq_add(iss, 1),
        rcv_nxt: seq_add(client_seq, 1),
        buf: Seq::empty(),
    }
}

/// The endpoint after a client asked for a connection.
pub open spec fn syn_taken(s: EndpointView, client: [u8; 4], header: TcpHeader) -> EndpointView {
    let iss = s.next_iss;
    let conn = opened_conn(header.seq, iss);
    let answered = sent(
        EndpointView { next_iss: seq_add(iss, ISS_STEP as int), ..s },
        tcp::tcp_built(s.port, header.src_port, iss, conn.rcv_nxt, FLAGS_SYN_ACK, WINDOW),
        client,
        Seq::empty(),
    );
    EndpointView {
        conns: answered.conns.insert(conn_key(client, header.src_port), conn),
        ..answered
    }
}

/// The endpoint after it reset a segment of an unknown connection.
pub open spec fn reset_sent(
    s: EndpointView,
    client: [u8; 4],
    header: TcpHeader,
    payload_len: int,
) -> EndpointView {
    sent(
        s,
        tcp::tcp_built(
            s.port,
            header.src_port,
            header.ack,
            seq_add(header.seq, payload_len),
            FLAGS_RST_ACK,
            0,
        ),
        client,
        Seq::empty(),
    )
}

/// The endpoint after it answered the request of a connection: one segment with the
/// whole response, which also closes the connection from this side.
pub open spec fn responded(
    s: EndpointView,
    client: [u8; 4],
    port: u16,
    status: u16,
    body: Seq<u8>,
) -> EndpointView {
    let key = conn_key(client, port);
    if s.conns.contains_key(key) {
        let conn = s.conns[key];
        let wire = http::response_wire(status, body);
        sent(
            EndpointView {
                conns: s.conns.insert(
                    key,
                    ConnView {
                        state: TcpState::LastAck,
                        snd_nxt: seq_add(conn.snd_nxt, wire.len() as int + 1),
                        ..conn
                    },
                ),
                ..s
            },
            tcp::tcp_built(s.port, port, conn.snd_nxt, conn.rcv_nxt, FLAGS_RESPONSE, WINDOW),
            client,
            wire,
        )
    } else {
        s
    }
}

/// The body of the answer to bytes that are no request.
pub open spec fn malformed_body() -> Seq<u8> {
    "{\"fault_message\":\"malformed request\"}".spec_bytes()
}

/// The body of the answer to a request that is too large.
pub open spec fn too_large_body() -> Seq<u8> {
    "{\"fault_message\":\"request too large\"}".spec_bytes()
}

/// The endpoint after it took in and acknowledged data of a known connection.
pub open spec fn data_taken(
    s: EndpointView,
    client: [u8; 4],
    port: u16,
    payload: Seq<u8>,
) -> EndpointView {
    let key = conn_key(client, port);
    let conn = s.conns[key];
    let rcv_nxt = seq_add(conn.rcv_nxt, payload.len() as int);
    sent(
        EndpointView {
            conns: s.conns.insert(key, ConnView { rcv_nxt, buf: conn.buf + payload, ..conn }),
            ..s
        },
        tcp::tcp_built(s.port, port, conn.snd_nxt, rcv_nxt, TCP_ACK, WINDOW),
        client,
        Seq::empty(),
    )
}

/// The endpoint after the client closed its side of a known connection.
pub open spec fn fin_taken(s: EndpointView, client: [u8; 4], port: u16) -> EndpointView {
    let key = conn_key(client, port);
    if s.conns.contains_key(key) {
        let conn = s.conns[key];
        let rcv_nxt = seq_add(conn.rcv_nxt, 1);
        sent(
            EndpointView {
                conns: s.conns.insert(
                    key,
                    ConnView {
                        state: TcpState::LastAck,
                        snd_nxt: seq_add(conn.snd_nxt, 1),
                        rcv_nxt,
                        ..conn
                    },
                ),
                ..s
            },
            tcp::tcp_built(s.port, port, conn.snd_nxt, rcv_nxt, FLAGS_FIN_ACK, WINDOW),
            client,
            Seq::empty(),
        )
    } else {
        s
    }
}

/// Where a segment leaves the endpoint: at rest, or with a request to be served.
#[verifier::ext_equal]
pub enum StepView {
    Rest(EndpointView),
    Serve { state: EndpointView, request: http::RequestView, fin: bool },
}

/// The endpoint after data of a known connection, and what is left to do. `fin` says
/// that the segment also closes.
#[verifier::opaque]
pub open spec fn data_step(
    s: EndpointView,
    client: [u8; 4],
    port: u16,
    payload: Seq<u8>,
    fin: bool,
) -> StepView {
    let t = data_taken(s, client, port, payload);
    let close = |u: EndpointView|
        if fin {
            fin_taken(u, client, port)
        } else {
            u
        };
    match http::parse_request(t.conns[conn_key(client, port)].buf) {
        http::ParseView::Incomplete => StepView::Rest(close(t)),
        http::ParseView::Malformed => StepView::Rest(
            close(responded(t, client, port, 400, malformed_body())),
        ),
        http::ParseView::TooLarge => StepView::Rest(
            close(responded(t, client, port, 413, too_large_body())),
        ),
        http::ParseView::Complete(request) => StepView::Serve { state: t, request, fin },
    }
}

/// What a segment does to the endpoint.
pub open spec fn segment_step(
    s: EndpointView,
    client: [u8; 4],
    header: TcpHeader,
    payload: Seq<u8>,
) -> StepView {
    let port = header.src_port;
    let key = conn_key(client, port);
    if tcp::has_flag(header, TCP_RST) {
        StepView::Rest(EndpointView { conns: s.conns.remove(key), ..s })
    } else if tcp::has_flag(header, TCP_SYN) && !tcp::has_flag(header, TCP_ACK) {
        StepView::Rest(syn_taken(s, client, header))
    } else if !s.conns.contains_key(key) {
        StepView::Rest(reset_sent(s, client, header, payload.len() as int))
    } else {
        let conn = s.conns[key];
        if header.seq != conn.rcv_nxt && payload.len() > 0 {
            StepView::Rest(s)
        } else {
            let acked = tcp::has_flag(header, TCP_ACK) && header.ack == conn.snd_nxt;
            match conn.state {
                TcpState::SynReceived => if acked {
                    let t = EndpointView {
                        conns: s.conns.insert(
                            key,
                            ConnView { state: TcpState::Established, ..conn },
                        ),
                        ..s
                    };
                    if payload.len() > 0 {
                        data_step(t, client, port, payload, false)
                    } else {
                        StepView::Rest(t)
                    }
                } else {
                    StepView::Rest(s)
                },
                TcpState::Established => if payload.len() > 0 {
                    data_step(s, client, port, payload, tcp::has_flag(header, TCP_FIN))
                } else if tcp::has_flag(header, TCP_FIN) {
                    StepView::Rest(fin_taken(s, client, port))
                } else {
                    StepView::Rest(s)
                },
                TcpState::LastAck => if acked {
                    StepView::Rest(EndpointView { conns: s.conns.remove(key), ..s })
                } else {
                    StepView::Rest(s)
                },
            }
        }
    }
}

/// The endpoint after a request was served with a response.
pub open spec fn served(
    s: EndpointView,
    client: [u8; 4],
    port: u16,
    fin: bool,
    status: u16,
    body: Seq<u8>,
) -> EndpointView {
    let t = responded(s, client, port, status, body);
    if fin {
        fin_taken(t, client, port)
    } else {
        t
    }
}

/// A segment for the endpoint: who sent it, its header and its payload.
#[verifier::ext_equal]
pub struct SegmentView {
    pub client: [u8; 4],
    pub header: TcpHeader,
    pub payload: Seq<u8>,
}

/// The segment that a packet carries to `ip` and `port`, if it carries a valid one.
#[verifier::opaque]
pub open spec fn segment_in(packet: Seq<u8>, ip: [u8; 4], port: u16) -> Option<SegmentView> {
    match ipv4::ipv4_parsed(packet) {
        Err(_) => None,
        Ok(h) => {
            let end = h.total_len as int;
            if h.protocol != ipv4::protocol_number(IpProtocol::Tcp) || h.dst != ip {
                None
            } else if end > packet.len() || IPV4_HDR_LEN >= end || packet.len() < IPV4_HDR_LEN + 13 {
                None
            } else {
                let payload_start = IPV4_HDR_LEN + packet[IPV4_HDR_LEN + 12] / 16 * 4;
                if payload_start > end {
                    None
                } else {
                    let payload = packet.subrange(payload_start, end);
                    match tcp::tcp_parsed(
                        packet.subrange(IPV4_HDR_LEN as int, payload_start),
                        payload,
                        h.src,
                        h.dst,
                    ) {
                        Ok(header) if header.dst_port == port => Some(
                            SegmentView { client: h.src, header, payload },
                        ),
                        _ => None,
                    }
                }
            }
        },
    }
}

/// What a packet of the guest does to the endpoint; nothing if it is not for it.
#[verifier::opaque]
pub open spec fn packet_step(s: EndpointView, mac: [u8; 6], packet: Seq<u8>) -> Option<
    (SegmentView, StepView),
> {
    match segment_in(packet, s.ip, s.port) {
        Some(seg) => Some(
            (
                seg,
                segment_step(
                    EndpointView { guest_mac: Some(mac), ..s },
                    seg.client,
                    seg.header,
                    seg.payload,
                ),
            ),
        ),
        None => None,
    }
}

/// One connection.
#[derive(Debug)]
struct Conn {
    state: TcpState,
    snd_nxt: u32,
    rcv_nxt: u32,
    rcv_buf: Vec<u8>,
}

impl View for Conn {
    type V = ConnView;

    closed spec fn view(&self) -> ConnView {
        ConnView {
            state: self.state,
            snd_nxt: self.snd_nxt,
            rcv_nxt: self.rcv_nxt,
            buf: self.rcv_buf@,
        }
    }
}

impl Conn {
    fn new(client_seq: u32, server_iss: u32) -> (c: Self)
        ensures
            c@ == opened_conn(client_seq, server_iss),
    {
        let c = Conn {
            state: TcpState::SynReceived,
            snd_nxt: server_iss.wrapping_add(1),
            rcv_nxt: client_seq.wrapping_add(1),
            rcv_buf: Vec::new(),
        };
        assert(c@ =~= opened_conn(client_seq, server_iss));
        c
    }
}

/// A frame for the guest. The caller puts an Ethernet header before it.
#[derive(Clone, Debug)]
pub struct OutboundFrame {
    pub dst_mac: [u8; 6],
    pub eth_payload: Vec<u8>,
}

impl View for OutboundFrame {
    type V = FrameView;

    open spec fn view(&self) -> FrameView {
        FrameView { dst_mac: self.dst_mac, payload: self.eth_payload@ }
    }
}

/// The contents of each frame of a sequence.
pub open spec fn frames(s: Seq<OutboundFrame>) -> Seq<FrameView> {
    Seq::new(s.len(), |i: int| s[i]@)
}

/// A request that waits for its response.
#[derive(Debug)]
pub struct PendingRequest {
    pub client: [u8; 4],
    pub port: u16,
    /// The segment that completed the request also closes.
    pub fin: bool,
    pub request: HttpRequest,
}

/// What became of a packet.
#[derive(Debug)]
pub enum FrameOutcome {
    /// Not for the endpoint.
    Ignored,
    /// Handled.
    Handled,
    /// A request is to be served.
    Request(PendingRequest),
}

/// The TCP endpoint of the metadata service.
#[derive(Debug)]
pub struct TcpEndpoint {
    server_port: u16,
    server_ip: [u8; 4],
    guest_mac: Option<[u8; 6]>,
    conns: BTreeMap<u64, Conn>,
    next_iss: u32,
    ip_id: u16,
    out_queue: Vec<OutboundFrame>,
}

spec fn conns_view(m: Map<u64, Conn>) -> Map<u64, ConnView> {
    m.map_values(|c: Conn| c@)
}

impl View for TcpEndpoint {
    type V = EndpointView;

    closed spec fn view(&self) -> EndpointView {
        EndpointView {
            port: self.server_port,
            ip: self.server_ip,
            guest_mac: self.guest_mac,
            conns: conns_view(self.conns@),
            next_iss: self.next_iss,
            ip_id: self.ip_id,
            out: frames(self.out_queue@),
        }
    }
}

/// Whether two addresses are equal.
pub fn same_ip(a: [u8; 4], b: [u8; 4]) -> (r: bool)
    ensures
        r == (a == b),
{
    let r = a[0] == b[0] && a[1] == b[1] && a[2] == b[2] && a[3] == b[3];
    assert(r ==> a =~= b);
    r
}

fn pack_key(ip: [u8; 4], port: u16) -> (k: u64)
    ensures
        k == conn_key(ip, port),
{
    (((ip[0] as u64 * 256 + ip[1] as u64) * 256 + ip[2] as u64) * 256 + ip[3] as u64) * 65536
        + port as u64
}

/// A segment taken apart.
struct Segment<'a> {
    client: [u8; 4],
    header: TcpHeader,
    payload: &'a [u8],
}

fn find_segment<'a>(packet: &'a [u8], ip: [u8; 4], port: u16) -> (r: Option<Segment<'a>>)
    ensures
        match r {
            Some(seg) => segment_in(packet@, ip, port) == Some(
                SegmentView { client: seg.client, header: seg.header, payload: seg.payload@ },
            ),
            None => segment_in(packet@, ip, port) is None,
        },
{
    proof {
        reveal(segment_in);
    }
    let h = match Ipv4Header::parse(packet) {
        Ok(h) => h,
        Err(_) => {
            return None;
        },
    };
    if h.protocol != IpProtocol::Tcp.to_wire() {
        return None;
    }
    if !same_ip(h.dst, ip) {
        return None;
    }
    let end: usize = h.total_len as usize;
    if end > packet.len() || IPV4_HDR_LEN >= end {
        return None;
    }
    if packet.len() < IPV4_HDR_LEN + 13 {
        return None;
    }
    let payload_start: usize = IPV4_HDR_LEN + (packet[IPV4_HDR_LEN + 12] / 16) as usize * 4;
    if payload_start > end {
        return None;
    }
    let payload = vstd::slice::slice_subrange(packet, payload_start, end);
    let head = vstd::slice::slice_subrange(packet, IPV4_HDR_LEN, payload_start);
    match TcpHeader::parse(head, payload, h.src, h.dst) {
        Ok(header) => {
            if header.dst_port != port {
                return None;
            }
            Some(Segment { client: h.src, header, payload })
        },
        Err(_) => None,
    }
}

impl TcpEndpoint {
    /// An endpoint without connections.
    pub fn new(server_ip: [u8; 4], server_port: u16) -> (e: Self)
        ensures
            e@ == (EndpointView {
                port: server_port,
                ip: server_ip,
                guest_mac: None,
                conns: Map::empty(),
                next_iss: FIRST_ISS,
                ip_id: 1,
                out: Seq::empty(),
            }),
    {
        let e = TcpEndpoint {
            server_port,
            server_ip,
            guest_mac: None,
            conns: BTreeMap::new(),
            next_iss: FIRST_ISS,
            ip_id: 1,
            out_queue: Vec::new(),
        };
        assert(e@.conns =~= Map::<u64, ConnView>::empty());
        assert(e@.out =~= Seq::<FrameView>::empty());
        e
    }

    /// The address of the endpoint.
    pub fn ip(&self) -> (ip: [u8; 4])
        ensures
            ip == self@.ip,
    {
        self.server_ip
    }

    /// Moves the endpoint to another address.
    pub fn set_ip(&mut self, ip: [u8; 4])
        ensures
            final(self)@ == (EndpointView { ip, ..old(self)@ }),
    {
        self.server_ip = ip;
    }

    /// Notes the hardware address of the guest.
    pub fn set_guest_mac(&mut self, mac: [u8; 6])
        ensures
            final(self)@ == (EndpointView { guest_mac: Some(mac), ..old(self)@ }),
    {
        self.guest_mac = Some(mac);
    }

    /// Takes all frames for the guest, oldest first.
    pub fn drain_outbound(&mut self) -> (out: Vec<OutboundFrame>)
        ensures
            frames(out@) == old(self)@.out,
            final(self)@ == (EndpointView { out: Seq::empty(), ..old(self)@ }),
    {
        let mut out: Vec<OutboundFrame> = Vec::new();
        std::mem::swap(&mut out, &mut self.out_queue);
        assert(self@.out =~= Seq::<FrameView>::empty());
        out
    }

    fn take_conn(&mut self, key: u64) -> (r: Option<Conn>)
        ensures
            match r {
                Some(c) => old(self)@.conns.contains_key(key) && c@ == old(self)@.conns[key],
                None => !old(self)@.conns.contains_key(key),
            },
            final(self)@ == (EndpointView {
                conns: old(self)@.conns.remove(key),
                ..old(self)@
            }),
    {
        let r = self.conns.remove(&key);
        assert(self@.conns =~= old(self)@.conns.remove(key));
        r
    }

    fn put_conn(&mut self, key: u64, c: Conn)
        ensures
            final(self)@ == (EndpointView {
                conns: old(self)@.conns.insert(key, c@),
                ..old(self)@
            }),
    {
        let _ = self.conns.insert(key, c);
        assert(self@.conns =~= old(self)@.conns.insert(key, c@));
    }

    fn send(&mut self, header: TcpHeader, to: [u8; 4], payload: &[u8])
        ensures
            final(self)@ == sent(old(self)@, header, to, payload@),
    {
        proof {
            reveal(packet_of);
        }
        self.ip_id = self.ip_id.wrapping_add(1);
        let segment: Vec<u8> = header.to_bytes_with_payload(self.server_ip, to, payload);
        let len: u16 = if segment.len() > u16::MAX as usize {
            u16::MAX
        } else {
            segment.len() as u16
        };
        let ip = Ipv4Header::build(self.server_ip, to, IpProtocol::Tcp, len, self.ip_id);
        let mut eth_payload: Vec<u8> = Vec::new();
        push_bytes(&mut eth_payload, ip.to_bytes().as_slice());
        push_bytes(&mut eth_payload, segment.as_slice());
        let dst_mac: [u8; 6] = match self.guest_mac {
            Some(mac) => mac,
            None => [0xFF, 0xFF, 0xFF, 0xFF, 0xFF, 0xFF],
        };
        self.out_queue.push(OutboundFrame { dst_mac, eth_payload });
        assert(eth_payload@ =~= packet_of(self.server_ip, to, header, payload@, self.ip_id));
        assert(self@.out =~= sent(old(self)@, header, to, payload@).out);
    }

    fn send_bare(&mut self, header: TcpHeader, to: [u8; 4])
        ensures
            final(self)@ == sent(old(self)@, header, to, Seq::empty()),
    {
        let none: [u8; 0] = [];
        assert(none@ =~= Seq::<u8>::empty());
        self.send(header, to, none.as_slice());
    }

    fn handle_syn(&mut self, client: [u8; 4], header: TcpHeader)
        ensures
            final(self)@ == syn_taken(old(self)@, client, header),
    {
        let iss: u32 = self.next_iss;
        self.next_iss = iss.wrapping_add(ISS_STEP);
        let conn = Conn::new(header.seq, iss);
        let syn_ack = TcpHeader::build(
            self.server_port,
            header.src_port,
            iss,
            conn.rcv_nxt,
            FLAGS_SYN_ACK,
            WINDOW,
        );
        self.send_bare(syn_ack, client);
        self.put_conn(pack_key(client, header.src_port), conn);
        assert(self@ =~= syn_taken(old(self)@, client, header));
    }

    fn send_response(&mut self, client: [u8; 4], port: u16, response: &HttpResponse)
        ensures
            final(self)@ == responded(old(self)@, client, port, response.status, response.body@),
    {
        let key: u64 = pack_key(client, port);
        match self.take_conn(key) {
            Some(mut conn) => {
                let wire: Vec<u8> = response.to_wire();
                let snd_seq: u32 = conn.snd_nxt;
                let len: u32 = (wire.len() as u64 % 0x1_0000_0000) as u32;
                conn.snd_nxt = snd_seq.wrapping_add(len).wrapping_add(1);
                conn.state = TcpState::LastAck;
                let header = TcpHeader::build(
                    self.server_port,
                    port,
                    snd_seq,
                    conn.rcv_nxt,
                    FLAGS_RESPONSE,
                    WINDOW,
                );
                assert(conn@.snd_nxt == seq_add(snd_seq, wire@.len() as int + 1));
                self.put_conn(key, conn);
                assert(self@.conns =~= old(self)@.conns.insert(key, conn@));
                self.send(header, client, wire.as_slice());
            },
            None => {
                assert(self@.conns =~= old(self)@.conns);
            },
        }
    }

    fn on_fin(&mut self, client: [u8; 4], port: u16)
        ensures
            final(self)@ == fin_taken(old(self)@, client, port),
    {
        let key: u64 = pack_key(client, port);
        match self.take_conn(key) {
            Some(mut conn) => {
                conn.rcv_nxt = conn.rcv_nxt.wrapping_add(1);
                let snd_nxt: u32 = conn.snd_nxt;
                conn.snd_nxt = snd_nxt.wrapping_add(1);
                conn.state = TcpState::LastAck;
                let header = TcpHeader::build(
                    self.server_port,
                    port,
                    snd_nxt,
                    conn.rcv_nxt,
                    FLAGS_FIN_ACK,
                    WINDOW,
                );
                self.put_conn(key, conn);
                assert(self@.conns =~= old(self)@.conns.insert(key, conn@));
                self.send_bare(header, client);
            },
            None => {
                assert(self@.conns =~= old(self)@.conns);
            },
        }
    }

    /// Takes in data of a known connection. Gives the request that is to be served, if
    /// the data completed one.
    #[verifier::rlimit(80)]
    #[verifier::spinoff_prover]
    fn on_data(&mut self, client: [u8; 4], port: u16, payload: &[u8], fin: bool) -> (r: Option<
        HttpRequest,
    >)
        requires
            old(self)@.conns.contains_key(conn_key(client, port)),
        ensures
            match r {
                Some(req) => data_step(old(self)@, client, port, payload@, fin)
                    == (StepView::Serve { state: final(self)@, request: req@, fin }),
                None => data_step(old(self)@, client, port, payload@, fin) == StepView::Rest(
                    final(self)@,
                ),
            },
    {
        proof {
            reveal(data_step);
        }
        let key: u64 = pack_key(client, port);
        match self.take_conn(key) {
            Some(mut conn) => {
                let len: u32 = (payload.len() as u64 % 0x1_0000_0000) as u32;
                conn.rcv_nxt = conn.rcv_nxt.wrapping_add(len);
                push_bytes(&mut conn.rcv_buf, payload);
                let ack = TcpHeader::build(
                    self.server_port,
                    port,
                    conn.snd_nxt,
                    conn.rcv_nxt,
                    TCP_ACK,
                    WINDOW,
                );
                let outcome = try_parse_http(conn.rcv_buf.as_slice());
                let ghost buf = conn.rcv_buf@;
                self.put_conn(key, conn);
                assert(self@.conns =~= old(self)@.conns.insert(key, conn@));
                self.send_bare(ack, client);
                assert(self@ =~= data_taken(old(self)@, client, port, payload@));
                assert(self@.conns[key].buf == buf);
                match outcome {
                    HttpParseOutcome::Incomplete => {},
                    HttpParseOutcome::Malformed => {
                        let body: Vec<u8> =
                            "{\"fault_message\":\"malformed request\"}".as_bytes_vec();
                        self.send_response(client, port, &HttpResponse { status: 400, body });
                    },
                    HttpParseOutcome::TooLarge => {
                        let body: Vec<u8> =
                            "{\"fault_message\":\"request too large\"}".as_bytes_vec();
                        self.send_response(client, port, &HttpResponse { status: 413, body });
                    },
                    HttpParseOutcome::Complete(req) => {
                        return Some(req);
                    },
                }
                if fin {
                    self.on_fin(client, port);
                }
                None
            },
            None => None,
        }
    }

    /// Takes one segment. Gives the request that is to be served, if the segment
    /// completed one, and whether the segment also closes.
    #[verifier::rlimit(80)]
    #[verifier::spinoff_prover]
    fn dispatch(&mut self, client: [u8; 4], header: TcpHeader, payload: &[u8]) -> (r: Option<
        (HttpRequest, bool),
    >)
        ensures
            match r {
                Some((req, fin)) => segment_step(old(self)@, client, header, payload@) == (
                StepView::Serve { state: final(self)@, request: req@, fin }),
                None => segment_step(old(self)@, client, header, payload@) == StepView::Rest(
                    final(self)@,
                ),
            },
    {
        let port: u16 = header.src_port;
        let key: u64 = pack_key(client, port);
        if header.is_rst() {
            let _ = self.take_conn(key);
            return None;
        }
        if header.is_syn() && !header.is_ack() {
            self.handle_syn(client, header);
            return None;
        }
        match self.take_conn(key) {
            None => {
                assert(self@.conns =~= old(self)@.conns);
                let len: u32 = (payload.len() as u64 % 0x1_0000_0000) as u32;
                let rst = TcpHeader::build(
                    self.server_port,
                    port,
                    header.ack,
                    header.seq.wrapping_add(len),
                    FLAGS_RST_ACK,
                    0,
                );
                self.send_bare(rst, client);
                None
            },
            Some(mut conn) => {
                if header.seq != conn.rcv_nxt && payload.len() > 0 {
                    self.put_conn(key, conn);
                    assert(self@.conns =~= old(self)@.conns);
                    return None;
                }
                let acked: bool = header.is_ack() && header.ack == conn.snd_nxt;
                match conn.state {
                    TcpState::SynReceived => {
                        if !acked {
                            self.put_conn(key, conn);
                            assert(self@.conns =~= old(self)@.conns);
                            return None;
                        }
                        let ghost before = conn@;
                        conn.state = TcpState::Established;
                        self.put_conn(key, conn);
                        assert(self@.conns =~= old(self)@.conns.insert(
                            key,
                            ConnView { state: TcpState::Established, ..before },
                        ));
                        if payload.len() > 0 {
                            match self.on_data(client, port, payload, false) {
                                Some(req) => {
                                    return Some((req, false));
                                },
                                None => {},
                            }
                        }
                        None
                    },
                    TcpState::Established => {
                        self.put_conn(key, conn);
                        assert(self@.conns =~= old(self)@.conns);
                        if payload.len() > 0 {
                            let fin: bool = header.is_fin();
                            match self.on_data(client, port, payload, fin) {
                                Some(req) => {
                                    return Some((req, fin));
                                },
                                None => {},
                            }
                        } else if header.is_fin() {
                            self.on_fin(client, port);
                        }
                        None
                    },
                    TcpState::LastAck => {
                        if !acked {
                            self.put_conn(key, conn);
                            assert(self@.conns =~= old(self)@.conns);
                        }
                        None
                    },
                }
            },
        }
    }

    /// Takes one IPv4 packet of the guest. Where it completes a request, the request is
    /// handed out, and `respond` is owed next.
    pub fn receive(&mut self, eth_src_mac: [u8; 6], payload: &[u8]) -> (r: FrameOutcome)
        ensures
            match (r, packet_step(old(self)@, eth_src_mac, payload@)) {
                (FrameOutcome::Ignored, None) => final(self)@ == old(self)@,
                (FrameOutcome::Handled, Some((_, StepView::Rest(t)))) => final(self)@ == t,
                (
                    FrameOutcome::Request(p),
                    Some((seg, StepView::Serve { state, request, fin })),
                ) => final(self)@ == state && p.client == seg.client && p.port
                    == seg.header.src_port && p.fin == fin && p.request@ == request,
                _ => false,
            },
    {
        proof {
            reveal(packet_step);
        }
        match find_segment(payload, self.server_ip, self.server_port) {
            None => FrameOutcome::Ignored,
            Some(seg) => {
                self.guest_mac = Some(eth_src_mac);
                match self.dispatch(seg.client, seg.header, seg.payload) {
                    Some((request, fin)) => FrameOutcome::Request(
                        PendingRequest {
                            client: seg.client,
                            port: seg.header.src_port,
                            fin,
                            request,
                        },
                    ),
                    None => FrameOutcome::Handled,
                }
            },
        }
    }

    /// Answers the request of a connection.
    pub fn respond(&mut self, client: [u8; 4], port: u16, fin: bool, response: &HttpResponse)
        ensures
            final(self)@ == served(
                old(self)@,
                client,
                port,
                fin,
                response.status,
                response.body@,
            ),
    {
        self.send_response(client, port, response);
        if fin {
            self.on_fin(client, port);
        }
    }
}

/// An endpoint together with the function that serves its requests.
#[derive(Debug)]
pub struct TcpServer<F> {
    endpoint: TcpEndpoint,
    handler: F,
}

impl<F: Fn(HttpRequest) -> HttpResponse> TcpServer<F> {
    /// The state of the endpoint.
    pub closed spec fn state(&self) -> EndpointView {
        self.endpoint@
    }

    /// The function that serves requests.
    pub closed spec fn serves(&self) -> F {
        self.handler
    }

    /// A server at an address and port. Its hardware address goes into no packet: whoever
    /// takes the packets puts them into frames.
    pub fn new(server_ip: [u8; 4], server_port: u16, _server_mac: [u8; 6], handler: F) -> (s: Self)
        ensures
            s.serves() == handler,
            s.state() == (EndpointView {
                port: server_port,
                ip: server_ip,
                guest_mac: None,
                conns: Map::empty(),
                next_iss: FIRST_ISS,
                ip_id: 1,
                out: Seq::empty(),
            }),
    {
        TcpServer { endpoint: TcpEndpoint::new(server_ip, server_port), handler }
    }

    /// Moves the server to another address.
    pub fn set_ip(&mut self, ip: [u8; 4])
        ensures
            final(self).serves() == old(self).serves(),
            final(self).state() == (EndpointView { ip, ..old(self).state() }),
    {
        self.endpoint.set_ip(ip);
    }

    /// Notes the hardware address of the guest.
    pub fn set_guest_mac(&mut self, mac: [u8; 6])
        ensures
            final(self).serves() == old(self).serves(),
            final(self).state() == (EndpointView { guest_mac: Some(mac), ..old(self).state() }),
    {
        self.endpoint.set_guest_mac(mac);
    }

    /// Takes one IPv4 packet of the guest and serves the request that it completes, if
    /// any: the function that serves requests is asked for that one only. Gives whether the
    /// packet was for the server.
    pub fn handle_ip_frame(&mut self, eth_src_mac: [u8; 6], payload: &[u8]) -> (ours: bool)
        requires
            packet_step(old(self).state(), eth_src_mac, payload@) matches Some(
                (_, StepView::Serve { request, .. }),
            ) ==> forall|req: HttpRequest|
                req@ == request ==> #[trigger] call_requires(old(self).serves(), (req,)),
        ensures
            final(self).serves() == old(self).serves(),
            ours == (packet_step(old(self).state(), eth_src_mac, payload@) is Some),
            match packet_step(old(self).state(), eth_src_mac, payload@) {
                None => final(self).state() == old(self).state(),
                Some((_, StepView::Rest(t))) => final(self).state() == t,
                Some((seg, StepView::Serve { state, request, fin })) => exists|
                    req: HttpRequest,
                    resp: HttpResponse,
                |
                    req@ == request && #[trigger] call_ensures(
                        old(self).serves(),
                        (req,),
                        resp,
                    ) && final(self).state() == served(
                        state,
                        seg.client,
                        seg.header.src_port,
                        fin,
                        resp.status,
                        resp.body@,
                    ),
            },
    {
        match self.endpoint.receive(eth_src_mac, payload) {
            FrameOutcome::Ignored => false,
            FrameOutcome::Handled => true,
            FrameOutcome::Request(p) => {
                let ghost req = p.request;
                assert(call_requires(old(self).serves(), (req,)));
                let response = (self.handler)(p.request);
                assert(call_ensures(old(self).serves(), (req,), response));
                self.endpoint.respond(p.client, p.port, p.fin, &response);
                true
            },
        }
    }

    /// Takes all frames for the guest, oldest first.
    pub fn drain_outbound(&mut self) -> (out: Vec<OutboundFrame>)
        ensures
            frames(out@) == old(self).state().out,
            final(self).serves() == old(self).serves(),
            final(self).state() == (EndpointView { out: Seq::empty(), ..old(self).state() }),
    {
        self.endpoint.drain_outbound()
    }
}

/// A packet to another address or port, or one that is not a valid segment, leaves the
/// endpoint as it was and belongs to someone else.
pub proof fn foreign_packets_are_ignored(s: EndpointView, mac: [u8; 6], packet: Seq<u8>)
    requires
        ipv4::ipv4_parsed(packet) matches Ok(h) ==> h.dst != s.ip,
    ensures
        packet_step(s, mac, packet) is None,
{
    reveal(packet_step);
    reveal(segment_in);
}

/// A segment touches only the connection of the client that sent it.
pub proof fn segments_keep_other_connections(
    s: EndpointView,
    client: [u8; 4],
    header: TcpHeader,
    payload: Seq<u8>,
    other: u64,
)
    requires
        other != conn_key(client, header.src_port),
    ensures
        ({
            let t = match segment_step(s, client, header, payload) {
                StepView::Rest(t) => t,
                StepView::Serve { state, .. } => state,
            };
            t.conns.contains_key(other) == s.conns.contains_key(other) && (s.conns.contains_key(
                other,
            ) ==> t.conns[other] == s.conns[other])
        }),
{
    reveal(data_step);
}

/// A segment of an unknown connection that neither opens nor resets one is answered
/// with a reset that acknowledges it, and opens nothing.
pub proof fn unknown_connection_is_reset(
    s: EndpointView,
    client: [u8; 4],
    header: TcpHeader,
    payload: Seq<u8>,
)
    requires
        !s.conns.contains_key(conn_key(client, header.src_port)),
        !tcp::has_flag(header, TCP_RST),
        !tcp::has_flag(header, TCP_SYN) || tcp::has_flag(header, TCP_ACK),
    ensures
        segment_step(s, client, header, payload) == StepView::Rest(
            reset_sent(s, client, header, payload.len() as int),
        ),
        reset_sent(s, client, header, payload.len() as int).conns == s.conns,
        reset_sent(s, client, header, payload.len() as int).out.len() == s.out.len() + 1,
{
}

/// Data that does not continue the stream changes nothing.
pub proof fn out_of_order_data_is_dropped(
    s: EndpointView,
    client: [u8; 4],
    header: TcpHeader,
    payload: Seq<u8>,
)
    requires
        s.conns.contains_key(conn_key(client, header.src_port)),
        header.seq != s.conns[conn_key(client, header.src_port)].rcv_nxt,
        payload.len() > 0,
        !tcp::has_flag(header, TCP_RST),
        !tcp::has_flag(header, TCP_SYN) || tcp::has_flag(header, TCP_ACK),
    ensures
        segment_step(s, client, header, payload) == StepView::Rest(s),
{
}

/// The handshake: after the answer to a request for a connection, the acknowledgement of
/// that answer establishes the connection and sends nothing.
pub proof fn handshake_establishes(
    s: EndpointView,
    client: [u8; 4],
    syn: TcpHeader,
    ack: TcpHeader,
)
    requires
        tcp::has_flag(syn, TCP_SYN),
        !tcp::has_flag(syn, TCP_ACK),
        !tcp::has_flag(syn, TCP_RST),
        ack.src_port == syn.src_port,
        tcp::has_flag(ack, TCP_ACK),
        !tcp::has_flag(ack, TCP_RST),
        ack.ack == seq_add(s.next_iss, 1),
    ensures
        ({
            let opened = syn_taken(s, client, syn);
            let key = conn_key(client, syn.src_port);
            &&& segment_step(s, client, syn, Seq::empty()) == StepView::Rest(opened)
            &&& opened.out.len() == s.out.len() + 1
            &&& segment_step(opened, client, ack, Seq::empty()) matches StepView::Rest(t)
            &&& t.conns.contains_key(key)
            &&& t.conns[key].state == TcpState::Established
            &&& t.conns[key].rcv_nxt == seq_add(syn.seq, 1)
            &&& t.out == opened.out
        }),
{
}

/// After a response the connection waits for the client's last acknowledgement, and that
/// acknowledgement makes the endpoint forget it.
pub proof fn last_acknowledgement_closes(
    s: EndpointView,
    client: [u8; 4],
    status: u16,
    body: Seq<u8>,
    ack: TcpHeader,
)
    requires
        s.conns.contains_key(conn_key(client, ack.src_port)),
        tcp::has_flag(ack, TCP_ACK),
        !tcp::has_flag(ack, TCP_RST),
        ack.ack == responded(s, client, ack.src_port, status, body).conns[conn_key(
            client,
            ack.src_port,
        )].snd_nxt,
    ensures
        ({
            let answered = responded(s, client, ack.src_port, status, body);
            let key = conn_key(client, ack.src_port);
            &&& answered.conns[key].state == TcpState::LastAck
            &&& segment_step(answered, client, ack, Seq::empty()) matches StepView::Rest(t)
            &&& !t.conns.contains_key(key)
            &&& t.out == answered.out
        }),
{
}

/// Every packet that the endpoint sends can be read back: it is a valid segment from the
/// endpoint's address with the header and payload that were sent, as long as it fits in
/// a packet.
pub proof fn sent_packets_are_valid(
    from: [u8; 4],
    to: [u8; 4],
    header: TcpHeader,
    payload: Seq<u8>,
    id: u16,
)
    requires
        header.data_offset == 5,
        header.flags < 0x40,
        header.checksum == 0,
        header.mss is None,
        payload.len() + 40 <= u16::MAX,
    ensures
        segment_in(packet_of(from, to, header, payload, id), to, header.dst_port) == Some(
            SegmentView { client: from, header, payload },
        ),
{
    reveal(packet_of);
    reveal(segment_in);
    let segment = tcp::tcp_wire(header, from, to, payload);
    let h = ipv4::ipv4_built(
        from,
        to,
        IpProtocol::Tcp,
        tcp::segment_len(segment.len() as int),
        id,
    );
    let packet = packet_of(from, to, header, payload, id);
    ipv4::ipv4_round_trip(h, segment);
    tcp::tcp_round_trip(header, from, to, payload);
    assert(ipv4::ipv4_wire(h).len() == 20);
    assert(segment.len() == 20 + payload.len());
    assert(packet[32] == segment[12]);
    assert(segment[12] == 80);
    assert(packet.subrange(20, 40) =~= segment.subrange(0, 20));
    assert(packet.subrange(40, 40 + payload.len() as int) =~= payload);
}

/// Whether a packet is, byte for byte, a TCP segment to an address and a port: an IPv4
/// header without options that is no fragment, both checksums right, and a TCP header of
/// five to fifteen words within the packet.
pub open spec fn carries_segment(p: Seq<u8>, ip: [u8; 4], port: u16) -> bool {
    let total = p[2] * 256 + p[3];
    let words = p[32] / 16;
    &&& 40 <= total <= p.len()
    &&& p[0] == 0x45
    &&& p[6] % 64 == 0 && p[7] == 0
    &&& p[9] == 6
    &&& p.subrange(16, 20) == ip@
    &&& p[22] * 256 + p[23] == port
    &&& 5 <= words && 20 + words * 4 <= total
    &&& !(p[10] == 0xFF && p[11] == 0xFF)
    &&& pdu::word_sum(p.take(20)) % 0xFFFF == 0
    &&& !(p[36] == 0xFF && p[37] == 0xFF)
    &&& pdu::word_sum(
        p.subrange(12, 20) + seq![
            0u8,
            6u8,
            ((total - 20) / 256) as u8,
            ((total - 20) % 256) as u8,
        ] + p.subrange(20, total),
    ) % 0xFFFF == 0
}

/// The endpoint takes exactly the packets that carry a segment to it, whatever options the
/// segment has. The payload is all that follows the header, options included, up to the end
/// of the packet.
pub proof fn segments_to_the_endpoint_are_taken(p: Seq<u8>, ip: [u8; 4], port: u16)
    ensures
        segment_in(p, ip, port) is Some <==> p.len() >= 40 && carries_segment(p, ip, port),
        segment_in(p, ip, port) matches Some(seg) ==> {
            &&& seg.client@ == p.subrange(12, 16)
            &&& seg.payload == p.subrange(20 + p[32] / 16 * 4, p[2] * 256 + p[3])
            &&& seg.header.src_port == p[20] * 256 + p[21]
            &&& seg.header.dst_port == p[22] * 256 + p[23]
            &&& seg.header.seq == ((p[24] * 256 + p[25]) * 256 + p[26]) * 256 + p[27]
            &&& seg.header.ack == ((p[28] * 256 + p[29]) * 256 + p[30]) * 256 + p[31]
            &&& seg.header.flags == p[33] % 64
        },
{
    reveal(segment_in);
    ipv4::other_headers_are_refused(p);
    if p.len() >= 20 && p[0] == 0x45 && !(p[10] == 0xFF && p[11] == 0xFF) {
        ipv4::valid_headers_are_read(p);
    }
    let total = p[2] * 256 + p[3];
    let start = 20 + p[32] / 16 * 4;
    if ipv4::ipv4_parsed(p) is Ok && p.len() >= 33 && total <= p.len() && start <= total {
        let h = ipv4::ipv4_parsed(p)->Ok_0;
        let b = p.subrange(20, start);
        let payload = p.subrange(start, total);
        assert(h.dst == ip <==> p.subrange(16, 20) == ip@) by {
            if h.dst@ == ip@ {
                assert(h.dst =~= ip);
            }
        }
        if start >= 40 {
            assert(b[12] == p[32]);
            assert(b[16] == p[36] && b[17] == p[37]);
            if !(b[16] == 0xFF && b[17] == 0xFF) {
                tcp::valid_segments_are_read(b, payload, h.src, h.dst);
                assert(h.src@ + h.dst@ =~= p.subrange(12, 20));
                assert(b + payload =~= p.subrange(20, total));
            } else if tcp::tcp_parsed(b, payload, h.src, h.dst) is Ok {
                tcp::read_headers_were_whole(b, payload, h.src, h.dst);
            }
        } else {
            if tcp::tcp_parsed(b, payload, h.src, h.dst) is Ok {
                tcp::read_headers_were_whole(b, payload, h.src, h.dst);
            }
        }
    }
}

/// Whether a frame is to a hardware address (to everyone if there is none) and carries one
/// segment: who sends it to whom, its numbers, its flags, its window and its payload.
pub open spec fn is_reply(
    f: FrameView,
    mac: Option<[u8; 6]>,
    from: [u8; 4],
    from_port: u16,
    to: [u8; 4],
    to_port: u16,
    seq: int,
    ack: int,
    flags: u8,
    window: u16,
    payload: Seq<u8>,
) -> bool {
    &&& mac matches Some(m) ==> f.dst_mac == m
    &&& mac is None ==> f.dst_mac@ == seq![0xFFu8, 0xFFu8, 0xFFu8, 0xFFu8, 0xFFu8, 0xFFu8]
    &&& segment_in(f.payload, to, to_port) matches Some(seg) && {
        &&& seg.client == from
        &&& seg.header.src_port == from_port
        &&& seg.header.seq == seq
        &&& seg.header.ack == ack
        &&& seg.header.flags == flags
        &&& seg.header.window == window
        &&& seg.payload == payload
    }
}

proof fn sent_is_reply(s: EndpointView, header: TcpHeader, to: [u8; 4], payload: Seq<u8>)
    requires
        header.data_offset == 5,
        header.flags < 0x40,
        header.checksum == 0,
        header.mss is None,
        payload.len() + 40 <= u16::MAX,
    ensures
        is_reply(
            sent(s, header, to, payload).out.last(),
            s.guest_mac,
            s.ip,
            header.src_port,
            to,
            header.dst_port,
            header.seq as int,
            header.ack as int,
            header.flags,
            header.window,
            payload,
        ),
        sent(s, header, to, payload).out.len() == s.out.len() + 1,
        sent(s, header, to, payload).out.drop_last() == s.out,
{
    let t = sent(s, header, to, payload);
    sent_packets_are_valid(s.ip, to, header, payload, t.ip_id);
    assert(t.out.drop_last() =~= s.out);
    assert(broadcast_mac()@ =~= seq![0xFFu8, 0xFFu8, 0xFFu8, 0xFFu8, 0xFFu8, 0xFFu8]);
}

/// A request for a connection (SYN without ACK) is always answered with SYN and ACK from
/// the server's next initial number, acknowledging one more than the client's number, and
/// the connection waits for the client from there.
pub proof fn connection_requests_are_answered(
    s: EndpointView,
    client: [u8; 4],
    header: TcpHeader,
    payload: Seq<u8>,
)
    requires
        header.flags & 2 != 0,
        header.flags & 16 == 0,
        header.flags & 4 == 0,
    ensures
        segment_step(s, client, header, payload) matches StepView::Rest(t) && {
            let key = conn_key(client, header.src_port);
            let next = (header.seq + 1) % 0x1_0000_0000;
            &&& t.out.len() == s.out.len() + 1
            &&& t.out.drop_last() == s.out
            &&& is_reply(
                t.out.last(),
                s.guest_mac,
                s.ip,
                s.port,
                client,
                header.src_port,
                s.next_iss as int,
                next,
                0x12,
                0xFFFF,
                Seq::empty(),
            )
            &&& t.conns.contains_key(key)
            &&& t.conns[key].state == TcpState::SynReceived
            &&& t.conns[key].rcv_nxt == next
            &&& t.conns[key].snd_nxt == (s.next_iss + 1) % 0x1_0000_0000
            &&& t.conns[key].buf.len() == 0
            &&& t.next_iss == (s.next_iss + 0x1_0000) % 0x1_0000_0000
            &&& t.ip == s.ip && t.port == s.port && t.guest_mac == s.guest_mac
        },
{
    let conn = opened_conn(header.seq, s.next_iss);
    sent_is_reply(
        EndpointView { next_iss: seq_add(s.next_iss, ISS_STEP as int), ..s },
        tcp::tcp_built(s.port, header.src_port, s.next_iss, conn.rcv_nxt, FLAGS_SYN_ACK, WINDOW),
        client,
        Seq::empty(),
    );
}

/// A reset makes the endpoint forget the connection without a word. A segment of a
/// connection that it does not know is answered with RST and ACK: from the number that the
/// client expects, acknowledging its data.
pub proof fn resets_are_silent_and_strangers_are_reset(
    s: EndpointView,
    client: [u8; 4],
    header: TcpHeader,
    payload: Seq<u8>,
)
    ensures
        header.flags & 4 != 0 ==> (segment_step(s, client, header, payload) matches StepView::Rest(
            t,
        ) && {
            &&& !t.conns.contains_key(conn_key(client, header.src_port))
            &&& t.out == s.out
        }),
        header.flags & 4 == 0 && (header.flags & 2 == 0 || header.flags & 16 != 0)
            && !s.conns.contains_key(conn_key(client, header.src_port)) ==> (segment_step(
            s,
            client,
            header,
            payload,
        ) matches StepView::Rest(t) && {
            &&& t.conns == s.conns
            &&& t.out.len() == s.out.len() + 1
            &&& t.out.drop_last() == s.out
            &&& is_reply(
                t.out.last(),
                s.guest_mac,
                s.ip,
                s.port,
                client,
                header.src_port,
                header.ack as int,
                (header.seq + payload.len()) % 0x1_0000_0000,
                0x14,
                0,
                Seq::empty(),
            )
        }),
{
    sent_is_reply(
        s,
        tcp::tcp_built(
            s.port,
            header.src_port,
            header.ack,
            seq_add(header.seq, payload.len() as int),
            FLAGS_RST_ACK,
            0,
        ),
        client,
        Seq::empty(),
    );
}

/// Data of a connection are added to what came before and acknowledged at once with a bare
/// ACK up to their end; the connection and what was sent before stay otherwise.
pub proof fn data_are_kept_and_acknowledged(
    s: EndpointView,
    client: [u8; 4],
    port: u16,
    payload: Seq<u8>,
)
    requires
        s.conns.contains_key(conn_key(client, port)),
    ensures
        ({
            let key = conn_key(client, port);
            let before = s.conns[key];
            let t = data_taken(s, client, port, payload);
            let after = t.conns[key];
            let next = (before.rcv_nxt + payload.len()) % 0x1_0000_0000;
            &&& t.conns.contains_key(key)
            &&& after.buf == before.buf + payload
            &&& after.rcv_nxt == next
            &&& after.snd_nxt == before.snd_nxt
            &&& after.state == before.state
            &&& t.out.len() == s.out.len() + 1
            &&& t.out.drop_last() == s.out
            &&& is_reply(
                t.out.last(),
                s.guest_mac,
                s.ip,
                s.port,
                client,
                port,
                before.snd_nxt as int,
                next,
                0x10,
                0xFFFF,
                Seq::empty(),
            )
        }),
{
    let key = conn_key(client, port);
    let conn = s.conns[key];
    let rcv_nxt = seq_add(conn.rcv_nxt, payload.len() as int);
    sent_is_reply(
        EndpointView {
            conns: s.conns.insert(key, ConnView { rcv_nxt, buf: conn.buf + payload, ..conn }),
            ..s
        },
        tcp::tcp_built(s.port, port, conn.snd_nxt, rcv_nxt, TCP_ACK, WINDOW),
        client,
        Seq::empty(),
    );
}

/// What data of an open connection lead to: with the bytes so far a whole request is
/// served, bytes that are none are answered with 400 and too many with 413, and an
/// unfinished request waits. A segment that also closes closes after that, except that a
/// request is served first.
pub proof fn data_lead_to_a_response(
    s: EndpointView,
    client: [u8; 4],
    header: TcpHeader,
    payload: Seq<u8>,
)
    requires
        s.conns.contains_key(conn_key(client, header.src_port)),
        s.conns[conn_key(client, header.src_port)].state == TcpState::Established,
        header.seq == s.conns[conn_key(client, header.src_port)].rcv_nxt,
        payload.len() > 0,
        header.flags & 4 == 0,
        header.flags & 2 == 0 || header.flags & 16 != 0,
    ensures
        ({
            let port = header.src_port;
            let t = data_taken(s, client, port, payload);
            let fin = header.flags & 1 != 0;
            let bytes = s.conns[conn_key(client, port)].buf + payload;
            let step = segment_step(s, client, header, payload);
            &&& http::parse_request(bytes) matches http::ParseView::Complete(request) ==> step
                == (StepView::Serve { state: t, request, fin })
            &&& http::parse_request(bytes) is Incomplete ==> (step matches StepView::Rest(u) && (
            fin ==> u == fin_taken(t, client, port)) && (!fin ==> u == t))
            &&& http::parse_request(bytes) is Malformed ==> (step matches StepView::Rest(u) && {
                let r = responded(
                    t,
                    client,
                    port,
                    400,
                    "{\"fault_message\":\"malformed request\"}".spec_bytes(),
                );
                (fin ==> u == fin_taken(r, client, port)) && (!fin ==> u == r)
            })
            &&& http::parse_request(bytes) is TooLarge ==> (step matches StepView::Rest(u) && {
                let r = responded(
                    t,
                    client,
                    port,
                    413,
                    "{\"fault_message\":\"request too large\"}".spec_bytes(),
                );
                (fin ==> u == fin_taken(r, client, port)) && (!fin ==> u == r)
            })
        }),
{
    reveal(data_step);
}

/// A response goes out whole in one segment that also closes (ACK, PSH and FIN), from where
/// the connection stands; the close counts one number after the bytes.
pub proof fn responses_go_out_whole(
    s: EndpointView,
    client: [u8; 4],
    port: u16,
    status: u16,
    body: Seq<u8>,
)
    requires
        s.conns.contains_key(conn_key(client, port)),
        http::response_wire(status, body).len() + 40 <= u16::MAX,
    ensures
        ({
            let key = conn_key(client, port);
            let before = s.conns[key];
            let wire = http::response_wire(status, body);
            let t = responded(s, client, port, status, body);
            let after = t.conns[key];
            &&& t.conns.contains_key(key)
            &&& after.state == TcpState::LastAck
            &&& after.snd_nxt == (before.snd_nxt + wire.len() + 1) % 0x1_0000_0000
            &&& after.rcv_nxt == before.rcv_nxt
            &&& t.out.len() == s.out.len() + 1
            &&& t.out.drop_last() == s.out
            &&& is_reply(
                t.out.last(),
                s.guest_mac,
                s.ip,
                s.port,
                client,
                port,
                before.snd_nxt as int,
                before.rcv_nxt as int,
                0x19,
                0xFFFF,
                wire,
            )
        }),
{
    let key = conn_key(client, port);
    let conn = s.conns[key];
    let wire = http::response_wire(status, body);
    sent_is_reply(
        EndpointView {
            conns: s.conns.insert(
                key,
                ConnView {
                    state: TcpState::LastAck,
                    snd_nxt: seq_add(conn.snd_nxt, wire.len() as int + 1),
                    ..conn
                },
            ),
            ..s
        },
        tcp::tcp_built(s.port, port, conn.snd_nxt, conn.rcv_nxt, FLAGS_RESPONSE, WINDOW),
        client,
        wire,
    );
}

/// A client that closes is answered with FIN and ACK that acknowledge the close; the
/// connection then waits for the last acknowledgement.
pub proof fn closes_are_answered(s: EndpointView, client: [u8; 4], port: u16)
    requires
        s.conns.contains_key(conn_key(client, port)),
    ensures
        ({
            let key = conn_key(client, port);
            let before = s.conns[key];
            let t = fin_taken(s, client, port);
            let after = t.conns[key];
            let next = (before.rcv_nxt + 1) % 0x1_0000_0000;
            &&& t.conns.contains_key(key)
            &&& after.state == TcpState::LastAck
            &&& after.snd_nxt == (before.snd_nxt + 1) % 0x1_0000_0000
            &&& after.rcv_nxt == next
            &&& t.out.len() == s.out.len() + 1
            &&& t.out.drop_last() == s.out
            &&& is_reply(
                t.out.last(),
                s.guest_mac,
                s.ip,
                s.port,
                client,
                port,
                before.snd_nxt as int,
                next,
                0x11,
                0xFFFF,
                Seq::empty(),
            )
        }),
{
    let key = conn_key(client, port);
    let conn = s.conns[key];
    let rcv_nxt = seq_add(conn.rcv_nxt, 1);
    sent_is_reply(
        EndpointView {
            conns: s.conns.insert(
                key,
                ConnView {
                    state: TcpState::LastAck,
                    snd_nxt: seq_add(conn.snd_nxt, 1),
                    rcv_nxt,
                    ..conn
                },
            ),
            ..s
        },
        tcp::tcp_built(s.port, port, conn.snd_nxt, rcv_nxt, FLAGS_FIN_ACK, WINDOW),
        client,
        Seq::empty(),
    );
}

/// Segments without data on a known connection: an acknowledgement of all that was sent
/// opens a connection that waits for it and ends one that is closing; a close of an open
/// connection is answered; everything else changes nothing. Data that come with the
/// acknowledgement that opens a connection are taken as on an open one.
pub proof fn segments_without_data(
    s: EndpointView,
    client: [u8; 4],
    header: TcpHeader,
    payload: Seq<u8>,
)
    requires
        s.conns.contains_key(conn_key(client, header.src_port)),
        header.flags & 4 == 0,
        header.flags & 2 == 0 || header.flags & 16 != 0,
    ensures
        ({
            let key = conn_key(client, header.src_port);
            let conn = s.conns[key];
            let acked = header.flags & 16 != 0 && header.ack == conn.snd_nxt;
            let step = segment_step(s, client, header, payload);
            let open = EndpointView {
                conns: s.conns.insert(key, ConnView { state: TcpState::Established, ..conn }),
                ..s
            };
            &&& payload.len() == 0 && conn.state == TcpState::SynReceived ==> step
                == StepView::Rest(
                if acked {
                    open
                } else {
                    s
                },
            )
            &&& payload.len() == 0 && conn.state == TcpState::Established ==> step
                == StepView::Rest(
                if header.flags & 1 != 0 {
                    fin_taken(s, client, header.src_port)
                } else {
                    s
                },
            )
            &&& conn.state == TcpState::LastAck && (payload.len() == 0 || header.seq
                == conn.rcv_nxt) ==> (step matches StepView::Rest(t) && t.out == s.out && (acked
                ==> !t.conns.contains_key(key)) && (!acked ==> t == s))
            &&& conn.state == TcpState::SynReceived && payload.len() > 0 && header.seq
                == conn.rcv_nxt && !acked ==> step == StepView::Rest(s)
            &&& conn.state == TcpState::SynReceived && payload.len() > 0 && header.seq
                == conn.rcv_nxt && acked ==> step == data_step(
                open,
                client,
                header.src_port,
                payload,
                false,
            )
        }),
{
}

/// A packet that carries a segment is handled with the sender's hardware address noted; a
/// connection request in it, with or without options, is answered.
pub proof fn packets_are_handled(s: EndpointView, mac: [u8; 6], p: Seq<u8>)
    requires
        p.len() >= 40,
        carries_segment(p, s.ip, s.port),
    ensures
        packet_step(s, mac, p) matches Some((seg, step)) && {
            &&& step == segment_step(
                EndpointView { guest_mac: Some(mac), ..s },
                seg.client,
                seg.header,
                seg.payload,
            )
            &&& p[33] & 2 != 0 && p[33] & 16 == 0 && p[33] & 4 == 0 ==> (step
                matches StepView::Rest(t) && t.out.len() == s.out.len() + 1 && t.out.last().dst_mac
                == mac && is_reply(
                t.out.last(),
                Some(mac),
                s.ip,
                s.port,
                seg.client,
                seg.header.src_port,
                s.next_iss as int,
                (((p[24] * 256 + p[25]) * 256 + p[26]) * 256 + p[27] + 1) % 0x1_0000_0000,
                0x12,
                0xFFFF,
                Seq::empty(),
            ))
        },
{
    reveal(packet_step);
    segments_to_the_endpoint_are_taken(p, s.ip, s.port);
    let seg = segment_in(p, s.ip, s.port)->0;
    let f = p[33];
    assert(f % 64 & 2 == f & 2 && f % 64 & 16 == f & 16 && f % 64 & 4 == f & 4) by (bit_vector);
    if p[33] & 2 != 0 && p[33] & 16 == 0 && p[33] & 4 == 0 {
        connection_requests_are_answered(
            EndpointView { guest_mac: Some(mac), ..s },
            seg.client,
            seg.header,
            seg.payload,
        );
    }
}

/// Packets are numbered one after the other, starting over at the end, and each carries its
/// number in its fifth and sixth byte.
pub proof fn packets_are_numbered_in_turn(
    s: EndpointView,
    header: TcpHeader,
    to: [u8; 4],
    payload: Seq<u8>,
)
    requires
        payload.len() + 40 <= u16::MAX,
    ensures
        ({
            let t = sent(s, header, to, payload);
            let packet = t.out.last().payload;
            &&& s.ip_id < 0xFFFF ==> t.ip_id == s.ip_id + 1
            &&& s.ip_id == 0xFFFF ==> t.ip_id == 0
            &&& packet.len() >= 20
            &&& packet[4] * 256 + packet[5] == t.ip_id
        }),
{
    reveal(packet_of);
    let t = sent(s, header, to, payload);
    let segment = tcp::tcp_wire(header, s.ip, to, payload);
    ipv4::built_headers_are_right(
        s.ip,
        to,
        IpProtocol::Tcp,
        tcp::segment_len(segment.len() as int),
        t.ip_id,
    );
}

} // verus!
