//! The host side of virtio-vsock: routing guest packets to host-initiated streams,
//! opening and closing streams, and the credit accounting of both directions.
//!
//! A stream is known by the pair of its host and guest ports. Everything that
//! waits (accepting sockets, reading and writing bytes, timeouts) is the caller's:
//! the functions here take what happened and say what is to be done.

use std::collections::BTreeMap;
use vstd::prelude::*;
use vstd::string::*;

use crate::paths::{self, is_dots, part_start, trimmed_len, DOT, SEPARATOR};
use crate::text::{self, push_decimal, utf8_text};
use crate::wire::push_bytes;

verus! {

/// The well-known context id of the host.
pub const VMADDR_CID_HOST: u64 = 2;

/// The only socket type in use: a byte stream.
pub const TYPE_STREAM: u16 = 1;

/// Credit that the host advertises to the guest on every stream.
pub const DEFAULT_BUF_ALLOC: u32 = 1_048_576;

/// Most bytes that one host read turns into one packet.
pub const RW_CHUNK_BYTES: usize = 4096;

/// First port handed out to a host-initiated stream.
pub const FIRST_HOST_PORT: u32 = 1024;

/// Both directions closed, as the flags of a `Shutdown` packet.
pub const SHUTDOWN_BOTH: u32 = 3;

/// Longest `CONNECT` line that is read before the client is given up.
pub const PREAMBLE_LIMIT: usize = 64;

/// What a vsock packet asks for.
#[derive(Clone, Copy, Debug, PartialEq, Eq, Structural)]
pub enum VsockOp {
    Invalid,
    Request,
    Response,
    Rst,
    Shutdown,
    Rw,
    CreditUpdate,
    CreditRequest,
}

/// The header of a vsock packet.
#[derive(Clone, Copy, Debug, PartialEq, Eq, Structural)]
pub struct VsockHeader {
    pub src_cid: u64,
    pub dst_cid: u64,
    pub src_port: u32,
    pub dst_port: u32,
    pub len: u32,
    pub type_: u16,
    pub op: VsockOp,
    pub flags: u32,
    pub buf_alloc: u32,
    pub fwd_cnt: u32,
}

/// A vsock packet: header and payload.
#[derive(Clone, Debug)]
pub struct VsockPacket {
    pub hdr: VsockHeader,
    pub payload: Vec<u8>,
}

/// The contents of a packet.
#[verifier::ext_equal]
pub struct PacketView {
    pub hdr: VsockHeader,
    pub payload: Seq<u8>,
}

impl View for VsockPacket {
    type V = PacketView;

    open spec fn view(&self) -> PacketView {
        PacketView { hdr: self.hdr, payload: self.payload@ }
    }
}

/// The contents of each packet of a sequence.
pub open spec fn packets(s: Seq<VsockPacket>) -> Seq<PacketView> {
    Seq::new(s.len(), |i: int| s[i]@)
}

/// One open stream: what each side has advertised and forwarded.
#[derive(Clone, Copy, Debug, PartialEq, Eq, Structural)]
pub struct Connection {
    /// The guest has not accepted the stream yet.
    pub awaiting_response: bool,
    /// Receive buffer that the guest last advertised.
    pub guest_buf_alloc: u32,
    /// Bytes that the guest last said it has consumed.
    pub guest_fwd_cnt: u32,
    /// Bytes sent to the guest so far.
    pub host_forwarded: u32,
    /// Bytes of the guest handed to the host client so far.
    pub guest_rx_forwarded: u32,
    /// The host client no longer takes bytes.
    pub closed: bool,
}

/// The key of a stream in the routing table.
pub open spec fn stream_key(host_port: u32, guest_port: u32) -> u64 {
    (host_port * 0x1_0000_0000 + guest_port) as u64
}

/// Two streams with one key have the same ports.
pub proof fn stream_key_injective(h1: u32, g1: u32, h2: u32, g2: u32)
    ensures
        stream_key(h1, g1) == stream_key(h2, g2) <==> h1 == h2 && g1 == g2,
{
}

/// The state of the muxer.
#[verifier::ext_equal]
pub struct MuxerView {
    pub guest_cid: u64,
    pub next_host_port: u32,
    /// Packets waiting for the guest, oldest first.
    pub rx: Seq<PacketView>,
    pub connections: Map<u64, Connection>,
}

/// What the caller is to do after a guest packet.
#[verifier::ext_equal]
pub struct TxView {
    /// Packets to hand to the guest at once.
    pub replies: Seq<PacketView>,
    /// Bytes to hand to the host client of the packet's stream.
    pub forward: Option<Seq<u8>>,
    /// Tell whoever opened the stream that the guest accepted it.
    pub accepted: bool,
    /// Wake the reader of the stream: its credit may have grown.
    pub wake_reader: bool,
    /// Packets were queued for the guest.
    pub rx_ready: bool,
    /// The stream is gone: drop the host client's side of it.
    pub dropped: bool,
}

/// A header from the host to the guest on a stream.
pub open spec fn host_header(
    guest_cid: u64,
    host_port: u32,
    guest_port: u32,
    op: VsockOp,
    len: u32,
    flags: u32,
    buf_alloc: u32,
    fwd_cnt: u32,
) -> VsockHeader {
    VsockHeader {
        src_cid: VMADDR_CID_HOST,
        dst_cid: guest_cid,
        src_port: host_port,
        dst_port: guest_port,
        len,
        type_: TYPE_STREAM,
        op,
        flags,
        buf_alloc,
        fwd_cnt,
    }
}

/// A packet without payload.
pub open spec fn bare(hdr: VsockHeader) -> PacketView {
    PacketView { hdr, payload: Seq::empty() }
}

/// The credit packet that tells the guest how much the host has consumed.
pub open spec fn credit_packet(guest_cid: u64, host_port: u32, guest_port: u32, fwd: u32) -> PacketView {
    bare(
        host_header(
            guest_cid,
            host_port,
            guest_port,
            VsockOp::CreditUpdate,
            0,
            0,
            DEFAULT_BUF_ALLOC,
            fwd,
        ),
    )
}

/// A counter advanced by `n`, stopping at the largest value.
pub open spec fn advance(counter: u32, n: int) -> u32 {
    if counter + n > u32::MAX {
        u32::MAX
    } else {
        (counter + n) as u32
    }
}

/// The stream with the guest's credit brought up to date.
pub open spec fn refreshed(c: Connection, hdr: VsockHeader) -> Connection {
    Connection { guest_buf_alloc: hdr.buf_alloc, guest_fwd_cnt: hdr.fwd_cnt, ..c }
}

/// Nothing is to be done.
pub open spec fn idle() -> TxView {
    TxView {
        replies: Seq::empty(),
        forward: None,
        accepted: false,
        wake_reader: false,
        rx_ready: false,
        dropped: false,
    }
}

/// What a guest packet does to the muxer, and what it asks of the caller.
pub open spec fn tx_step(s: MuxerView, pkt: PacketView) -> (MuxerView, TxView) {
    let hdr = pkt.hdr;
    let host_port = hdr.dst_port;
    let guest_port = hdr.src_port;
    let key = stream_key(host_port, guest_port);
    let known = s.connections.contains_key(key);
    let conn = s.connections[key];
    match hdr.op {
        // The guest may not open streams: its request is refused at once.
        VsockOp::Request => (
            s,
            TxView {
                replies: seq![
                    bare(host_header(s.guest_cid, host_port, guest_port, VsockOp::Rst, 0, 0, 0, 0)),
                ],
                ..idle()
            },
        ),
        VsockOp::Response => if known {
            (
                MuxerView {
                    connections: s.connections.insert(
                        key,
                        Connection { awaiting_response: false, ..refreshed(conn, hdr) },
                    ),
                    ..s
                },
                TxView { accepted: conn.awaiting_response, wake_reader: true, ..idle() },
            )
        } else {
            (s, idle())
        },
        // Payload is forwarded, counted, and answered with the running count.
        VsockOp::Rw => if known && !conn.closed {
            let fwd = advance(conn.guest_rx_forwarded, pkt.payload.len() as int);
            (
                MuxerView {
                    connections: s.connections.insert(
                        key,
                        Connection { guest_rx_forwarded: fwd, ..refreshed(conn, hdr) },
                    ),
                    rx: s.rx.push(credit_packet(s.guest_cid, host_port, guest_port, fwd)),
                    ..s
                },
                TxView {
                    forward: Some(pkt.payload),
                    wake_reader: true,
                    rx_ready: true,
                    ..idle()
                },
            )
        } else {
            (s, idle())
        },
        VsockOp::Shutdown | VsockOp::Rst => (
            MuxerView { connections: s.connections.remove(key), ..s },
            TxView { dropped: known, ..idle() },
        ),
        VsockOp::CreditUpdate => if known {
            (
                MuxerView { connections: s.connections.insert(key, refreshed(conn, hdr)), ..s },
                TxView { wake_reader: true, ..idle() },
            )
        } else {
            (s, idle())
        },
        VsockOp::CreditRequest => if known {
            (
                MuxerView {
                    connections: s.connections.insert(key, refreshed(conn, hdr)),
                    rx: s.rx.push(
                        credit_packet(s.guest_cid, host_port, guest_port, conn.guest_rx_forwarded),
                    ),
                    ..s
                },
                TxView { wake_reader: true, rx_ready: true, ..idle() },
            )
        } else {
            (s, idle())
        },
        VsockOp::Invalid => (s, idle()),
    }
}

/// Bytes that the guest can still take: its buffer less what is on the way to it.
pub open spec fn credit(c: Connection) -> int {
    let outstanding = (c.host_forwarded - c.guest_fwd_cnt) % 0x1_0000_0000;
    if outstanding >= c.guest_buf_alloc {
        0
    } else {
        c.guest_buf_alloc - outstanding
    }
}

/// What the caller is to do after a guest packet.
#[derive(Debug)]
pub struct TxActions {
    pub replies: Vec<VsockPacket>,
    pub forward: Option<Vec<u8>>,
    pub accepted: bool,
    pub wake_reader: bool,
    pub rx_ready: bool,
    pub dropped: bool,
}

impl View for TxActions {
    type V = TxView;

    open spec fn view(&self) -> TxView {
        TxView {
            replies: packets(self.replies@),
            forward: match self.forward {
                Some(v) => Some(v@),
                None => None,
            },
            accepted: self.accepted,
            wake_reader: self.wake_reader,
            rx_ready: self.rx_ready,
            dropped: self.dropped,
        }
    }
}

impl TxActions {
    fn idle() -> (a: TxActions)
        ensures
            a@ == idle(),
    {
        let a = TxActions {
            replies: Vec::new(),
            forward: None,
            accepted: false,
            wake_reader: false,
            rx_ready: false,
            dropped: false,
        };
        assert(a@ =~= idle());
        a
    }
}

/// Routes vsock packets between the guest and host-initiated streams.
#[derive(Debug)]
pub struct UdsVsockMuxer {
    guest_cid: u64,
    next_host_port: u32,
    rx_queue: Vec<VsockPacket>,
    connections: BTreeMap<u64, Connection>,
}

impl View for UdsVsockMuxer {
    type V = MuxerView;

    closed spec fn view(&self) -> MuxerView {
        MuxerView {
            guest_cid: self.guest_cid,
            next_host_port: self.next_host_port,
            rx: packets(self.rx_queue@),
            connections: self.connections@,
        }
    }
}

fn pack_key(host_port: u32, guest_port: u32) -> (k: u64)
    ensures
        k == stream_key(host_port, guest_port),
{
    host_port as u64 * 0x1_0000_0000 + guest_port as u64
}

fn bare_packet(
    guest_cid: u64,
    host_port: u32,
    guest_port: u32,
    op: VsockOp,
    flags: u32,
    buf_alloc: u32,
    fwd_cnt: u32,
) -> (p: VsockPacket)
    ensures
        p@ == bare(
            host_header(guest_cid, host_port, guest_port, op, 0, flags, buf_alloc, fwd_cnt),
        ),
{
    let p = VsockPacket {
        hdr: VsockHeader {
            src_cid: VMADDR_CID_HOST,
            dst_cid: guest_cid,
            src_port: host_port,
            dst_port: guest_port,
            len: 0,
            type_: TYPE_STREAM,
            op,
            flags,
            buf_alloc,
            fwd_cnt,
        },
        payload: Vec::new(),
    };
    assert(p@.payload =~= Seq::<u8>::empty());
    p
}

impl UdsVsockMuxer {
    /// A muxer without streams for the guest with context id `guest_cid`.
    pub fn new(guest_cid: u64) -> (m: Self)
        ensures
            m@ == (MuxerView {
                guest_cid,
                next_host_port: FIRST_HOST_PORT,
                rx: Seq::empty(),
                connections: Map::empty(),
            }),
            m@.next_host_port == 1024,
    {
        let m = UdsVsockMuxer {
            guest_cid,
            next_host_port: FIRST_HOST_PORT,
            rx_queue: Vec::new(),
            connections: BTreeMap::new(),
        };
        assert(m@.rx =~= Seq::<PacketView>::empty());
        m
    }

    fn push_rx(&mut self, pkt: VsockPacket)
        ensures
            final(self)@ == (MuxerView { rx: old(self)@.rx.push(pkt@), ..old(self)@ }),
    {
        self.rx_queue.push(pkt);
        assert(self@.rx =~= old(self)@.rx.push(pkt@));
    }

    fn lookup(&self, key: u64) -> (r: Option<Connection>)
        ensures
            match r {
                Some(c) => self@.connections.contains_key(key) && c == self@.connections[key],
                None => !self@.connections.contains_key(key),
            },
    {
        match self.connections.get(&key) {
            Some(c) => Some(*c),
            None => None,
        }
    }

    fn store(&mut self, key: u64, c: Connection)
        ensures
            final(self)@ == (MuxerView {
                connections: old(self)@.connections.insert(key, c),
                ..old(self)@
            }),
    {
        let _ = self.connections.insert(key, c);
    }

    fn forget(&mut self, key: u64) -> (known: bool)
        ensures
            known == old(self)@.connections.contains_key(key),
            final(self)@ == (MuxerView {
                connections: old(self)@.connections.remove(key),
                ..old(self)@
            }),
    {
        match self.connections.remove(&key) {
            Some(_) => true,
            None => false,
        }
    }

    /// Takes one packet of the guest.
    pub fn handle_tx(&mut self, pkt: VsockPacket) -> (a: TxActions)
        ensures
            (final(self)@, a@) == tx_step(old(self)@, pkt@),
    {
        let hdr = pkt.hdr;
        let host_port: u32 = hdr.dst_port;
        let guest_port: u32 = hdr.src_port;
        let key: u64 = pack_key(host_port, guest_port);
        let mut a = TxActions::idle();
        match hdr.op {
            VsockOp::Request => {
                let rst = bare_packet(self.guest_cid, host_port, guest_port, VsockOp::Rst, 0, 0, 0);
                a.replies.push(rst);
                assert(a@ =~= tx_step(old(self)@, pkt@).1);
            },
            VsockOp::Response => {
                if let Some(conn) = self.lookup(key) {
                    self.store(
                        key,
                        Connection {
                            awaiting_response: false,
                            guest_buf_alloc: hdr.buf_alloc,
                            guest_fwd_cnt: hdr.fwd_cnt,
                            ..conn
                        },
                    );
                    a.accepted = conn.awaiting_response;
                    a.wake_reader = true;
                }
            },
            VsockOp::Rw => {
                if let Some(conn) = self.lookup(key) {
                    if conn.closed {
                        return a;
                    }
                    let len: u32 = if pkt.payload.len() > u32::MAX as usize {
                        u32::MAX
                    } else {
                        pkt.payload.len() as u32
                    };
                    let fwd: u32 = conn.guest_rx_forwarded.saturating_add(len);
                    self.store(
                        key,
                        Connection {
                            guest_rx_forwarded: fwd,
                            guest_buf_alloc: hdr.buf_alloc,
                            guest_fwd_cnt: hdr.fwd_cnt,
                            ..conn
                        },
                    );
                    let credit = bare_packet(
                        self.guest_cid,
                        host_port,
                        guest_port,
                        VsockOp::CreditUpdate,
                        0,
                        DEFAULT_BUF_ALLOC,
                        fwd,
                    );
                    self.push_rx(credit);
                    a.forward = Some(pkt.payload);
                    a.wake_reader = true;
                    a.rx_ready = true;
                }
            },
            VsockOp::Shutdown | VsockOp::Rst => {
                a.dropped = self.forget(key);
            },
            VsockOp::CreditUpdate | VsockOp::CreditRequest => {
                if let Some(conn) = self.lookup(key) {
                    self.store(
                        key,
                        Connection {
                            guest_buf_alloc: hdr.buf_alloc,
                            guest_fwd_cnt: hdr.fwd_cnt,
                            ..conn
                        },
                    );
                    if hdr.op == VsockOp::CreditRequest {
                        let credit = bare_packet(
                            self.guest_cid,
                            host_port,
                            guest_port,
                            VsockOp::CreditUpdate,
                            0,
                            DEFAULT_BUF_ALLOC,
                            conn.guest_rx_forwarded,
                        );
                        self.push_rx(credit);
                        a.rx_ready = true;
                    }
                    a.wake_reader = true;
                }
            },
            VsockOp::Invalid => {},
        }
        a
    }

    /// Hands over the packets queued for the guest, oldest first.
    pub fn drain_rx(&mut self) -> (pkts: Vec<VsockPacket>)
        ensures
            packets(pkts@) == old(self)@.rx,
            final(self)@ == (MuxerView { rx: Seq::empty(), ..old(self)@ }),
    {
        let mut pkts: Vec<VsockPacket> = Vec::new();
        std::mem::swap(&mut pkts, &mut self.rx_queue);
        assert(self@.rx =~= Seq::<PacketView>::empty());
        pkts
    }

    /// Opens a stream to `guest_port` for a host client: takes the next host port
    /// and queues the request for the guest.
    pub fn open_stream(&mut self, guest_port: u32) -> (host_port: u32)
        ensures
            host_port == old(self)@.next_host_port,
            final(self)@ == opened(old(self)@, guest_port),
    {
        let host_port: u32 = self.next_host_port;
        self.next_host_port = host_port.wrapping_add(1);
        self.store(
            pack_key(host_port, guest_port),
            Connection {
                awaiting_response: true,
                guest_buf_alloc: 0,
                guest_fwd_cnt: 0,
                host_forwarded: 0,
                guest_rx_forwarded: 0,
                closed: false,
            },
        );
        let req = bare_packet(
            self.guest_cid,
            host_port,
            guest_port,
            VsockOp::Request,
            0,
            DEFAULT_BUF_ALLOC,
            0,
        );
        self.push_rx(req);
        host_port
    }

    /// Forgets a stream that the guest did not accept.
    pub fn refuse(&mut self, host_port: u32, guest_port: u32)
        ensures
            final(self)@ == closed_stream(old(self)@, host_port, guest_port),
    {
        let _ = self.forget(pack_key(host_port, guest_port));
    }

    /// Notes that the host client of a stream no longer takes bytes.
    pub fn client_gone(&mut self, host_port: u32, guest_port: u32)
        ensures
            final(self)@ == gone(old(self)@, stream_key(host_port, guest_port)),
    {
        let key: u64 = pack_key(host_port, guest_port);
        if let Some(conn) = self.lookup(key) {
            self.store(key, Connection { closed: true, ..conn });
        }
    }

    /// How many bytes the guest can still take on a stream; `None` once the stream
    /// is closed or gone.
    pub fn credit_bytes(&self, host_port: u32, guest_port: u32) -> (r: Option<u32>)
        ensures
            match r {
                Some(n) => is_live(self@, stream_key(host_port, guest_port)) && n == credit(
                    self@.connections[stream_key(host_port, guest_port)],
                ),
                None => !is_live(self@, stream_key(host_port, guest_port)),
            },
    {
        match self.lookup(pack_key(host_port, guest_port)) {
            Some(conn) => {
                if conn.closed {
                    None
                } else {
                    let outstanding: u32 = conn.host_forwarded.wrapping_sub(conn.guest_fwd_cnt);
                    Some(conn.guest_buf_alloc.saturating_sub(outstanding))
                }
            },
            None => None,
        }
    }

    /// Sends bytes of the host client to the guest. Gives `false`, and does nothing,
    /// once the stream is closed or gone.
    pub fn client_data(&mut self, host_port: u32, guest_port: u32, payload: Vec<u8>) -> (sent: bool)
        requires
            payload@.len() <= RW_CHUNK_BYTES,
        ensures
            sent == is_live(old(self)@, stream_key(host_port, guest_port)),
            final(self)@ == if sent {
                data_sent(old(self)@, host_port, guest_port, payload@)
            } else {
                old(self)@
            },
    {
        let key: u64 = pack_key(host_port, guest_port);
        match self.lookup(key) {
            Some(conn) => {
                if conn.closed {
                    return false;
                }
                let n: u32 = payload.len() as u32;
                self.store(
                    key,
                    Connection { host_forwarded: conn.host_forwarded.saturating_add(n), ..conn },
                );
                let rw = VsockPacket {
                    hdr: VsockHeader {
                        src_cid: VMADDR_CID_HOST,
                        dst_cid: self.guest_cid,
                        src_port: host_port,
                        dst_port: guest_port,
                        len: n,
                        type_: TYPE_STREAM,
                        op: VsockOp::Rw,
                        flags: 0,
                        buf_alloc: DEFAULT_BUF_ALLOC,
                        fwd_cnt: conn.guest_rx_forwarded,
                    },
                    payload,
                };
                self.push_rx(rw);
                true
            },
            None => false,
        }
    }

    /// The host client closed its side: tells the guest and forgets the stream.
    pub fn client_closed(&mut self, host_port: u32, guest_port: u32)
        ensures
            final(self)@ == shut_down(old(self)@, host_port, guest_port),
    {
        let key: u64 = pack_key(host_port, guest_port);
        let fwd_cnt: u32 = match self.lookup(key) {
            Some(conn) => conn.guest_rx_forwarded,
            None => 0,
        };
        let shutdown = bare_packet(
            self.guest_cid,
            host_port,
            guest_port,
            VsockOp::Shutdown,
            SHUTDOWN_BOTH,
            DEFAULT_BUF_ALLOC,
            fwd_cnt,
        );
        self.push_rx(shutdown);
        let _ = self.forget(key);
    }
}

/// The stream is open and its host client takes bytes.
pub open spec fn is_live(s: MuxerView, key: u64) -> bool {
    s.connections.contains_key(key) && !s.connections[key].closed
}

/// A stream that the guest has not answered yet.
pub open spec fn fresh_connection() -> Connection {
    Connection {
        awaiting_response: true,
        guest_buf_alloc: 0,
        guest_fwd_cnt: 0,
        host_forwarded: 0,
        guest_rx_forwarded: 0,
        closed: false,
    }
}

/// The muxer after a stream to `guest_port` was opened.
pub open spec fn opened(s: MuxerView, guest_port: u32) -> MuxerView {
    let host_port = s.next_host_port;
    MuxerView {
        guest_cid: s.guest_cid,
        next_host_port: ((host_port + 1) % 0x1_0000_0000) as u32,
        rx: s.rx.push(
            bare(
                host_header(
                    s.guest_cid,
                    host_port,
                    guest_port,
                    VsockOp::Request,
                    0,
                    0,
                    DEFAULT_BUF_ALLOC,
                    0,
                ),
            ),
        ),
        connections: s.connections.insert(stream_key(host_port, guest_port), fresh_connection()),
    }
}

/// The line that tells the host client how opening its stream went.
pub open spec fn open_line(host_port: u32, guest_port: u32, accepted: bool) -> Seq<char> {
    if accepted {
        "OK "@ + text::decimal(host_port as nat) + "\n"@
    } else {
        "RST "@ + text::decimal(guest_port as nat) + "\n"@
    }
}

/// Writes the line that tells the host client how opening its stream went.
pub fn open_reply(host_port: u32, guest_port: u32, accepted: bool) -> (line: String)
    ensures
        line@ == open_line(host_port, guest_port, accepted),
{
    let mut line = String::new();
    if accepted {
        line.append("OK ");
        push_decimal(&mut line, host_port as u64);
    } else {
        line.append("RST ");
        push_decimal(&mut line, guest_port as u64);
    }
    line.append("\n");
    assert(line@ =~= open_line(host_port, guest_port, accepted));
    line
}

/// The muxer without the stream.
pub open spec fn closed_stream(s: MuxerView, host_port: u32, guest_port: u32) -> MuxerView {
    MuxerView { connections: s.connections.remove(stream_key(host_port, guest_port)), ..s }
}

/// The muxer after the host client of a stream stopped taking bytes.
pub open spec fn gone(s: MuxerView, key: u64) -> MuxerView {
    if s.connections.contains_key(key) {
        MuxerView {
            connections: s.connections.insert(
                key,
                Connection { closed: true, ..s.connections[key] },
            ),
            ..s
        }
    } else {
        s
    }
}

/// The muxer after `payload` was sent to the guest on a live stream.
pub open spec fn data_sent(s: MuxerView, host_port: u32, guest_port: u32, payload: Seq<u8>) -> MuxerView {
    let key = stream_key(host_port, guest_port);
    let conn = s.connections[key];
    MuxerView {
        connections: s.connections.insert(
            key,
            Connection { host_forwarded: advance(conn.host_forwarded, payload.len() as int), ..conn },
        ),
        rx: s.rx.push(
            PacketView {
                hdr: host_header(
                    s.guest_cid,
                    host_port,
                    guest_port,
                    VsockOp::Rw,
                    payload.len() as u32,
                    0,
                    DEFAULT_BUF_ALLOC,
                    conn.guest_rx_forwarded,
                ),
                payload,
            },
        ),
        ..s
    }
}

/// The muxer after the host client closed its side of a stream.
pub open spec fn shut_down(s: MuxerView, host_port: u32, guest_port: u32) -> MuxerView {
    let key = stream_key(host_port, guest_port);
    let fwd = if s.connections.contains_key(key) {
        s.connections[key].guest_rx_forwarded
    } else {
        0
    };
    MuxerView {
        connections: s.connections.remove(key),
        rx: s.rx.push(
            bare(
                host_header(
                    s.guest_cid,
                    host_port,
                    guest_port,
                    VsockOp::Shutdown,
                    0,
                    SHUTDOWN_BOTH,
                    DEFAULT_BUF_ALLOC,
                    fwd,
                ),
            ),
        ),
        ..s
    }
}

/// How many bytes to read from the host client when the guest can take `window`:
/// no more than one packet carries, and never nothing.
pub fn read_chunk(window: u32) -> (n: usize)
    ensures
        n == chunk_of(window as int),
{
    let mut n: usize = RW_CHUNK_BYTES;
    if (window as usize) < n {
        n = window as usize;
    }
    if n < 1 {
        n = 1;
    }
    n
}

/// The size of a read under a credit window.
pub open spec fn chunk_of(window: int) -> int {
    if window >= RW_CHUNK_BYTES {
        RW_CHUNK_BYTES as int
    } else if window >= 1 {
        window
    } else {
        1
    }
}

/// The socket for `port` beside the base path: `<base>_<port>`. A base without a file
/// name in UTF-8 stands for `vsock.sock`, one without a parent for the current
/// directory.
pub open spec fn port_path(base: Seq<u8>, port: u32) -> Seq<u8> {
    let name = match paths::file_name(base) {
        Some(n) if vstd::utf8::valid_utf8(n) => n,
        _ => "vsock.sock".spec_bytes(),
    };
    let dir = match paths::parent(base) {
        Some(d) => d,
        None => seq![DOT],
    };
    paths::joined(dir, name + vstd::utf8::encode_utf8("_"@ + text::decimal(port as nat)))
}

/// Derives the path of the socket for `port`.
pub fn derive_port_path(base: &[u8], port: u32) -> (path: Vec<u8>)
    ensures
        path@ == port_path(base@, port),
{
    let end: usize = trimmed_len(base);
    let start: usize = part_start(base, end);
    let name: &[u8] = vstd::slice::slice_subrange(base, start, end);
    let mut path: Vec<u8> = Vec::new();
    let ghost t = paths::trimmed(base@);
    assert(name@ =~= paths::last_part(base@));
    if start < end {
        let dir: &[u8] = vstd::slice::slice_subrange(base, 0, start);
        assert(dir@ =~= t.subrange(0, paths::last_part_start(t)));
        let dir_end: usize = trimmed_len(dir);
        push_bytes(&mut path, vstd::slice::slice_subrange(dir, 0, dir_end));
        assert(path@ =~= paths::trimmed(dir@));
    } else {
        path.push(DOT);
        assert(path@ =~= seq![DOT]);
    }
    if path.len() > 0 && path[path.len() - 1] != SEPARATOR {
        path.push(SEPARATOR);
    }
    let ghost dir_part = path@;
    let mut suffix = String::new();
    suffix.append("_");
    push_decimal(&mut suffix, port as u64);
    assert(suffix@ =~= "_"@ + text::decimal(port as nat));
    if start < end && !is_dots(name) && utf8_text(name).is_some() {
        push_bytes(&mut path, name);
    } else {
        push_bytes(&mut path, "vsock.sock".as_bytes());
    }
    push_bytes(&mut path, suffix.as_str().as_bytes());
    assert(path@ =~= port_path(base@, port));
    path
}

/// What became of the `CONNECT` line after one more byte.
#[derive(Clone, Copy, Debug, PartialEq, Eq, Structural)]
pub enum PreambleStep {
    /// More bytes are to be read.
    More,
    /// The line is complete.
    Done,
    /// The line is too long: give the client up.
    TooLong,
}

/// The state of the line `line` (its last byte being the newest).
pub open spec fn preamble_step(line: Seq<u8>) -> PreambleStep {
    if line.last() == 10 {
        PreambleStep::Done
    } else if line.len() > PREAMBLE_LIMIT {
        PreambleStep::TooLong
    } else {
        PreambleStep::More
    }
}

/// The `CONNECT <port>` line that a host client sends first.
#[derive(Debug)]
pub struct Preamble {
    line: Vec<u8>,
}

impl View for Preamble {
    type V = Seq<u8>;

    closed spec fn view(&self) -> Seq<u8> {
        self.line@
    }
}

impl Preamble {
    /// Nothing read yet.
    pub fn new() -> (p: Self)
        ensures
            p@ == Seq::<u8>::empty(),
    {
        Preamble { line: Vec::new() }
    }

    /// Takes the next byte of the client.
    pub fn push(&mut self, byte: u8) -> (step: PreambleStep)
        ensures
            final(self)@ == old(self)@.push(byte),
            step == preamble_step(final(self)@),
    {
        self.line.push(byte);
        if byte == 10 {
            PreambleStep::Done
        } else if self.line.len() > PREAMBLE_LIMIT {
            PreambleStep::TooLong
        } else {
            PreambleStep::More
        }
    }
}

/// A request of the guest is answered with one reset whose ports are swapped, and
/// leaves the muxer as it was.
pub proof fn guest_request_is_refused(s: MuxerView, pkt: PacketView)
    requires
        pkt.hdr.op == VsockOp::Request,
    ensures
        tx_step(s, pkt).0 == s,
        tx_step(s, pkt).1.replies.len() == 1,
        tx_step(s, pkt).1.replies[0].hdr.op == VsockOp::Rst,
        tx_step(s, pkt).1.replies[0].hdr.src_port == pkt.hdr.dst_port,
        tx_step(s, pkt).1.replies[0].hdr.dst_port == pkt.hdr.src_port,
        tx_step(s, pkt).1.replies[0].hdr.dst_cid == s.guest_cid,
{
}

/// A guest packet touches only the stream that its ports name.
pub proof fn tx_keeps_other_streams(s: MuxerView, pkt: PacketView, other: u64)
    requires
        other != stream_key(pkt.hdr.dst_port, pkt.hdr.src_port),
    ensures
        tx_step(s, pkt).0.connections.contains_key(other) == s.connections.contains_key(other),
        s.connections.contains_key(other) ==> tx_step(s, pkt).0.connections[other]
            == s.connections[other],
{
}

/// A guest packet never opens a stream, never takes back a queued packet and never
/// moves the port counter.
pub proof fn tx_opens_nothing(s: MuxerView, pkt: PacketView, key: u64)
    ensures
        tx_step(s, pkt).0.connections.contains_key(key) ==> s.connections.contains_key(key),
        tx_step(s, pkt).0.next_host_port == s.next_host_port,
        tx_step(s, pkt).0.guest_cid == s.guest_cid,
        s.rx.is_prefix_of(tx_step(s, pkt).0.rx),
{
}

/// The acceptance of a stream is reported once: after the guest's first answer
/// a second one reports nothing.
pub proof fn acceptance_is_reported_once(s: MuxerView, first: PacketView, second: PacketView)
    requires
        first.hdr.op == VsockOp::Response,
        second.hdr.op == VsockOp::Response,
        first.hdr.src_port == second.hdr.src_port,
        first.hdr.dst_port == second.hdr.dst_port,
    ensures
        !tx_step(tx_step(s, first).0, second).1.accepted,
{
}

/// The count that the host advertises after a payload packet is the count before
/// plus the payload's length (up to the largest count), and it never goes back.
pub proof fn advertised_count_is_cumulative(s: MuxerView, pkt: PacketView)
    requires
        pkt.hdr.op == VsockOp::Rw,
        is_live(s, stream_key(pkt.hdr.dst_port, pkt.hdr.src_port)),
    ensures
        ({
            let before = s.connections[stream_key(
                pkt.hdr.dst_port,
                pkt.hdr.src_port,
            )].guest_rx_forwarded;
            let sent = tx_step(s, pkt).0.rx.last().hdr;
            &&& sent.op == VsockOp::CreditUpdate
            &&& sent.fwd_cnt >= before
            &&& before + pkt.payload.len() <= u32::MAX ==> sent.fwd_cnt == before
                + pkt.payload.len()
        }),
{
}

/// A read that fits the credit window never puts more bytes on the way to the guest
/// than its buffer holds, as long as the byte counter has not reached its end.
pub proof fn window_is_respected(c: Connection, n: int)
    requires
        0 <= n <= chunk_of(credit(c)),
        credit(c) > 0,
        c.host_forwarded + n <= u32::MAX,
    ensures
        ({
            let after = Connection { host_forwarded: advance(c.host_forwarded, n), ..c };
            (after.host_forwarded - after.guest_fwd_cnt) % 0x1_0000_0000 <= after.guest_buf_alloc
        }),
{
    let outstanding = (c.host_forwarded - c.guest_fwd_cnt) % 0x1_0000_0000;
    assert(outstanding + n <= c.guest_buf_alloc);
}

/// Opening a stream uses up its host port and leaves the stream waiting for the
/// guest's answer.
pub proof fn opening_takes_a_new_port(s: MuxerView, guest_port: u32)
    ensures
        opened(s, guest_port).next_host_port != s.next_host_port,
        opened(s, guest_port).connections.contains_key(
            stream_key(s.next_host_port, guest_port),
        ),
        opened(s, guest_port).connections[stream_key(s.next_host_port, guest_port)]
            == fresh_connection(),
{
}

/// A packet that closes a stream, of either kind, removes it: the table no longer has it,
/// the caller is told to drop the client's side exactly if the stream was there, and nothing
/// else happens.
pub proof fn closing_packets_end_the_stream(s: MuxerView, pkt: PacketView)
    requires
        pkt.hdr.op == VsockOp::Shutdown || pkt.hdr.op == VsockOp::Rst,
    ensures
        ({
            let key = stream_key(pkt.hdr.dst_port, pkt.hdr.src_port);
            let (t, a) = tx_step(s, pkt);
            &&& !t.connections.contains_key(key)
            &&& a.dropped == s.connections.contains_key(key)
            &&& t.rx == s.rx
            &&& a.replies.len() == 0
            &&& a.forward is None
            &&& !a.accepted && !a.wake_reader && !a.rx_ready
        }),
{
}

/// The answer of the guest to an opened stream ends the wait for it, is reported if it was
/// waited for, and brings the guest's buffer and count, which free the reader. No byte count
/// of the stream changes, and it stays open.
pub proof fn answer_opens_the_stream(s: MuxerView, pkt: PacketView)
    requires
        pkt.hdr.op == VsockOp::Response,
        s.connections.contains_key(stream_key(pkt.hdr.dst_port, pkt.hdr.src_port)),
    ensures
        ({
            let key = stream_key(pkt.hdr.dst_port, pkt.hdr.src_port);
            let (t, a) = tx_step(s, pkt);
            let before = s.connections[key];
            let after = t.connections[key];
            &&& t.connections.contains_key(key)
            &&& !after.awaiting_response
            &&& a.accepted == before.awaiting_response
            &&& after.guest_buf_alloc == pkt.hdr.buf_alloc
            &&& after.guest_fwd_cnt == pkt.hdr.fwd_cnt
            &&& after.host_forwarded == before.host_forwarded
            &&& after.guest_rx_forwarded == before.guest_rx_forwarded
            &&& after.closed == before.closed
            &&& a.wake_reader
            &&& !a.dropped && !a.rx_ready && a.forward is None && a.replies.len() == 0
            &&& t.rx == s.rx
        }),
{
}

/// Payload on a live stream is handed to the client unchanged, is counted, and is answered
/// with one credit packet on the same stream; the stream stays as it was otherwise, but for
/// the guest's buffer and count.
pub proof fn payload_reaches_the_client(s: MuxerView, pkt: PacketView)
    requires
        pkt.hdr.op == VsockOp::Rw,
        s.connections.contains_key(stream_key(pkt.hdr.dst_port, pkt.hdr.src_port)),
        !s.connections[stream_key(pkt.hdr.dst_port, pkt.hdr.src_port)].closed,
    ensures
        ({
            let key = stream_key(pkt.hdr.dst_port, pkt.hdr.src_port);
            let (t, a) = tx_step(s, pkt);
            let before = s.connections[key];
            let after = t.connections[key];
            let sent = t.rx.last();
            &&& a.forward == Some(pkt.payload)
            &&& a.wake_reader && a.rx_ready
            &&& !a.dropped && !a.accepted && a.replies.len() == 0
            &&& t.connections.contains_key(key)
            &&& after.guest_buf_alloc == pkt.hdr.buf_alloc
            &&& after.guest_fwd_cnt == pkt.hdr.fwd_cnt
            &&& after.host_forwarded == before.host_forwarded
            &&& after.awaiting_response == before.awaiting_response
            &&& !after.closed
            &&& before.guest_rx_forwarded + pkt.payload.len() <= u32::MAX
                ==> after.guest_rx_forwarded == before.guest_rx_forwarded + pkt.payload.len()
            &&& before.guest_rx_forwarded + pkt.payload.len() > u32::MAX
                ==> after.guest_rx_forwarded == u32::MAX
            &&& t.rx.len() == s.rx.len() + 1
            &&& t.rx.drop_last() == s.rx
            &&& sent.hdr.op == VsockOp::CreditUpdate
            &&& sent.hdr.src_port == pkt.hdr.dst_port
            &&& sent.hdr.dst_port == pkt.hdr.src_port
            &&& sent.hdr.src_cid == 2
            &&& sent.hdr.dst_cid == s.guest_cid
            &&& sent.hdr.type_ == 1
            &&& sent.hdr.buf_alloc == 1_048_576
            &&& sent.hdr.fwd_cnt == after.guest_rx_forwarded
            &&& sent.hdr.flags == 0
            &&& sent.hdr.len == 0 && sent.payload.len() == 0
        }),
{
    assert(tx_step(s, pkt).0.rx.drop_last() =~= s.rx);
}

/// News of the guest's credit replace what was known of it and free the reader. Asked for
/// the host's own, the host answers with its running count; the stream is otherwise as it
/// was.
pub proof fn credit_is_exchanged(s: MuxerView, pkt: PacketView)
    requires
        pkt.hdr.op == VsockOp::CreditUpdate || pkt.hdr.op == VsockOp::CreditRequest,
        s.connections.contains_key(stream_key(pkt.hdr.dst_port, pkt.hdr.src_port)),
    ensures
        ({
            let key = stream_key(pkt.hdr.dst_port, pkt.hdr.src_port);
            let (t, a) = tx_step(s, pkt);
            let before = s.connections[key];
            let after = t.connections[key];
            let asked = pkt.hdr.op == VsockOp::CreditRequest;
            let sent = t.rx.last();
            &&& t.connections.contains_key(key)
            &&& after.guest_buf_alloc == pkt.hdr.buf_alloc
            &&& after.guest_fwd_cnt == pkt.hdr.fwd_cnt
            &&& after.host_forwarded == before.host_forwarded
            &&& after.guest_rx_forwarded == before.guest_rx_forwarded
            &&& after.awaiting_response == before.awaiting_response
            &&& after.closed == before.closed
            &&& a.wake_reader
            &&& a.rx_ready == asked
            &&& !a.dropped && !a.accepted && a.forward is None && a.replies.len() == 0
            &&& !asked ==> t.rx == s.rx
            &&& asked ==> {
                &&& t.rx.len() == s.rx.len() + 1
                &&& t.rx.drop_last() == s.rx
                &&& sent.hdr.op == VsockOp::CreditUpdate
                &&& sent.hdr.src_port == pkt.hdr.dst_port
                &&& sent.hdr.dst_port == pkt.hdr.src_port
                &&& sent.hdr.src_cid == 2
                &&& sent.hdr.dst_cid == s.guest_cid
                &&& sent.hdr.type_ == 1
                &&& sent.hdr.buf_alloc == 1_048_576
                &&& sent.hdr.fwd_cnt == before.guest_rx_forwarded
                &&& sent.hdr.flags == 0
                &&& sent.hdr.len == 0 && sent.payload.len() == 0
            }
        }),
{
    if pkt.hdr.op == VsockOp::CreditRequest {
        assert(tx_step(s, pkt).0.rx.drop_last() =~= s.rx);
    }
}

/// A packet on a stream that is not in the table, payload for a client that is gone, and a
/// packet of no known kind change nothing and ask for nothing, unless they ask to open a
/// stream.
pub proof fn stray_packets_do_nothing(s: MuxerView, pkt: PacketView)
    requires
        pkt.hdr.op != VsockOp::Request,
        ({
            let key = stream_key(pkt.hdr.dst_port, pkt.hdr.src_port);
            ||| !s.connections.contains_key(key)
            ||| pkt.hdr.op == VsockOp::Rw && s.connections[key].closed
            ||| pkt.hdr.op == VsockOp::Invalid
        }),
    ensures
        tx_step(s, pkt).0 == s,
        ({
            let a = tx_step(s, pkt).1;
            &&& a.replies.len() == 0
            &&& a.forward is None
            &&& !a.accepted && !a.wake_reader && !a.rx_ready && !a.dropped
        }),
{
    let key = stream_key(pkt.hdr.dst_port, pkt.hdr.src_port);
    if !s.connections.contains_key(key) {
        assert(s.connections.remove(key) =~= s.connections);
    }
}

/// The refusal of a guest's request is a bare packet from the host without credit, and is
/// all that happens.
pub proof fn refusal_is_bare(s: MuxerView, pkt: PacketView)
    requires
        pkt.hdr.op == VsockOp::Request,
    ensures
        ({
            let a = tx_step(s, pkt).1;
            let r = a.replies[0];
            &&& a.replies.len() == 1
            &&& r.hdr.src_cid == 2 && r.hdr.type_ == 1
            &&& r.hdr.len == 0 && r.payload.len() == 0
            &&& r.hdr.flags == 0 && r.hdr.buf_alloc == 0 && r.hdr.fwd_cnt == 0
            &&& a.forward is None
            &&& !a.accepted && !a.wake_reader && !a.rx_ready && !a.dropped
        }),
{
}

/// The guest can take its buffer less what is on the way to it, and no less than nothing:
/// what was sent less what it consumed, both counted around the end of the number space.
pub proof fn credit_is_buffer_less_outstanding(c: Connection)
    ensures
        c.host_forwarded >= c.guest_fwd_cnt ==> {
            let on_the_way = c.host_forwarded - c.guest_fwd_cnt;
            &&& on_the_way <= c.guest_buf_alloc ==> credit(c) == c.guest_buf_alloc - on_the_way
            &&& on_the_way > c.guest_buf_alloc ==> credit(c) == 0
        },
        c.host_forwarded < c.guest_fwd_cnt ==> {
            let on_the_way = 0x1_0000_0000 - (c.guest_fwd_cnt - c.host_forwarded);
            &&& on_the_way <= c.guest_buf_alloc ==> credit(c) == c.guest_buf_alloc - on_the_way
            &&& on_the_way > c.guest_buf_alloc ==> credit(c) == 0
        },
{
}

/// Opening a stream asks the guest for it, from the host's next port and with the host's
/// credit, and gives out consecutive ports around the end of the number space.
pub proof fn opening_asks_the_guest(s: MuxerView, guest_port: u32)
    ensures
        ({
            let t = opened(s, guest_port);
            let sent = t.rx.last();
            let c = t.connections[stream_key(s.next_host_port, guest_port)];
            &&& s.next_host_port < u32::MAX ==> t.next_host_port == s.next_host_port + 1
            &&& s.next_host_port == u32::MAX ==> t.next_host_port == 0
            &&& t.guest_cid == s.guest_cid
            &&& t.rx.len() == s.rx.len() + 1
            &&& t.rx.drop_last() == s.rx
            &&& sent.hdr.op == VsockOp::Request
            &&& sent.hdr.src_port == s.next_host_port
            &&& sent.hdr.dst_port == guest_port
            &&& sent.hdr.src_cid == 2
            &&& sent.hdr.dst_cid == s.guest_cid
            &&& sent.hdr.type_ == 1
            &&& sent.hdr.buf_alloc == 1_048_576
            &&& sent.hdr.fwd_cnt == 0 && sent.hdr.flags == 0
            &&& sent.hdr.len == 0 && sent.payload.len() == 0
            &&& c.awaiting_response && !c.closed
            &&& c.guest_buf_alloc == 0 && c.guest_fwd_cnt == 0
            &&& c.host_forwarded == 0 && c.guest_rx_forwarded == 0
            &&& forall|k: u64|
                k != stream_key(s.next_host_port, guest_port) ==> (
                #[trigger] t.connections.contains_key(k) == s.connections.contains_key(k)) && (
                s.connections.contains_key(k) ==> t.connections[k] == s.connections[k])
        }),
{
    assert(opened(s, guest_port).rx.drop_last() =~= s.rx);
}

/// Bytes of the client go to the guest unchanged in one packet on the stream, with their
/// number and the host's running count of what it took; they are counted as on the way.
pub proof fn client_bytes_go_to_the_guest(
    s: MuxerView,
    host_port: u32,
    guest_port: u32,
    payload: Seq<u8>,
)
    requires
        s.connections.contains_key(stream_key(host_port, guest_port)),
        payload.len() <= u32::MAX,
    ensures
        ({
            let key = stream_key(host_port, guest_port);
            let t = data_sent(s, host_port, guest_port, payload);
            let before = s.connections[key];
            let after = t.connections[key];
            let sent = t.rx.last();
            &&& t.guest_cid == s.guest_cid && t.next_host_port == s.next_host_port
            &&& t.rx.len() == s.rx.len() + 1
            &&& t.rx.drop_last() == s.rx
            &&& sent.payload == payload
            &&& sent.hdr.len == payload.len()
            &&& sent.hdr.op == VsockOp::Rw
            &&& sent.hdr.src_port == host_port && sent.hdr.dst_port == guest_port
            &&& sent.hdr.src_cid == 2 && sent.hdr.dst_cid == s.guest_cid
            &&& sent.hdr.type_ == 1 && sent.hdr.flags == 0
            &&& sent.hdr.buf_alloc == 1_048_576
            &&& sent.hdr.fwd_cnt == before.guest_rx_forwarded
            &&& before.host_forwarded + payload.len() <= u32::MAX ==> after.host_forwarded
                == before.host_forwarded + payload.len()
            &&& before.host_forwarded + payload.len() > u32::MAX ==> after.host_forwarded
                == u32::MAX
            &&& after.guest_buf_alloc == before.guest_buf_alloc
            &&& after.guest_fwd_cnt == before.guest_fwd_cnt
            &&& after.guest_rx_forwarded == before.guest_rx_forwarded
            &&& after.awaiting_response == before.awaiting_response
            &&& after.closed == before.closed
            &&& forall|k: u64|
                k != key ==> (#[trigger] t.connections.contains_key(k)
                    == s.connections.contains_key(k)) && (s.connections.contains_key(k)
                    ==> t.connections[k] == s.connections[k])
        }),
{
    assert(data_sent(s, host_port, guest_port, payload).rx.drop_last() =~= s.rx);
}

/// A client that closes its side ends the stream: the guest is told that both directions
/// are closed, with the running count, and the stream is forgotten, as is one that the guest
/// did not accept. Other streams stay.
pub proof fn client_close_ends_the_stream(s: MuxerView, host_port: u32, guest_port: u32)
    ensures
        ({
            let key = stream_key(host_port, guest_port);
            let t = shut_down(s, host_port, guest_port);
            let u = closed_stream(s, host_port, guest_port);
            let sent = t.rx.last();
            &&& !t.connections.contains_key(key) && !u.connections.contains_key(key)
            &&& t.guest_cid == s.guest_cid && t.next_host_port == s.next_host_port
            &&& u.guest_cid == s.guest_cid && u.next_host_port == s.next_host_port
            &&& u.rx == s.rx
            &&& t.rx.len() == s.rx.len() + 1
            &&& t.rx.drop_last() == s.rx
            &&& sent.hdr.op == VsockOp::Shutdown && sent.hdr.flags == 3
            &&& sent.hdr.src_port == host_port && sent.hdr.dst_port == guest_port
            &&& sent.hdr.src_cid == 2 && sent.hdr.dst_cid == s.guest_cid
            &&& sent.hdr.type_ == 1 && sent.hdr.buf_alloc == 1_048_576
            &&& sent.hdr.len == 0 && sent.payload.len() == 0
            &&& s.connections.contains_key(key) ==> sent.hdr.fwd_cnt
                == s.connections[key].guest_rx_forwarded
            &&& !s.connections.contains_key(key) ==> sent.hdr.fwd_cnt == 0
            &&& forall|k: u64|
                k != key && #[trigger] s.connections.contains_key(k) ==> t.connections.contains_key(
                    k,
                ) && t.connections[k] == s.connections[k] && u.connections.contains_key(k)
                    && u.connections[k] == s.connections[k]
        }),
{
    assert(shut_down(s, host_port, guest_port).rx.drop_last() =~= s.rx);
}

/// Once the client of a stream is gone, the stream is no longer live but stays known with
/// its counts; nothing else changes.
pub proof fn a_gone_client_takes_no_bytes(s: MuxerView, key: u64)
    ensures
        ({
            let t = gone(s, key);
            &&& !is_live(t, key)
            &&& t.rx == s.rx && t.guest_cid == s.guest_cid && t.next_host_port == s.next_host_port
            &&& forall|k: u64| #[trigger]
                t.connections.contains_key(k) == s.connections.contains_key(k)
            &&& forall|k: u64|
                k != key && #[trigger] s.connections.contains_key(k) ==> t.connections[k]
                    == s.connections[k]
            &&& s.connections.contains_key(key) ==> {
                let before = s.connections[key];
                let after = t.connections[key];
                &&& after.closed
                &&& after.awaiting_response == before.awaiting_response
                &&& after.guest_buf_alloc == before.guest_buf_alloc
                &&& after.guest_fwd_cnt == before.guest_fwd_cnt
                &&& after.host_forwarded == before.host_forwarded
                &&& after.guest_rx_forwarded == before.guest_rx_forwarded
            }
        }),
{
}

/// A read from the client asks for what the guest can take, but for at least one byte and
/// for no more than one packet of 4096 bytes.
pub proof fn reads_are_bounded(window: int)
    ensures
        1 <= chunk_of(window) <= 4096,
        1 <= window <= 4096 ==> chunk_of(window) == window,
        window > 4096 ==> chunk_of(window) == 4096,
        window < 1 ==> chunk_of(window) == 1,
{
}

/// The line of a client is complete at its first line feed and not before; one without a
/// line feed in 65 bytes is given up.
pub proof fn preamble_ends_at_the_line_feed(line: Seq<u8>)
    requires
        line.len() > 0,
    ensures
        preamble_step(line) == PreambleStep::Done <==> line[line.len() - 1] == 10,
        preamble_step(line) == PreambleStep::TooLong <==> line[line.len() - 1] != 10 && line.len()
            >= 65,
{
}

/// The socket of a port lies beside the base path, and is named after it: an underscore and
/// the port in decimal are put behind the whole path.
pub proof fn ports_are_named_after_the_base(dir: Seq<u8>, name: Seq<u8>, port: u32)
    requires
        name.len() > 0,
        name.last() != 46,
        forall|i: int| 0 <= i < name.len() ==> #[trigger] name[i] != 47,
        vstd::utf8::valid_utf8(name),
        dir.len() > 0 ==> dir.last() != 47 && dir.last() != 46,
    ensures
        ({
            let suffix = vstd::utf8::encode_utf8("_"@ + text::decimal(port as nat));
            &&& port_path(name, port) == name + suffix
            &&& dir.len() > 0 ==> port_path(dir.push(47) + name, port) == dir.push(47) + name
                + suffix
            &&& port_path(seq![47u8] + name, port) == seq![47u8] + name + suffix
        }),
{
    let suffix = vstd::utf8::encode_utf8("_"@ + text::decimal(port as nat));
    let none = Seq::<u8>::empty();
    paths::paths_are_split_at_the_last_separator(none, name);
    assert(none + name =~= name);
    assert(none + (name + suffix) =~= name + suffix);
    paths::paths_are_split_at_the_last_separator(seq![47u8], name);
    assert(paths::trimmed(seq![47u8]) == seq![47u8]);
    assert(seq![47u8] + (name + suffix) =~= seq![47u8] + name + suffix);
    if dir.len() > 0 {
        paths::paths_are_split_at_the_last_separator(dir.push(47), name);
        paths::ends_do_not_count(dir);
        assert(dir.push(47) + (name + suffix) =~= dir.push(47) + name + suffix);
    }
}

/// The line for a client begins with `OK` and its own port if the stream is open, with `RST`
/// and the port of the guest if it was refused, and ends with a line feed.
pub proof fn lines_tell_how_it_went(host_port: u32, guest_port: u32)
    ensures
        ({
            let ok = open_line(host_port, guest_port, true);
            let rst = open_line(host_port, guest_port, false);
            &&& ok.take(3) == seq!['O', 'K', ' ']
            &&& ok.last() == '\n'
            &&& ok.subrange(3, ok.len() - 1) == text::decimal(host_port as nat)
            &&& rst.take(4) == seq!['R', 'S', 'T', ' ']
            &&& rst.last() == '\n'
            &&& rst.subrange(4, rst.len() - 1) == text::decimal(guest_port as nat)
        }),
{
    reveal_strlit("OK ");
    reveal_strlit("RST ");
    reveal_strlit("\n");
    let ok = open_line(host_port, guest_port, true);
    let rst = open_line(host_port, guest_port, false);
    assert(ok.take(3) =~= seq!['O', 'K', ' ']);
    assert(ok.subrange(3, ok.len() - 1) =~= text::decimal(host_port as nat));
    assert(rst.take(4) =~= seq!['R', 'S', 'T', ' ']);
    assert(rst.subrange(4, rst.len() - 1) =~= text::decimal(guest_port as nat));
}

/// A base that names no file stands for `vsock.sock` beside where it leads; an empty one for
/// that in the current directory.
pub proof fn bases_without_a_name(dir: Seq<u8>, port: u32)
    requires
        dir.len() == 0 || dir.last() == 47,
    ensures
        ({
            let name = "vsock.sock".spec_bytes() + vstd::utf8::encode_utf8(
                "_"@ + text::decimal(port as nat),
            );
            &&& port_path(dir + seq![46u8, 46u8], port) == paths::joined(paths::trimmed(dir), name)
            &&& port_path(Seq::empty(), port) == seq![46u8, 47u8] + name
        }),
{
    paths::some_paths_name_no_file(dir);
    assert(seq![DOT].push(47) =~= seq![46u8, 47u8]);
}

} // verus!
