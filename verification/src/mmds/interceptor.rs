//! The seam between the guest's network device and the metadata service: picks out the
//! frames for the service and answers them.

use vstd::prelude::*;
use vstd::string::*;
use vstd::utf8::*;

use crate::mmds::data_store::{self, Mmds, MmdsVersion};
use crate::mmds::http::{self, HttpRequest, HttpResponse};
use crate::mmds::json::{self, json_to_vec};
use crate::mmds::pdu::{
    self, build_arp_reply_frame, ArpPacket, EthernetHeader, ARP_OP_REQUEST, ETHERTYPE_ARP,
    ETHERTYPE_IPV4, ETHER_HDR_LEN,
};
use crate::mmds::tcp::{self, same_ip, FrameOutcome, OutboundFrame, PendingRequest, TcpEndpoint};
use crate::mmds::token::{self, ttl_allowed, TokenStore};
use crate::wire::{self, push_bytes};

verus! {

/// The port that the service listens on.
pub const HTTP_PORT: u16 = 80;

/// Longest path of a request, in bytes.
pub const MAX_HTTP_PATH_BYTES: usize = 1024;

/// Longest token in a request, in bytes.
pub const MAX_TOKEN_HEADER_BYTES: usize = 256;

/// The protocol number of TCP.
pub const IP_PROTO_TCP: u8 = 6;

/// The hardware address of the service.
pub open spec fn service_mac() -> [u8; 6] {
    [0x06, 0x01, 0x23, 0x45, 0x67, 0x01]
}

/// The address of the service unless another is configured.
pub open spec fn default_ip() -> [u8; 4] {
    [169, 254, 169, 254]
}

/// The hardware address of the service.
pub fn mmds_synthetic_mac() -> (m: [u8; 6])
    ensures
        m == service_mac(),
        m[0] == 0x06 && m[1] == 0x01 && m[2] == 0x23 && m[3] == 0x45 && m[4] == 0x67 && m[5]
            == 0x01,
{
    [0x06, 0x01, 0x23, 0x45, 0x67, 0x01]
}

/// The address of the service unless another is configured.
pub fn mmds_default_ipv4() -> (ip: [u8; 4])
    ensures
        ip == default_ip(),
        ip[0] == 169 && ip[1] == 254 && ip[2] == 169 && ip[3] == 254,
{
    [169, 254, 169, 254]
}

/// Whether every byte of a path is printable ASCII and none is a backslash.
pub open spec fn path_ok(path: Seq<char>) -> bool {
    forall|i: int|
        0 <= i < encode_utf8(path).len() ==> 0x20 <= #[trigger] encode_utf8(path)[i] < 0x7F
            && encode_utf8(path)[i] != 0x5C
}

/// Whether every byte of a path is printable ASCII and none is a backslash.
pub fn path_charset_ok(path: &str) -> (b: bool)
    ensures
        b == path_ok(path@),
{
    let bytes: &[u8] = path.as_bytes();
    let mut i: usize = 0;
    while i < bytes.len()
        invariant
            i <= bytes@.len(),
            bytes@ == encode_utf8(path@),
            forall|k: int|
                0 <= k < i ==> 0x20 <= #[trigger] encode_utf8(path@)[k] < 0x7F && encode_utf8(
                    path@,
                )[k] != 0x5C,
        decreases bytes@.len() - i,
    {
        let b: u8 = bytes[i];
        if b < 0x20 || b >= 0x7F || b == 0x5C {
            assert(encode_utf8(path@)[i as int] == b);
            return false;
        }
        i = i + 1;
    }
    true
}

/// The frame that carries a packet to the guest.
pub open spec fn ethernet_frame(src_mac: [u8; 6], f: tcp::FrameView) -> Seq<u8> {
    pdu::eth_bytes(EthernetHeader { dst: f.dst_mac, src: src_mac, ethertype: ETHERTYPE_IPV4 })
        + f.payload
}

/// Puts an Ethernet header before a packet for the guest.
pub fn wrap_in_ethernet(src_mac: [u8; 6], frame: &OutboundFrame) -> (out: Vec<u8>)
    ensures
        out@ == ethernet_frame(src_mac, frame@),
{
    let eth = EthernetHeader { dst: frame.dst_mac, src: src_mac, ethertype: ETHERTYPE_IPV4 };
    let mut out: Vec<u8> = Vec::new();
    push_bytes(&mut out, eth.to_bytes().as_slice());
    push_bytes(&mut out, frame.eth_payload.as_slice());
    assert(out@ =~= ethernet_frame(src_mac, frame@));
    out
}

/// What serving a request gives: a status, a body, and the tokens that are left.
#[verifier::ext_equal]
pub struct Service {
    pub status: u16,
    pub body: Seq<u8>,
    pub tokens: Seq<(Seq<char>, u64)>,
}

/// Whether a request asks for a session token.
pub open spec fn asks_for_token(req: http::RequestView) -> bool {
    req.method == "PUT"@ && req.path == "/latest/api/token"@
}

/// How a request is served. `entropy` are the random bytes for a token, `now` is the time
/// of the token store's clock.
pub open spec fn service_of(
    m: data_store::MmdsView,
    tokens: Seq<(Seq<char>, u64)>,
    req: http::RequestView,
    entropy: Result<[u8; 32], String>,
    now: u64,
) -> Service {
    let answer = |status: u16, body: Seq<u8>| Service { status, body, tokens };
    if encode_utf8(req.path).len() > MAX_HTTP_PATH_BYTES {
        answer(414, "request path too long".spec_bytes())
    } else if !path_ok(req.path) {
        answer(400, "path contains disallowed control or NUL bytes".spec_bytes())
    } else if req.body.len() > m.size_cap {
        answer(413, "request body exceeds MMDS size cap".spec_bytes())
    } else if asks_for_token(req) {
        match req.ttl {
            None => answer(400, "missing X-aws-ec2-metadata-token-ttl-seconds".spec_bytes()),
            Some(ttl) => if token::ttl_ok(ttl) && entropy is Ok {
                let t = token::base64url(entropy->Ok_0@);
                Service {
                    status: 200,
                    body: encode_utf8(t),
                    tokens: token::without(tokens, t).push((t, token::end_of(now, ttl))),
                }
            } else {
                answer(400, "invalid TTL".spec_bytes())
            },
        }
    } else if req.method == "GET"@ {
        let presented = req.token is Some && encode_utf8(req.token->0).len()
            <= MAX_TOKEN_HEADER_BYTES;
        let checked = m.version == MmdsVersion::V2 && presented;
        let allowed = m.version != MmdsVersion::V2 || (presented && token::is_valid(
            tokens,
            req.token->0,
            now,
        ));
        let left = if checked {
            token::live(tokens, now)
        } else {
            tokens
        };
        if !allowed {
            Service {
                status: 401,
                body: "missing or invalid token".spec_bytes(),
                tokens: left,
            }
        } else {
            match data_store::tree_at(m.tree, req.path) {
                Some(t) => Service {
                    status: 200,
                    body: encode_utf8(json::json_text(t)),
                    tokens: left,
                },
                None => Service { status: 404, body: "not found".spec_bytes(), tokens: left },
            }
        }
    } else {
        answer(405, "method not allowed".spec_bytes())
    }
}

/// Whether random bytes are needed to serve a request: it asks for a token, and nothing but
/// a lack of them stands against that.
pub open spec fn needs_random(m: data_store::MmdsView, req: http::RequestView) -> bool {
    asks_for_token(req) && req.body.len() <= m.size_cap && (req.ttl matches Some(ttl)
        && token::ttl_ok(ttl))
}

/// Random bytes have no part in serving a request that does not need them.
pub proof fn random_bytes_count_for_tokens_only(
    m: data_store::MmdsView,
    tokens: Seq<(Seq<char>, u64)>,
    req: http::RequestView,
    a: Result<[u8; 32], String>,
    b: Result<[u8; 32], String>,
    now: u64,
)
    requires
        !needs_random(m, req),
    ensures
        service_of(m, tokens, req, a, now) == service_of(m, tokens, req, b, now),
{
}

fn is_token_request(req: &HttpRequest) -> (b: bool)
    ensures
        b == asks_for_token(req@),
{
    req.method == String::from_str("PUT") && req.path == String::from_str("/latest/api/token")
}

fn random_needed(mmds: &Mmds, req: &HttpRequest) -> (b: bool)
    ensures
        b == needs_random(mmds@, req@),
{
    is_token_request(req) && req.body.len() <= mmds.size_cap() && match req.ttl_header {
        Some(ttl) => ttl_allowed(ttl),
        None => false,
    }
}

/// Serves a request from the data and the token store.
pub fn service_http_request(
    mmds: &Mmds,
    tokens: &mut TokenStore,
    req: &HttpRequest,
    entropy: Result<[u8; 32], String>,
    now: u64,
) -> (r: (u16, Vec<u8>))
    ensures
        (Service { status: r.0, body: r.1@, tokens: final(tokens)@ }) == service_of(
            mmds@,
            old(tokens)@,
            req@,
            entropy,
            now,
        ),
{
    if req.path.as_str().as_bytes().len() > MAX_HTTP_PATH_BYTES {
        return (414, "request path too long".as_bytes_vec());
    }
    if !path_charset_ok(req.path.as_str()) {
        return (400, "path contains disallowed control or NUL bytes".as_bytes_vec());
    }
    if req.body.len() > mmds.size_cap() {
        return (413, "request body exceeds MMDS size cap".as_bytes_vec());
    }
    if is_token_request(req) {
        let ttl: u32 = match req.ttl_header {
            Some(ttl) => ttl,
            None => {
                return (400, "missing X-aws-ec2-metadata-token-ttl-seconds".as_bytes_vec());
            },
        };
        return match tokens.issue_at(ttl, entropy, now) {
            Ok(t) => (200, t.as_str().as_bytes_vec()),
            Err(_) => (400, "invalid TTL".as_bytes_vec()),
        };
    }
    if req.method == String::from_str("GET") {
        if mmds.version() == MmdsVersion::V2 {
            let allowed: bool = match &req.token_header {
                Some(tok) => {
                    if tok.as_str().as_bytes().len() <= MAX_TOKEN_HEADER_BYTES {
                        tokens.validate_at(tok.as_str(), now)
                    } else {
                        false
                    }
                },
                None => false,
            };
            if !allowed {
                return (401, "missing or invalid token".as_bytes_vec());
            }
        }
        return match mmds.get_at_pointer(req.path.as_str()) {
            Ok(v) => match json_to_vec(&v) {
                Ok(body) => (200, body),
                Err(_) => (
                    500,
                    "{\"fault_message\":\"internal serializer failure\"}".as_bytes_vec(),
                ),
            },
            Err(_) => (404, "not found".as_bytes_vec()),
        };
    }
    (405, "method not allowed".as_bytes_vec())
}

/// A request made of its parts.
pub open spec fn direct_request(
    method: &str,
    path: &str,
    token_header: Option<&str>,
    ttl_header: Option<u32>,
    body: Seq<u8>,
) -> http::RequestView {
    http::RequestView {
        method: method@,
        path: path@,
        token: match token_header {
            Some(t) => Some(t@),
            None => None,
        },
        ttl: ttl_header,
        body,
    }
}

/// The state of the interceptor.
#[verifier::ext_equal]
pub struct InterceptorView {
    pub mmds: data_store::MmdsView,
    pub tokens: Seq<(Seq<char>, u64)>,
    pub endpoint: tcp::EndpointView,
    /// Frames for the guest, oldest first.
    pub pending: Seq<Seq<u8>>,
}

/// The frames that the endpoint has for the guest, with their Ethernet headers.
pub open spec fn wrapped(out: Seq<tcp::FrameView>) -> Seq<Seq<u8>> {
    Seq::new(out.len(), |i: int| ethernet_frame(service_mac(), out[i]))
}

/// The interceptor after it took the frames of the endpoint over.
pub open spec fn flushed(v: InterceptorView) -> InterceptorView {
    InterceptorView {
        endpoint: tcp::EndpointView { out: Seq::empty(), ..v.endpoint },
        pending: v.pending + wrapped(v.endpoint.out),
        ..v
    }
}

/// The interceptor after the endpoint took a packet, and served the request in it, if it
/// completed one.
pub open spec fn packet_taken(
    v: InterceptorView,
    mac: [u8; 6],
    packet: Seq<u8>,
    entropy: Result<[u8; 32], String>,
    now: u64,
) -> InterceptorView {
    match tcp::packet_step(v.endpoint, mac, packet) {
        None => v,
        Some((_, tcp::StepView::Rest(t))) => InterceptorView { endpoint: t, ..v },
        Some((seg, tcp::StepView::Serve { state, request, fin })) => {
            let s = service_of(v.mmds, v.tokens, request, entropy, now);
            InterceptorView {
                tokens: s.tokens,
                endpoint: tcp::served(
                    state,
                    seg.client,
                    seg.header.src_port,
                    fin,
                    s.status,
                    s.body,
                ),
                ..v
            }
        },
    }
}

/// The interceptor after it answered a request that waited.
pub open spec fn answered(
    v: InterceptorView,
    p: PendingRequest,
    entropy: Result<[u8; 32], String>,
    now: u64,
) -> InterceptorView {
    let s = service_of(v.mmds, v.tokens, p.request@, entropy, now);
    InterceptorView {
        tokens: s.tokens,
        endpoint: tcp::served(v.endpoint, p.client, p.port, p.fin, s.status, s.body),
        ..v
    }
}

/// Whether a frame asks for the hardware address of `ip`.
pub open spec fn is_arp_for(frame: Seq<u8>, ip: [u8; 4]) -> bool {
    &&& pdu::eth_parsed(frame) matches Ok(eth)
    &&& eth.ethertype == ETHERTYPE_ARP
    &&& pdu::arp_parsed(frame.skip(ETHER_HDR_LEN as int)) matches Ok(arp)
    &&& arp.op == ARP_OP_REQUEST
    &&& arp.target_ip == ip
}

/// Whether a frame carries an IPv4 packet to `ip`.
pub open spec fn is_packet_to(frame: Seq<u8>, ip: [u8; 4]) -> bool {
    let b = frame.skip(ETHER_HDR_LEN as int);
    &&& pdu::eth_parsed(frame) matches Ok(eth)
    &&& eth.ethertype == ETHERTYPE_IPV4
    &&& b.len() >= 20
    &&& ip[0] == b[16]
    &&& ip[1] == b[17]
    &&& ip[2] == b[18]
    &&& ip[3] == b[19]
}

/// Whether a frame carries a TCP packet to `ip`.
pub open spec fn carries_tcp_to(frame: Seq<u8>, ip: [u8; 4]) -> bool {
    is_packet_to(frame, ip) && frame[ETHER_HDR_LEN + 9] == IP_PROTO_TCP
}

/// The request that a frame of the guest completes, if it does.
pub open spec fn request_in(v: InterceptorView, frame: Seq<u8>) -> Option<http::RequestView> {
    let eth = pdu::eth_parsed(frame)->Ok_0;
    if !carries_tcp_to(frame, v.endpoint.ip) {
        None
    } else {
        match tcp::packet_step(v.endpoint, eth.src, frame.skip(ETHER_HDR_LEN as int)) {
            Some((_, tcp::StepView::Serve { request, .. })) => Some(request),
            _ => None,
        }
    }
}

/// Whether a frame of the guest completes a request that needs random bytes.
pub open spec fn random_wanted(v: InterceptorView, frame: Seq<u8>) -> bool {
    request_in(v, frame) matches Some(req) && needs_random(v.mmds, req)
}

/// Whether a frame is for the service: it must not reach the host's network.
pub open spec fn is_for_service(frame: Seq<u8>, ip: [u8; 4]) -> bool {
    is_arp_for(frame, ip) || is_packet_to(frame, ip)
}

/// What a frame of the guest does to the interceptor.
pub open spec fn intercept_step(
    v: InterceptorView,
    frame: Seq<u8>,
    entropy: Result<[u8; 32], String>,
    now: u64,
) -> InterceptorView {
    let body = frame.skip(ETHER_HDR_LEN as int);
    let eth = pdu::eth_parsed(frame)->Ok_0;
    if is_arp_for(frame, v.endpoint.ip) {
        let arp = pdu::arp_parsed(body)->Ok_0;
        InterceptorView {
            pending: v.pending.push(
                pdu::arp_reply_frame(service_mac(), v.endpoint.ip, eth.src, arp.sender_ip),
            ),
            ..v
        }
    } else if is_packet_to(frame, v.endpoint.ip) && body[9] == IP_PROTO_TCP {
        flushed(packet_taken(v, eth.src, body, entropy, now))
    } else {
        v
    }
}

/// The interceptor: the data, the tokens, the endpoint, and what waits for the guest.
#[derive(Debug)]
pub struct MmdsInterceptor {
    mmds: Mmds,
    tokens: TokenStore,
    tcp: TcpEndpoint,
    pending_rx: Vec<Vec<u8>>,
}

/// The contents of each frame.
pub open spec fn frame_bytes(s: Seq<Vec<u8>>) -> Seq<Seq<u8>> {
    Seq::new(s.len(), |i: int| s[i]@)
}

impl View for MmdsInterceptor {
    type V = InterceptorView;

    closed spec fn view(&self) -> InterceptorView {
        InterceptorView {
            mmds: self.mmds@,
            tokens: self.tokens@,
            endpoint: self.tcp@,
            pending: frame_bytes(self.pending_rx@),
        }
    }
}

impl MmdsInterceptor {
    /// An interceptor for the service at its default address.
    pub fn new(mmds: Mmds, tokens: TokenStore) -> (i: Self)
        ensures
            i@.mmds == mmds@,
            i@.tokens == tokens@,
            i@.endpoint.ip == default_ip(),
            i@.endpoint.port == HTTP_PORT,
            i@.endpoint.port == 80,
            i@.endpoint.conns == Map::<u64, tcp::ConnView>::empty(),
            i@.endpoint.out == Seq::<tcp::FrameView>::empty(),
            i@.endpoint.guest_mac is None,
            i@.endpoint.next_iss == tcp::FIRST_ISS,
            i@.endpoint.ip_id == 1,
            i@.pending == Seq::<Seq<u8>>::empty(),
    {
        let i = MmdsInterceptor {
            mmds,
            tokens,
            tcp: TcpEndpoint::new(mmds_default_ipv4(), HTTP_PORT),
            pending_rx: Vec::new(),
        };
        assert(i@.pending =~= Seq::<Seq<u8>>::empty());
        i
    }

    /// The interceptor at another address.
    pub fn with_ipv4(self, ip: [u8; 4]) -> (i: Self)
        ensures
            i@ == (InterceptorView {
                endpoint: tcp::EndpointView { ip, ..self@.endpoint },
                ..self@
            }),
    {
        let mut i = self;
        i.tcp.set_ip(ip);
        i
    }

    /// Moves the service to another address.
    pub fn set_ipv4(&mut self, ip: [u8; 4])
        ensures
            final(self)@ == (InterceptorView {
                endpoint: tcp::EndpointView { ip, ..old(self)@.endpoint },
                ..old(self)@
            }),
    {
        self.tcp.set_ip(ip);
    }

    /// The data.
    pub fn mmds(&self) -> (m: &Mmds)
        ensures
            m@ == self@.mmds,
    {
        &self.mmds
    }

    /// The data, to be changed.
    pub fn mmds_mut(&mut self) -> (m: &mut Mmds)
        ensures
            m@ == old(self)@.mmds,
            final(self)@ == (InterceptorView { mmds: final(m)@, ..old(self)@ }),
    {
        &mut self.mmds
    }

    /// The token store.
    pub fn tokens(&self) -> (t: &TokenStore)
        ensures
            t@ == self@.tokens,
    {
        &self.tokens
    }

    /// The token store, to be changed.
    pub fn tokens_mut(&mut self) -> (t: &mut TokenStore)
        ensures
            t@ == old(self)@.tokens,
            final(self)@ == (InterceptorView { tokens: final(t)@, ..old(self)@ }),
    {
        &mut self.tokens
    }

    fn flush_tcp_outbound(&mut self)
        ensures
            final(self)@ == flushed(old(self)@),
    {
        let out: Vec<OutboundFrame> = self.tcp.drain_outbound();
        let ghost start = frame_bytes(self.pending_rx@);
        let ghost all = wrapped(tcp::frames(out@));
        let mut i: usize = 0;
        while i < out.len()
            invariant
                i <= out@.len(),
                all == wrapped(tcp::frames(out@)),
                frame_bytes(self.pending_rx@) =~= start + all.take(i as int),
                self.mmds == old(self).mmds,
                self.tokens == old(self).tokens,
                self.tcp@ == (tcp::EndpointView { out: Seq::empty(), ..old(self).tcp@ }),
            decreases out@.len() - i,
        {
            let frame: Vec<u8> = wrap_in_ethernet(mmds_synthetic_mac(), &out[i]);
            let ghost so_far = frame_bytes(self.pending_rx@);
            self.pending_rx.push(frame);
            assert(frame@ == all[i as int]);
            assert(frame_bytes(self.pending_rx@) =~= so_far.push(frame@));
            i = i + 1;
        }
        assert(all.take(i as int) =~= all);
        assert(self@ =~= flushed(old(self)@));
    }

    /// Takes a frame of the guest at time `now` of the token store's clock, with the
    /// random bytes for a token that it may ask for. Gives whether the frame was for the
    /// service.
    pub fn intercept_at(&mut self, frame: &[u8], entropy: Result<[u8; 32], String>, now: u64) -> (r:
        bool)
        ensures
            r == is_for_service(frame@, old(self)@.endpoint.ip),
            final(self)@ == intercept_step(old(self)@, frame@, entropy, now),
    {
        match self.take_frame(frame) {
            None => false,
            Some(FrameOutcome::Request(p)) => {
                self.serve(p, entropy, now);
                true
            },
            Some(_) => true,
        }
    }

    /// Takes a frame up to the request that it completes, if it does; `None` if it is not
    /// for the service.
    fn take_frame(&mut self, frame: &[u8]) -> (r: Option<FrameOutcome>)
        ensures
            r is Some == is_for_service(frame@, old(self)@.endpoint.ip),
            match r {
                Some(FrameOutcome::Request(p)) => {
                    &&& request_in(old(self)@, frame@) == Some(p.request@)
                    &&& forall|entropy: Result<[u8; 32], String>, now: u64|
                        flushed(answered(final(self)@, p, entropy, now)) == #[trigger] intercept_step(
                            old(self)@,
                            frame@,
                            entropy,
                            now,
                        )
                    &&& final(self)@.mmds == old(self)@.mmds
                },
                _ => {
                    &&& request_in(old(self)@, frame@) is None
                    &&& forall|entropy: Result<[u8; 32], String>, now: u64|
                        final(self)@ == #[trigger] intercept_step(
                            old(self)@,
                            frame@,
                            entropy,
                            now,
                        )
                },
            },
    {
        let eth = match EthernetHeader::parse(frame) {
            Ok(eth) => eth,
            Err(_) => {
                return None;
            },
        };
        let body: &[u8] = vstd::slice::slice_subrange(frame, ETHER_HDR_LEN, frame.len());
        assert(body@ =~= frame@.skip(ETHER_HDR_LEN as int));
        if eth.ethertype == ETHERTYPE_ARP {
            if self.handle_arp(&eth, body) {
                Some(FrameOutcome::Handled)
            } else {
                None
            }
        } else if eth.ethertype == ETHERTYPE_IPV4 {
            self.handle_ipv4(&eth, body)
        } else {
            None
        }
    }

    /// Answers the request that a frame completed.
    fn serve(&mut self, p: PendingRequest, entropy: Result<[u8; 32], String>, now: u64)
        ensures
            final(self)@ == flushed(answered(old(self)@, p, entropy, now)),
    {
        let (status, answer) = service_http_request(
            &self.mmds,
            &mut self.tokens,
            &p.request,
            entropy,
            now,
        );
        self.tcp.respond(p.client, p.port, p.fin, &HttpResponse { status, body: answer });
        self.flush_tcp_outbound();
    }

    fn handle_arp(&mut self, eth: &EthernetHeader, body: &[u8]) -> (r: bool)
        ensures
            match pdu::arp_parsed(body@) {
                Ok(arp) if arp.op == ARP_OP_REQUEST && arp.target_ip == old(self)@.endpoint.ip => r
                    && final(self)@ == (InterceptorView {
                    pending: old(self)@.pending.push(
                        pdu::arp_reply_frame(
                            service_mac(),
                            old(self)@.endpoint.ip,
                            eth.src,
                            arp.sender_ip,
                        ),
                    ),
                    ..old(self)@
                }),
                _ => !r && final(self)@ == old(self)@,
            },
    {
        let arp = match ArpPacket::parse(body) {
            Ok(arp) => arp,
            Err(_) => {
                return false;
            },
        };
        let ip: [u8; 4] = self.tcp.ip();
        if arp.op != ARP_OP_REQUEST || !same_ip(arp.target_ip, ip) {
            return false;
        }
        let reply = build_arp_reply_frame(mmds_synthetic_mac(), ip, eth.src, arp.sender_ip);
        self.pending_rx.push(reply);
        assert(self@.pending =~= old(self)@.pending.push(reply@));
        true
    }

    fn handle_ipv4(&mut self, eth: &EthernetHeader, body: &[u8]) -> (r: Option<FrameOutcome>)
        ensures
            r is Some == (body@.len() >= 20 && old(self)@.endpoint.ip[0] == body@[16] && old(
                self,
            )@.endpoint.ip[1] == body@[17] && old(self)@.endpoint.ip[2] == body@[18] && old(
                self,
            )@.endpoint.ip[3] == body@[19]),
            match r {
                Some(FrameOutcome::Request(p)) => {
                    &&& body@[9] == IP_PROTO_TCP
                    &&& tcp::packet_step(old(self)@.endpoint, eth.src, body@) matches Some(
                        (seg, tcp::StepView::Serve { state, request, fin }),
                    ) && {
                        &&& final(self)@ == (InterceptorView { endpoint: state, ..old(self)@ })
                        &&& p.client == seg.client
                        &&& p.port == seg.header.src_port
                        &&& p.fin == fin
                        &&& p.request@ == request
                    }
                },
                Some(_) if body@[9] == IP_PROTO_TCP => {
                    &&& !(tcp::packet_step(old(self)@.endpoint, eth.src, body@) matches Some(
                        (_, tcp::StepView::Serve { .. }),
                    ))
                    &&& forall|entropy: Result<[u8; 32], String>, now: u64|
                        final(self)@ == flushed(
                            #[trigger] packet_taken(old(self)@, eth.src, body@, entropy, now),
                        )
                },
                _ => final(self)@ == old(self)@,
            },
    {
        if body.len() < 20 {
            return None;
        }
        let ip: [u8; 4] = self.tcp.ip();
        if ip[0] != body[16] || ip[1] != body[17] || ip[2] != body[18] || ip[3] != body[19] {
            return None;
        }
        if body[9] != IP_PROTO_TCP {
            return Some(FrameOutcome::Ignored);
        }
        match self.tcp.receive(eth.src, body) {
            FrameOutcome::Request(p) => Some(FrameOutcome::Request(p)),
            outcome => {
                self.flush_tcp_outbound();
                Some(outcome)
            },
        }
    }

    /// Takes a frame of the guest. `draw` gives the random bytes for a token; it is asked
    /// only when the frame completes a request that needs them. Gives whether the frame was
    /// for the service.
    pub fn intercept<F: FnMut() -> Result<[u8; 32], String>>(&mut self, frame: &[u8], mut draw: F) -> (r:
        bool)
        requires
            random_wanted(old(self)@, frame@) ==> call_requires(draw, ()),
        ensures
            r == is_for_service(frame@, old(self)@.endpoint.ip),
            exists|entropy: Result<[u8; 32], String>, now: u64|
                {
                    &&& random_wanted(old(self)@, frame@) ==> call_ensures(draw, (), entropy)
                    &&& final(self)@ == #[trigger] intercept_step(
                        old(self)@,
                        frame@,
                        entropy,
                        now,
                    )
                },
    {
        match self.take_frame(frame) {
            None => {
                proof {
                    let entropy: Result<[u8; 32], String> = arbitrary();
                    assert(self@ == intercept_step(old(self)@, frame@, entropy, 0));
                }
                false
            },
            Some(FrameOutcome::Request(p)) => {
                let entropy: Result<[u8; 32], String> = if random_needed(&self.mmds, &p.request) {
                    draw()
                } else {
                    Err(String::new())
                };
                let now: u64 = self.tokens.now();
                self.serve(p, entropy, now);
                assert(self@ == intercept_step(old(self)@, frame@, entropy, now));
                true
            },
            Some(_) => {
                proof {
                    let entropy: Result<[u8; 32], String> = arbitrary();
                    assert(self@ == intercept_step(old(self)@, frame@, entropy, 0));
                }
                true
            },
        }
    }

    /// Takes all frames for the guest, oldest first.
    pub fn drain_rx(&mut self) -> (out: Vec<Vec<u8>>)
        ensures
            frame_bytes(out@) == old(self)@.pending + wrapped(old(self)@.endpoint.out),
            final(self)@ == (InterceptorView { pending: Seq::empty(), ..flushed(old(self)@) }),
    {
        self.flush_tcp_outbound();
        let mut out: Vec<Vec<u8>> = Vec::new();
        std::mem::swap(&mut out, &mut self.pending_rx);
        assert(self@.pending =~= Seq::<Seq<u8>>::empty());
        out
    }

    /// Serves a request directly, at time `now` of the token store's clock.
    pub fn service_http_at(
        &mut self,
        req: &HttpRequest,
        entropy: Result<[u8; 32], String>,
        now: u64,
    ) -> (r: (u16, Vec<u8>))
        ensures
            ({
                let s = service_of(old(self)@.mmds, old(self)@.tokens, req@, entropy, now);
                r.0 == s.status && r.1@ == s.body && final(self)@ == (InterceptorView {
                    tokens: s.tokens,
                    ..old(self)@
                })
            }),
    {
        service_http_request(&self.mmds, &mut self.tokens, req, entropy, now)
    }

    /// Serves a request directly.
    pub fn service_http(
        &mut self,
        method: &str,
        path: &str,
        token_header: Option<&str>,
        ttl_header: Option<u32>,
        body: &[u8],
        entropy: Result<[u8; 32], String>,
    ) -> (r: (u16, Vec<u8>))
        ensures
            exists|now: u64|
                ({
                    let s = #[trigger] service_of(
                        old(self)@.mmds,
                        old(self)@.tokens,
                        direct_request(method, path, token_header, ttl_header, body@),
                        entropy,
                        now,
                    );
                    r.0 == s.status && r.1@ == s.body && final(self)@ == (InterceptorView {
                        tokens: s.tokens,
                        ..old(self)@
                    })
                }),
    {
        let req = HttpRequest {
            method: String::from_str(method),
            path: String::from_str(path),
            token_header: match token_header {
                Some(t) => Some(String::from_str(t)),
                None => None,
            },
            ttl_header,
            body: vstd::slice::slice_to_vec(body),
        };
        let now: u64 = self.tokens.now();
        self.service_http_at(&req, entropy, now)
    }
}

/// Every frame that carries a packet to the service's address, or asks for its hardware
/// address, is for the service, and no other is.
pub proof fn service_frames_are_taken(frame: Seq<u8>, ip: [u8; 4])
    ensures
        is_packet_to(frame, ip) ==> is_for_service(frame, ip),
        is_arp_for(frame, ip) ==> is_for_service(frame, ip),
        pdu::eth_parsed(frame) is Err ==> !is_for_service(frame, ip),
{
}

/// A frame that is not for the service leaves it as it was.
pub proof fn other_frames_change_nothing(
    v: InterceptorView,
    frame: Seq<u8>,
    entropy: Result<[u8; 32], String>,
    now: u64,
)
    requires
        !is_for_service(frame, v.endpoint.ip),
    ensures
        intercept_step(v, frame, entropy, now) == v,
{
}

/// In version two a read without a valid token is refused, whatever it asks for, as long
/// as the request itself is in order.
pub proof fn reads_need_a_token_in_v2(
    m: data_store::MmdsView,
    tokens: Seq<(Seq<char>, u64)>,
    req: http::RequestView,
    entropy: Result<[u8; 32], String>,
    now: u64,
)
    requires
        m.version == MmdsVersion::V2,
        req.method == "GET"@,
        encode_utf8(req.path).len() <= MAX_HTTP_PATH_BYTES,
        path_ok(req.path),
        req.body.len() <= m.size_cap,
        req.token is None || !token::is_valid(tokens, req.token->0, now),
    ensures
        service_of(m, tokens, req, entropy, now).status == 401,
{
    reveal_strlit("GET");
    reveal_strlit("PUT");
    assert("GET"@[0] != "PUT"@[0]);
}

/// The path that tokens are asked for under passes the checks on paths.
proof fn token_path_is_ok()
    ensures
        encode_utf8("/latest/api/token"@).len() <= MAX_HTTP_PATH_BYTES,
        path_ok("/latest/api/token"@),
{
    reveal_strlit("/latest/api/token");
    let p = "/latest/api/token"@;
    assert(p =~= seq![
        '/', 'l', 'a', 't', 'e', 's', 't', '/', 'a', 'p', 'i', '/', 't', 'o', 'k', 'e', 'n',
    ]);
    is_ascii_chars_encode_utf8(p);
    assert forall|i: int| 0 <= i < encode_utf8(p).len() implies 0x20 <= #[trigger] encode_utf8(p)[i]
        < 0x7F && encode_utf8(p)[i] != 0x5C by {
        assert(encode_utf8(p)[i] == p[i] as u8);
    }
}

/// A token that was just issued opens reads in version two until it ends.
pub proof fn issued_token_opens_reads(
    m: data_store::MmdsView,
    tokens: Seq<(Seq<char>, u64)>,
    put: http::RequestView,
    get: http::RequestView,
    entropy: [u8; 32],
    at: u64,
    later: u64,
)
    requires
        asks_for_token(put),
        put.ttl is Some && token::ttl_ok(put.ttl->0),
        put.body.len() <= m.size_cap,
        get.method == "GET"@,
        encode_utf8(get.path).len() <= MAX_HTTP_PATH_BYTES,
        path_ok(get.path),
        get.body.len() <= m.size_cap,
        get.token == Some(token::base64url(entropy@)),
        later < token::end_of(at, put.ttl->0),
    ensures
        ({
            let issue = service_of(m, tokens, put, Ok(entropy), at);
            let read = service_of(m, issue.tokens, get, Ok(entropy), later);
            &&& issue.status == 200
            &&& issue.body == encode_utf8(get.token->0)
            &&& match data_store::tree_at(m.tree, get.path) {
                Some(t) => read.status == 200 && read.body == encode_utf8(json::json_text(t)),
                None => read.status == 404,
            }
        }),
{
    reveal_strlit("GET");
    reveal_strlit("PUT");
    assert("GET"@[0] != "PUT"@[0]);
    token_path_is_ok();
    token::base64url_shape(entropy@);
    is_ascii_chars_encode_utf8(token::base64url(entropy@));
    token::issued_token_is_valid_until_its_end(
        tokens,
        token::base64url(entropy@),
        at,
        put.ttl->0,
        later,
    );
}

/// How every request is answered, whatever the data are. A path of more than 1024 bytes is
/// too long, one with a byte that is no printable ASCII character or is a backslash is bad,
/// a body over the cap is too large, in this order. Then a token is issued for a PUT of its
/// path with a lifetime of one second to six hours if there are random bytes, and refused
/// without; a GET reads, and other methods are not allowed. Only issuing a token and
/// checking one change the tokens.
pub proof fn requests_are_answered_by_rule(
    m: data_store::MmdsView,
    tokens: Seq<(Seq<char>, u64)>,
    req: http::RequestView,
    entropy: Result<[u8; 32], String>,
    now: u64,
)
    ensures
        ({
            let s = service_of(m, tokens, req, entropy, now);
            let path = encode_utf8(req.path);
            let long = path.len() > 1024;
            let bad = exists|i: int|
                0 <= i < path.len() && (#[trigger] path[i] < 0x20 || path[i] >= 0x7F || path[i]
                    == 0x5C);
            let large = req.body.len() > m.size_cap;
            let plain = !long && !bad && !large;
            let asks = req.method == "PUT"@ && req.path == "/latest/api/token"@;
            let gets = req.method == "GET"@;
            let lives = req.ttl matches Some(t) && 1 <= t <= 21600;
            &&& long ==> s.status == 414 && s.tokens == tokens
            &&& !long && bad ==> s.status == 400 && s.tokens == tokens
            &&& !long && !bad && large ==> s.status == 413 && s.tokens == tokens
            &&& plain && asks && (!lives || entropy is Err) ==> s.status == 400 && s.tokens
                == tokens
            &&& plain && asks && lives && entropy is Ok ==> {
                let t = token::base64url(entropy->Ok_0@);
                &&& s.status == 200
                &&& s.body == encode_utf8(t)
                &&& s.tokens == token::without(tokens, t).push((t, token::end_of(now, req.ttl->0)))
            }
            &&& plain && gets ==> s.status == 200 || s.status == 401 || s.status == 404
            &&& plain && gets && m.version == MmdsVersion::V1 ==> s.tokens == tokens && (
            match data_store::tree_at(m.tree, req.path) {
                Some(t) => s.status == 200 && s.body == encode_utf8(json::json_text(t)),
                None => s.status == 404,
            })
            &&& plain && !asks && !gets ==> s.status == 405 && s.tokens == tokens
        }),
{
    reveal_strlit("GET");
    reveal_strlit("PUT");
    assert("GET"@[0] != "PUT"@[0]);
}

/// With a valid token a read in version two is answered as in version one; a token header
/// of more than 256 bytes is as good as none.
pub proof fn valid_tokens_read_as_in_v1(
    m: data_store::MmdsView,
    tokens: Seq<(Seq<char>, u64)>,
    req: http::RequestView,
    entropy: Result<[u8; 32], String>,
    now: u64,
)
    requires
        req.method == "GET"@,
        m.version == MmdsVersion::V2,
    ensures
        ({
            let v1 = service_of(
                data_store::MmdsView { version: MmdsVersion::V1, ..m },
                tokens,
                req,
                entropy,
                now,
            );
            let v2 = service_of(m, tokens, req, entropy, now);
            &&& req.token is Some && encode_utf8(req.token->0).len() <= 256 && token::is_valid(
                tokens,
                req.token->0,
                now,
            ) ==> v2.status == v1.status && v2.body == v1.body
            &&& (req.token is None || encode_utf8(req.token->0).len() > 256) && (v1.status == 200
                || v1.status == 404) ==> v2.status == 401 && v2.tokens == tokens
        }),
{
    reveal_strlit("GET");
    reveal_strlit("PUT");
    assert("GET"@[0] != "PUT"@[0]);
}

/// Which frames are for the service, byte for byte: an IPv4 packet to its address, whatever
/// it carries, and an ARP request for its address. They never reach the host's network.
pub proof fn service_frames_by_their_bytes(f: Seq<u8>, ip: [u8; 4])
    ensures
        is_packet_to(f, ip) <==> f.len() >= 34 && f[12] == 8 && f[13] == 0 && f.subrange(30, 34)
            == ip@,
        is_arp_for(f, ip) <==> f.len() >= 42 && f[12] == 8 && f[13] == 6 && f.subrange(14, 20)
            == seq![0u8, 1u8, 8u8, 0u8, 6u8, 4u8] && f[20] == 0 && f[21] == 1 && f.subrange(38, 42)
            == ip@,
        is_for_service(f, ip) <==> is_packet_to(f, ip) || is_arp_for(f, ip),
{
    let b = f.skip(14);
    pdu::frames_are_read(f);
    if f.len() >= 14 {
        pdu::arp_packets_are_read(b);
        assert(b.len() == f.len() - 14);
        if f.len() >= 34 {
            assert(b[16] == f[30] && b[17] == f[31] && b[18] == f[32] && b[19] == f[33]);
            if f.subrange(30, 34) == ip@ {
                assert(f.subrange(30, 34)[0] == ip[0] && f.subrange(30, 34)[1] == ip[1]
                    && f.subrange(30, 34)[2] == ip[2] && f.subrange(30, 34)[3] == ip[3]);
            }
            if is_packet_to(f, ip) {
                assert(f.subrange(30, 34) =~= ip@);
            }
        }
        if f.len() >= 42 {
            assert(b.subrange(0, 6) =~= f.subrange(14, 20));
            assert(b.subrange(24, 28) =~= f.subrange(38, 42));
            assert(b[6] == f[20] && b[7] == f[21]);
            if let Ok(a) = pdu::arp_parsed(b) {
                if a.target_ip@ == ip@ {
                    assert(a.target_ip =~= ip);
                }
            }
        }
    }
}

/// An ARP request for the service's address is answered with its hardware address, to the
/// one that asked, behind what waits already. A TCP packet to it is handed to the endpoint,
/// and what the endpoint has to say waits for the guest; nothing else in a packet to it has
/// an effect.
pub proof fn frames_for_the_service_are_answered(
    v: InterceptorView,
    f: Seq<u8>,
    entropy: Result<[u8; 32], String>,
    now: u64,
)
    ensures
        ({
            let t = intercept_step(v, f, entropy, now);
            let ip = v.endpoint.ip;
            &&& is_arp_for(f, ip) ==> {
                let reply = t.pending.last();
                &&& t.mmds == v.mmds && t.tokens == v.tokens && t.endpoint == v.endpoint
                &&& t.pending.len() == v.pending.len() + 1
                &&& t.pending.drop_last() == v.pending
                &&& reply.len() == 42
                &&& pdu::eth_parsed(reply) matches Ok(eth) && eth.dst@ == f.subrange(6, 12)
                    && eth.src@ == seq![6u8, 1u8, 0x23u8, 0x45u8, 0x67u8, 1u8] && eth.ethertype
                    == 0x0806
                &&& pdu::arp_parsed(reply.skip(14)) matches Ok(arp) && arp.op == 2
                    && arp.sender_mac@ == seq![6u8, 1u8, 0x23u8, 0x45u8, 0x67u8, 1u8]
                    && arp.sender_ip == ip && arp.target_mac@ == f.subrange(6, 12)
                    && arp.target_ip@ == f.subrange(28, 32)
            }
            &&& is_packet_to(f, ip) && f[23] != 6 ==> t == v
            &&& is_packet_to(f, ip) && f[23] == 6 ==> (pdu::eth_parsed(f) matches Ok(eth)
                && eth.src@ == f.subrange(6, 12) && t == flushed(
                packet_taken(v, eth.src, f.skip(14), entropy, now),
            ))
        }),
{
    let ip = v.endpoint.ip;
    let b = f.skip(14);
    pdu::frames_are_read(f);
    service_frames_by_their_bytes(f, ip);
    if is_arp_for(f, ip) {
        pdu::arp_packets_are_read(b);
        let eth = pdu::eth_parsed(f)->Ok_0;
        let arp = pdu::arp_parsed(b)->Ok_0;
        pdu::arp_answers_are_right(service_mac(), ip, eth.src, arp.sender_ip);
        assert(service_mac()@ =~= seq![6u8, 1u8, 0x23u8, 0x45u8, 0x67u8, 1u8]);
        assert(intercept_step(v, f, entropy, now).pending.drop_last() =~= v.pending);
        assert(b.subrange(14, 18) =~= f.subrange(28, 32));
    }
    if is_packet_to(f, ip) {
        assert(b[9] == f[23]);
    }
}

/// What the endpoint sends goes to the guest in frames from the service's hardware address
/// that carry IPv4, in order, behind what waits already; nothing else changes.
pub proof fn replies_wait_for_the_guest(v: InterceptorView)
    ensures
        ({
            let t = flushed(v);
            let n = v.pending.len() as int;
            &&& t.mmds == v.mmds && t.tokens == v.tokens && t.endpoint.conns == v.endpoint.conns
            &&& t.endpoint.out.len() == 0
            &&& t.pending.len() == n + v.endpoint.out.len()
            &&& forall|i: int| 0 <= i < n ==> #[trigger] t.pending[i] == v.pending[i]
            &&& forall|i: int|
                0 <= i < v.endpoint.out.len() ==> {
                    let f = #[trigger] t.pending[n + i];
                    &&& f.len() == 14 + v.endpoint.out[i].payload.len()
                    &&& f.subrange(0, 6) == v.endpoint.out[i].dst_mac@
                    &&& f.subrange(6, 12) == seq![6u8, 1u8, 0x23u8, 0x45u8, 0x67u8, 1u8]
                    &&& f[12] == 8 && f[13] == 0
                    &&& f.skip(14) == v.endpoint.out[i].payload
                }
        }),
{
    let t = flushed(v);
    let n = v.pending.len() as int;
    assert forall|i: int| 0 <= i < v.endpoint.out.len() implies {
        let f = #[trigger] t.pending[n + i];
        &&& f.len() == 14 + v.endpoint.out[i].payload.len()
        &&& f.subrange(0, 6) == v.endpoint.out[i].dst_mac@
        &&& f.subrange(6, 12) == seq![6u8, 1u8, 0x23u8, 0x45u8, 0x67u8, 1u8]
        &&& f[12] == 8 && f[13] == 0
        &&& f.skip(14) == v.endpoint.out[i].payload
    } by {
        let f = t.pending[n + i];
        let o = v.endpoint.out[i];
        assert(f == ethernet_frame(service_mac(), o));
        assert(f.subrange(0, 6) =~= o.dst_mac@);
        assert(f.subrange(6, 12) =~= seq![6u8, 1u8, 0x23u8, 0x45u8, 0x67u8, 1u8]);
        assert(f[12] == wire::be16_bytes(ETHERTYPE_IPV4)[0]);
        assert(f[13] == wire::be16_bytes(ETHERTYPE_IPV4)[1]);
        assert(f.skip(14) =~= o.payload);
    }
}

/// The packet of a request is answered through the endpoint with what serving the request
/// gives, and serving it is all that changes the tokens.
pub proof fn completed_requests_are_served(
    v: InterceptorView,
    mac: [u8; 6],
    packet: Seq<u8>,
    entropy: Result<[u8; 32], String>,
    now: u64,
)
    ensures
        ({
            let t = packet_taken(v, mac, packet, entropy, now);
            &&& t.mmds == v.mmds && t.pending == v.pending
            &&& match tcp::packet_step(v.endpoint, mac, packet) {
                None => t == v,
                Some((_, tcp::StepView::Rest(e))) => t.endpoint == e && t.tokens == v.tokens,
                Some((seg, tcp::StepView::Serve { state, request, fin })) => {
                    let s = service_of(v.mmds, v.tokens, request, entropy, now);
                    &&& t.tokens == s.tokens
                    &&& t.endpoint == tcp::served(
                        state,
                        seg.client,
                        seg.header.src_port,
                        fin,
                        s.status,
                        s.body,
                    )
                },
            }
        }),
{
}

/// A pointer of nothing and a lone slash lead to the whole tree.
pub proof fn the_root_is_the_whole_tree(t: json::JsonTree, pointer: Seq<char>)
    ensures
        data_store::tree_at(t, Seq::empty()) == Some(t),
        data_store::tree_at(t, seq!['/']) == Some(t),
        pointer.len() > 0 && pointer != seq!['/'] ==> data_store::tree_at(t, pointer)
            == json::json_at(t, pointer),
{
    reveal_strlit("/");
    assert("/"@ =~= seq!['/']);
}

/// What a refusal says.
pub proof fn refusals_say_why(
    m: data_store::MmdsView,
    tokens: Seq<(Seq<char>, u64)>,
    req: http::RequestView,
    entropy: Result<[u8; 32], String>,
    now: u64,
)
    ensures
        ({
            let s = service_of(m, tokens, req, entropy, now);
            &&& s.status == 414 ==> s.body == "request path too long".spec_bytes()
            &&& s.status == 413 ==> s.body == "request body exceeds MMDS size cap".spec_bytes()
            &&& s.status == 401 ==> s.body == "missing or invalid token".spec_bytes()
            &&& s.status == 404 ==> s.body == "not found".spec_bytes()
            &&& s.status == 405 ==> s.body == "method not allowed".spec_bytes()
            &&& s.status == 400 && !path_ok(req.path) ==> s.body
                == "path contains disallowed control or NUL bytes".spec_bytes()
            &&& s.status == 400 && path_ok(req.path) && req.ttl is None ==> s.body
                == "missing X-aws-ec2-metadata-token-ttl-seconds".spec_bytes()
            &&& s.status == 400 && path_ok(req.path) && req.ttl is Some ==> s.body
                == "invalid TTL".spec_bytes()
        }),
{
}

/// Random bytes are needed exactly for a token that would be issued: asked for with a
/// lifetime of one second to six hours, and no more bytes than the data may have.
pub proof fn random_bytes_are_for_tokens(m: data_store::MmdsView, req: http::RequestView)
    ensures
        needs_random(m, req) <==> {
            &&& req.method == "PUT"@
            &&& req.path == "/latest/api/token"@
            &&& req.body.len() <= m.size_cap
            &&& req.ttl is Some && 1 <= req.ttl->0 <= 21600
        },
{
}

} // verus!
