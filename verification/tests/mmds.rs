//! The metadata service, from packets to data.

use squib::mmds::data_store::{Mmds, MmdsError, MmdsVersion};
use squib::mmds::http::{
    find_subsequence, try_parse_http, HttpParseOutcome, HttpRequest, HttpResponse,
    MAX_REQUEST_BYTES,
};
use squib::mmds::interceptor::{
    mmds_default_ipv4, mmds_synthetic_mac, path_charset_ok, MmdsInterceptor,
};
use squib::mmds::json::merge_patch;
use squib::mmds::pdu::ipv4::{IpProtocol, Ipv4Header, IPV4_HDR_LEN};
use squib::mmds::pdu::tcp::{TcpHeader, TCP_ACK, TCP_FIN, TCP_PSH, TCP_RST, TCP_SYN};
use squib::mmds::pdu::{
    ArpPacket, EthernetHeader, ARP_HLEN, ARP_HTYPE_ETHER, ARP_OP_REPLY, ARP_OP_REQUEST,
    ARP_PACKET_LEN, ARP_PLEN, ARP_PTYPE_IPV4, ETHERTYPE_ARP, ETHERTYPE_IPV4, ETHER_HDR_LEN,
};
use squib::mmds::tcp::{OutboundFrame, TcpServer};
use squib::mmds::token::{
    base64url_no_pad, Token, TokenStore, TokenStoreError, MAX_TTL_SECONDS, MIN_TTL_SECONDS,
};

fn random(seed: u8) -> Result<[u8; 32], String> {
    Ok([seed; 32])
}

fn hello(req: HttpRequest) -> HttpResponse {
    HttpResponse {
        status: 200,
        body: format!("hello {} {}", req.method, req.path).into_bytes(),
    }
}

fn make_server() -> TcpServer<fn(HttpRequest) -> HttpResponse> {
    TcpServer::new(
        [169, 254, 169, 254],
        80,
        [0x06, 0x01, 0x23, 0x45, 0x67, 0x01],
        hello,
    )
}

fn build_ip_tcp(
    src: [u8; 4],
    dst: [u8; 4],
    src_port: u16,
    dst_port: u16,
    seq: u32,
    ack: u32,
    flags: u8,
    payload: &[u8],
) -> Vec<u8> {
    let tcp = TcpHeader::build(src_port, dst_port, seq, ack, flags, u16::MAX);
    let tcp_bytes = tcp.to_bytes_with_payload(src, dst, payload);
    let ip = Ipv4Header::build(
        src,
        dst,
        IpProtocol::Tcp,
        u16::try_from(tcp_bytes.len()).unwrap(),
        42,
    );
    let mut frame = Vec::new();
    frame.extend_from_slice(&ip.to_bytes());
    frame.extend_from_slice(&tcp_bytes);
    frame
}

fn parse_outbound_tcp(
    frame: &OutboundFrame,
    server_ip: [u8; 4],
) -> (Ipv4Header, TcpHeader, Vec<u8>) {
    let ip = Ipv4Header::parse(&frame.eth_payload).unwrap();
    let tcp_start = IPV4_HDR_LEN;
    let tcp_end = ip.total_len as usize;
    let data_offset = frame.eth_payload[tcp_start + 12] >> 4;
    let tcp_hdr_end = tcp_start + 4 * data_offset as usize;
    let payload = frame.eth_payload[tcp_hdr_end..tcp_end].to_vec();
    let tcp = TcpHeader::parse(
        &frame.eth_payload[tcp_start..tcp_hdr_end],
        &payload,
        ip.src,
        server_ip,
    )
    .unwrap();
    (ip, tcp, payload)
}

#[test]
fn test_should_send_syn_ack_on_inbound_syn() {
    let mut s = make_server();
    let frame = build_ip_tcp(
        [10, 0, 0, 1],
        [169, 254, 169, 254],
        40000,
        80,
        1000,
        0,
        TCP_SYN,
        &[],
    );
    assert!(s.handle_ip_frame([0x06, 0x00, 0xAB, 0xCD, 0xEF, 0x01], &frame));
    let out = s.drain_outbound();
    assert_eq!(out.len(), 1);
    let (_, tcp, _) = parse_outbound_tcp(&out[0], [10, 0, 0, 1]);
    assert!(tcp.is_syn());
    assert!(tcp.is_ack());
    assert_eq!(tcp.ack, 1001);
    assert_eq!(tcp.dst_port, 40000);
    assert_eq!(tcp.src_port, 80);
}

fn refuse(req: HttpRequest) -> HttpResponse {
    panic!("no request was completed: {}", req.path)
}

#[test]
fn the_handler_is_asked_for_completed_requests_only() {
    let mut s = TcpServer::new(
        [169, 254, 169, 254],
        80,
        [0x06, 0x01, 0x23, 0x45, 0x67, 0x01],
        refuse as fn(HttpRequest) -> HttpResponse,
    );
    let mac = [0x06, 0x00, 0xAB, 0xCD, 0xEF, 0x01];
    let client = [10, 0, 0, 1];
    let server = [169, 254, 169, 254];
    let syn = build_ip_tcp(client, server, 40000, 80, 1000, 0, TCP_SYN, &[]);
    assert!(s.handle_ip_frame(mac, &syn));
    let out = s.drain_outbound();
    let (_, syn_ack, _) = parse_outbound_tcp(&out[0], client);
    let ack = syn_ack.seq + 1;
    let part = build_ip_tcp(client, server, 40000, 80, 1001, ack, TCP_ACK | TCP_PSH, b"GET / ");
    assert!(s.handle_ip_frame(mac, &part));
    let elsewhere = build_ip_tcp(client, [10, 0, 0, 2], 40000, 80, 1000, 0, TCP_SYN, &[]);
    assert!(!s.handle_ip_frame(mac, &elsewhere));
}

#[test]
fn test_should_complete_handshake_then_serve_http_request() {
    let mut s = make_server();
    let syn = build_ip_tcp(
        [10, 0, 0, 1],
        [169, 254, 169, 254],
        40000,
        80,
        1000,
        0,
        TCP_SYN,
        &[],
    );
    assert!(s.handle_ip_frame([0x06, 0, 0, 0, 0, 0], &syn));
    let out = s.drain_outbound();
    let (_, syn_ack, _) = parse_outbound_tcp(&out[0], [10, 0, 0, 1]);
    let server_iss = syn_ack.seq;
    let ack = build_ip_tcp(
        [10, 0, 0, 1],
        [169, 254, 169, 254],
        40000,
        80,
        1001,
        server_iss + 1,
        TCP_ACK,
        &[],
    );
    s.handle_ip_frame([0u8; 6], &ack);
    let req = b"GET /latest/meta-data/foo HTTP/1.1\r\nHost: m\r\n\r\n";
    let data = build_ip_tcp(
        [10, 0, 0, 1],
        [169, 254, 169, 254],
        40000,
        80,
        1001,
        server_iss + 1,
        TCP_ACK | TCP_PSH,
        req,
    );
    s.handle_ip_frame([0u8; 6], &data);
    let out = s.drain_outbound();
    assert!(out.len() >= 2);
    let last = &out[out.len() - 1];
    let (_, tcp, payload) = parse_outbound_tcp(last, [10, 0, 0, 1]);
    assert!(tcp.is_fin());
    let body_str = String::from_utf8_lossy(&payload);
    assert!(
        body_str.contains("HTTP/1.1 200 OK"),
        "expected HTTP/1.1 200, got {body_str:?}"
    );
    assert!(body_str.contains("hello GET /latest/meta-data/foo"));
}

#[test]
fn test_should_reject_unknown_connection_with_rst() {
    let mut s = make_server();
    let stray = build_ip_tcp(
        [10, 0, 0, 1],
        [169, 254, 169, 254],
        40000,
        80,
        5000,
        6000,
        TCP_ACK,
        &[],
    );
    s.handle_ip_frame([0u8; 6], &stray);
    let out = s.drain_outbound();
    assert_eq!(out.len(), 1);
    let (_, tcp, _) = parse_outbound_tcp(&out[0], [10, 0, 0, 1]);
    assert!(tcp.is_rst());
}

#[test]
fn test_should_drop_segment_when_dst_ip_is_not_server() {
    let mut s = make_server();
    let frame = build_ip_tcp(
        [10, 0, 0, 1],
        [10, 0, 0, 2],
        40000,
        80,
        1000,
        0,
        TCP_SYN,
        &[],
    );
    assert!(!s.handle_ip_frame([0u8; 6], &frame));
    assert!(s.drain_outbound().is_empty());
}

#[test]
fn test_should_close_connection_on_rst() {
    let mut s = make_server();
    let syn = build_ip_tcp(
        [10, 0, 0, 1],
        [169, 254, 169, 254],
        40000,
        80,
        1000,
        0,
        TCP_SYN,
        &[],
    );
    s.handle_ip_frame([0u8; 6], &syn);
    let _ = s.drain_outbound();
    let rst = build_ip_tcp(
        [10, 0, 0, 1],
        [169, 254, 169, 254],
        40000,
        80,
        1001,
        0,
        TCP_RST,
        &[],
    );
    s.handle_ip_frame([0u8; 6], &rst);
    let stray = build_ip_tcp(
        [10, 0, 0, 1],
        [169, 254, 169, 254],
        40000,
        80,
        1001,
        1,
        TCP_ACK,
        &[],
    );
    s.handle_ip_frame([0u8; 6], &stray);
    let out = s.drain_outbound();
    let (_, tcp, _) = parse_outbound_tcp(&out[0], [10, 0, 0, 1]);
    assert!(tcp.is_rst());
}

#[test]
fn test_http_parser_handles_chunked_arrival() {
    let mut buf = Vec::new();
    buf.extend_from_slice(b"GET / HTTP/1.1\r\n");
    assert!(matches!(try_parse_http(&buf), HttpParseOutcome::Incomplete));
    buf.extend_from_slice(b"Host: x\r\n\r\n");
    let outcome = try_parse_http(&buf);
    assert!(matches!(outcome, HttpParseOutcome::Complete(_)));
}

#[test]
fn test_http_parser_rejects_oversized_request() {
    let mut buf = vec![b'A'; MAX_REQUEST_BYTES + 10];
    buf[..3].copy_from_slice(b"GET");
    assert!(matches!(try_parse_http(&buf), HttpParseOutcome::TooLarge));
}

#[test]
fn test_should_issue_distinct_tokens() {
    let mut s = TokenStore::new();
    let a = s.issue(60, random(1)).unwrap();
    let b = s.issue(60, random(2)).unwrap();
    assert_ne!(a.as_str(), b.as_str());
}

#[test]
fn test_should_validate_issued_token() {
    let mut s = TokenStore::new();
    let t = s.issue(60, random(3)).unwrap();
    assert!(s.validate(t.as_str()));
}

#[test]
fn test_should_reject_unknown_token() {
    let mut s = TokenStore::new();
    s.issue(60, random(4)).unwrap();
    assert!(!s.validate("not-a-real-token"));
}

#[test]
fn test_should_reject_expired_token() {
    let mut s = TokenStore::new();
    let t = s.issue_at(1, random(9), 5_000_000_000).unwrap();
    assert!(!s.validate_at(t.as_str(), 7_000_000_000));
    assert!(s.is_empty());
}

#[test]
fn test_should_reject_ttl_below_min() {
    let mut s = TokenStore::new();
    assert!(matches!(
        s.issue(0, random(6)),
        Err(TokenStoreError::TtlOutOfRange { .. })
    ));
}

#[test]
fn test_should_reject_ttl_above_max() {
    let mut s = TokenStore::new();
    assert!(matches!(
        s.issue(MAX_TTL_SECONDS + 1, random(7)),
        Err(TokenStoreError::TtlOutOfRange { .. })
    ));
}

#[test]
fn test_should_use_constant_time_compare() {
    let t = Token("aaaaaaaa".into());
    assert!(t.constant_time_eq("aaaaaaaa"));
    assert!(!t.constant_time_eq("aaaaaaab"));
    assert!(!t.constant_time_eq("a"));
}

#[test]
fn test_base64url_round_trips_for_known_vectors() {
    assert_eq!(base64url_no_pad(b""), "");
    assert_eq!(base64url_no_pad(b"f"), "Zg");
    assert_eq!(base64url_no_pad(b"fo"), "Zm8");
    assert_eq!(base64url_no_pad(b"foo"), "Zm9v");
    assert_eq!(base64url_no_pad(b"foob"), "Zm9vYg");
    assert_eq!(base64url_no_pad(b"fooba"), "Zm9vYmE");
    assert_eq!(base64url_no_pad(b"foobar"), "Zm9vYmFy");
}

#[test]
fn test_should_default_to_v1() {
    let m = Mmds::new(1024);
    assert_eq!(m.version(), MmdsVersion::V1);
}

#[test]
fn test_should_round_trip_put_and_get_root() {
    let mut m = Mmds::new(1024);
    m.put_json(r#"{"latest":{"meta-data":{"instance-id":"i-1234"}}}"#)
        .unwrap();
    let v = m.get_root();
    assert_eq!(v["latest"]["meta-data"]["instance-id"], "i-1234");
}

#[test]
fn test_should_serve_subtree_at_json_pointer() {
    let mut m = Mmds::new(1024);
    m.put_json(r#"{"a":{"b":[10,20,30]}}"#).unwrap();
    let v = m.get_at_pointer("/a/b/1").unwrap();
    assert_eq!(v, serde_json::Value::from(20));
}

#[test]
fn test_should_reject_put_over_size_cap() {
    let mut m = Mmds::new(8);
    let err = m.put_json(r#"{"key":"too-large"}"#).unwrap_err();
    assert!(matches!(err, MmdsError::SizeLimitExceeded { .. }));
}

#[test]
fn test_should_reject_invalid_json_body() {
    let mut m = Mmds::new(1024);
    let err = m.put_json("not json").unwrap_err();
    assert!(matches!(err, MmdsError::InvalidJson(_)));
}

#[test]
fn test_should_apply_rfc_7396_merge_patch() {
    let mut m = Mmds::new(1024);
    m.put_json(r#"{"a":1,"b":{"c":2,"d":3}}"#).unwrap();
    m.patch_json(r#"{"b":{"c":20,"e":4},"f":5}"#).unwrap();
    let root = m.get_root();
    assert_eq!(root["a"], 1);
    assert_eq!(root["b"]["c"], 20);
    assert_eq!(root["b"]["d"], 3);
    assert_eq!(root["b"]["e"], 4);
    assert_eq!(root["f"], 5);
}

#[test]
fn test_should_remove_key_with_null_in_patch_per_rfc_7396() {
    let mut m = Mmds::new(1024);
    m.put_json(r#"{"a":1,"b":2}"#).unwrap();
    m.patch_json(r#"{"a":null}"#).unwrap();
    let root = m.get_root();
    assert!(root.get("a").is_none());
    assert_eq!(root["b"], 2);
}

#[test]
fn test_should_404_on_unknown_pointer() {
    let mut m = Mmds::new(1024);
    m.put_json(r#"{"a":1}"#).unwrap();
    let err = m.get_at_pointer("/missing").unwrap_err();
    assert!(matches!(err, MmdsError::PathNotFound(_)));
}

fn build_arp_request_frame(
    sender_mac: [u8; 6],
    sender_ip: [u8; 4],
    target_ip: [u8; 4],
) -> Vec<u8> {
    let eth = EthernetHeader {
        dst: [0xFF; 6],
        src: sender_mac,
        ethertype: ETHERTYPE_ARP,
    };
    let arp = ArpPacket {
        op: ARP_OP_REQUEST,
        sender_mac,
        sender_ip,
        target_mac: [0u8; 6],
        target_ip,
    };
    let mut frame = Vec::new();
    frame.extend_from_slice(&eth.to_bytes());
    frame.extend_from_slice(&arp.to_bytes());
    frame
}

fn build_ipv4_tcp_syn_frame(src_ip: [u8; 4], dst_ip: [u8; 4]) -> Vec<u8> {
    let eth = EthernetHeader {
        dst: mmds_synthetic_mac(),
        src: [0x06, 0x00, 0xAB, 0xCD, 0xEF, 0x01],
        ethertype: ETHERTYPE_IPV4,
    };
    let tcp = TcpHeader::build(40000, 80, 0x1000_0000, 0, TCP_SYN, 0xFFFF);
    let tcp_bytes = tcp.to_bytes_with_payload(src_ip, dst_ip, &[]);
    let ip = Ipv4Header::build(
        src_ip,
        dst_ip,
        IpProtocol::Tcp,
        u16::try_from(tcp_bytes.len()).unwrap(),
        1,
    );
    let mut frame = eth.to_bytes().to_vec();
    frame.extend_from_slice(&ip.to_bytes());
    frame.extend_from_slice(&tcp_bytes);
    frame
}

fn interceptor() -> MmdsInterceptor {
    MmdsInterceptor::new(Mmds::new(8192), TokenStore::new())
}

#[test]
fn test_should_pin_synthetic_mac_byte_for_byte() {
    assert_eq!(mmds_synthetic_mac(), [0x06, 0x01, 0x23, 0x45, 0x67, 0x01]);
    assert_eq!(mmds_default_ipv4(), [169, 254, 169, 254]);
}

#[test]
fn test_should_intercept_arp_for_mmds_ip_and_emit_reply() {
    let mut int = interceptor();
    let req = build_arp_request_frame(
        [0x06, 0x00, 0xAB, 0xCD, 0xEF, 0x01],
        [192, 168, 1, 2],
        mmds_default_ipv4(),
    );
    assert!(int.intercept(&req, || random(3)));
    let rx = int.drain_rx();
    assert_eq!(rx.len(), 1);
    let eth = EthernetHeader::parse(&rx[0]).unwrap();
    let arp = ArpPacket::parse(&rx[0][ETHER_HDR_LEN..]).unwrap();
    assert_eq!(eth.dst, [0x06, 0x00, 0xAB, 0xCD, 0xEF, 0x01]);
    assert_eq!(arp.sender_mac, mmds_synthetic_mac());
    assert_eq!(arp.sender_ip, mmds_default_ipv4());
}

#[test]
fn test_should_pass_through_arp_for_unrelated_ip() {
    let mut int = interceptor();
    let req = build_arp_request_frame(
        [0x06, 0x00, 0xAB, 0xCD, 0xEF, 0x01],
        [192, 168, 1, 2],
        [192, 168, 1, 1],
    );
    assert!(!int.intercept(&req, || random(3)));
    assert!(int.drain_rx().is_empty());
}

#[test]
fn test_should_intercept_ipv4_tcp_syn_and_emit_syn_ack() {
    let mut int = interceptor();
    let frame = build_ipv4_tcp_syn_frame([10, 0, 0, 1], mmds_default_ipv4());
    assert!(int.intercept(&frame, || random(3)));
    let rx = int.drain_rx();
    assert_eq!(rx.len(), 1, "expected one outbound frame (SYN-ACK)");
    let eth = EthernetHeader::parse(&rx[0]).unwrap();
    assert_eq!(eth.ethertype, ETHERTYPE_IPV4);
}

#[test]
fn test_should_pass_through_ipv4_to_unrelated_ip() {
    let mut int = interceptor();
    let frame = build_ipv4_tcp_syn_frame([10, 0, 0, 1], [10, 0, 0, 5]);
    assert!(!int.intercept(&frame, || random(3)));
}

#[test]
fn test_should_serve_v1_get_without_token() {
    let mut int = interceptor();
    int.mmds_mut()
        .put_json(r#"{"latest":{"meta-data":{"foo":"bar"}}}"#)
        .unwrap();
    let (status, body) = int.service_http("GET", "/latest/meta-data/foo", None, None, b"", random(4));
    assert_eq!(status, 200);
    assert_eq!(body, b"\"bar\"");
}

#[test]
fn test_should_require_token_for_v2_get() {
    let mut int = interceptor();
    int.mmds_mut().set_version(MmdsVersion::V2);
    int.mmds_mut()
        .put_json(r#"{"latest":{"meta-data":{"foo":"bar"}}}"#)
        .unwrap();
    let (status, _) = int.service_http("GET", "/latest/meta-data/foo", None, None, b"", random(4));
    assert_eq!(status, 401);
}

#[test]
fn test_should_issue_v2_token_via_put_and_then_serve_get() {
    let mut int = interceptor();
    int.mmds_mut().set_version(MmdsVersion::V2);
    int.mmds_mut()
        .put_json(r#"{"latest":{"meta-data":{"foo":"bar"}}}"#)
        .unwrap();
    let (status, body) = int.service_http("PUT", "/latest/api/token", None, Some(60), b"", random(4));
    assert_eq!(status, 200);
    let token = String::from_utf8(body).unwrap();
    let (status, _) = int.service_http("GET", "/latest/meta-data/foo", Some(&token), None, b"", random(4));
    assert_eq!(status, 200);
}

#[test]
fn test_should_404_unknown_metadata_path() {
    let mut int = interceptor();
    int.mmds_mut().put_json(r#"{"a":1}"#).unwrap();
    let (status, _) = int.service_http("GET", "/missing", None, None, b"", random(4));
    assert_eq!(status, 404);
}
struct GuestStub {
    interceptor: MmdsInterceptor,
    guest_mac: [u8; 6],
    guest_ip: [u8; 4],
    server_mac: Option<[u8; 6]>,
    server_ip: [u8; 4],
}

impl GuestStub {
    fn new(interceptor: MmdsInterceptor) -> Self {
        Self {
            interceptor,
            guest_mac: [0x06, 0x00, 0xAB, 0xCD, 0xEF, 0x01],
            guest_ip: [10, 0, 0, 2],
            server_mac: None,
            server_ip: mmds_default_ipv4(),
        }
    }

    fn drain(&mut self) -> Vec<Vec<u8>> {
        self.interceptor
            .drain_rx()
            .into_iter()
            .map(|b| b.to_vec())
            .collect()
    }

    fn arp_for_server(&mut self) {
        let eth = EthernetHeader {
            dst: [0xFF; 6], // broadcast
            src: self.guest_mac,
            ethertype: ETHERTYPE_ARP,
        };
        let arp = ArpPacket {
            op: ARP_OP_REQUEST,
            sender_mac: self.guest_mac,
            sender_ip: self.guest_ip,
            target_mac: [0; 6],
            target_ip: self.server_ip,
        };
        let mut frame = Vec::with_capacity(ETHER_HDR_LEN + ARP_PACKET_LEN);
        frame.extend_from_slice(&eth.to_bytes());
        frame.extend_from_slice(&arp.to_bytes());
        assert!(self.interceptor.intercept(&frame, || random(5)));
        let replies = self.drain();
        assert_eq!(replies.len(), 1, "expected exactly one ARP reply");
        let reply = &replies[0];
        let reply_eth = EthernetHeader::parse(reply).unwrap();
        assert_eq!(reply_eth.dst, self.guest_mac);
        let reply_arp = ArpPacket::parse(&reply[ETHER_HDR_LEN..]).unwrap();
        assert_eq!(reply_arp.op, ARP_OP_REPLY);
        assert_eq!(reply_arp.sender_mac, mmds_synthetic_mac());
        assert_eq!(reply_arp.sender_ip, self.server_ip);
        let _ = (
            ARP_HTYPE_ETHER,
            ARP_PTYPE_IPV4,
            ARP_HLEN,
            ARP_PLEN,
            ETHERTYPE_IPV4,
        );
        self.server_mac = Some(reply_arp.sender_mac);
    }

        fn build_tcp_frame(
        &self,
        src_port: u16,
        dst_port: u16,
        seq: u32,
        ack: u32,
        flags: u8,
        payload: &[u8],
        ip_id: u16,
    ) -> Vec<u8> {
        let tcp = TcpHeader::build(src_port, dst_port, seq, ack, flags, u16::MAX);
        let tcp_bytes = tcp.to_bytes_with_payload(self.guest_ip, self.server_ip, payload);
        let ip = Ipv4Header::build(
            self.guest_ip,
            self.server_ip,
            IpProtocol::Tcp,
            u16::try_from(tcp_bytes.len()).unwrap(),
            ip_id,
        );
        let eth = EthernetHeader {
            dst: self.server_mac.expect("ARP must complete before TCP"),
            src: self.guest_mac,
            ethertype: ETHERTYPE_IPV4,
        };
        let mut frame = Vec::with_capacity(ETHER_HDR_LEN + IPV4_HDR_LEN + tcp_bytes.len());
        frame.extend_from_slice(&eth.to_bytes());
        frame.extend_from_slice(&ip.to_bytes());
        frame.extend_from_slice(&tcp_bytes);
        frame
    }

        fn parse_inbound_tcp(&self, frame: &[u8]) -> (TcpHeader, Vec<u8>) {
        let _eth = EthernetHeader::parse(frame).unwrap();
        let ip = Ipv4Header::parse(&frame[ETHER_HDR_LEN..]).unwrap();
        let tcp_start = ETHER_HDR_LEN + IPV4_HDR_LEN;
        let tcp_end = ETHER_HDR_LEN + ip.total_len as usize;
        let data_offset = frame[tcp_start + 12] >> 4;
        let tcp_hdr_end = tcp_start + 4 * data_offset as usize;
        let payload = frame[tcp_hdr_end..tcp_end].to_vec();
        let tcp =
            TcpHeader::parse(&frame[tcp_start..tcp_hdr_end], &payload, ip.src, ip.dst).unwrap();
        (tcp, payload)
    }
}

#[test]
fn test_e2e_guest_arp_then_tcp_then_http_get_returns_mmds_payload() {
    let mut mmds = Mmds::new(8192);
    mmds.put_json(
        r#"{
            "latest": {
                "meta-data": {
                    "instance-id": "i-1234567890abcdef0",
                    "instance-type": "squib.demo",
                    "local-hostname": "guest"
                }
            }
        }"#,
    )
    .unwrap();
    let interceptor = MmdsInterceptor::new(mmds, TokenStore::new());

    let mut guest = GuestStub::new(interceptor);

    guest.arp_for_server();

    let client_isn: u32 = 0x1000_0000;
    let syn = guest.build_tcp_frame(40000, 80, client_isn, 0, TCP_SYN, &[], 1);
    assert!(guest.interceptor.intercept(&syn, || random(5)));
    let replies = guest.drain();
    assert_eq!(replies.len(), 1, "expected SYN-ACK");
    let (syn_ack, _) = guest.parse_inbound_tcp(&replies[0]);
    assert!(syn_ack.is_syn() && syn_ack.is_ack());
    assert_eq!(syn_ack.ack, client_isn + 1);
    let server_isn = syn_ack.seq;

    let ack_only =
        guest.build_tcp_frame(40000, 80, client_isn + 1, server_isn + 1, TCP_ACK, &[], 2);
    assert!(guest.interceptor.intercept(&ack_only, || random(5)));
    assert!(guest.drain().is_empty());

    let request = b"GET /latest/meta-data/instance-id HTTP/1.1\r\nHost: 169.254.169.254\r\n\r\n";
    let data = guest.build_tcp_frame(
        40000,
        80,
        client_isn + 1,
        server_isn + 1,
        TCP_ACK | TCP_PSH,
        request,
        3,
    );
    assert!(guest.interceptor.intercept(&data, || random(5)));
    let replies = guest.drain();

    assert!(
        replies.len() >= 2,
        "expected ACK + response, got {}",
        replies.len()
    );
    let ack_frame = guest.parse_inbound_tcp(&replies[0]);
    assert!(ack_frame.0.is_ack() && !ack_frame.0.is_fin());
    assert!(ack_frame.1.is_empty());

    let (resp_tcp, resp_payload) = guest.parse_inbound_tcp(&replies[replies.len() - 1]);
    assert!(resp_tcp.is_fin(), "response segment should carry FIN");
    let body_str = String::from_utf8_lossy(&resp_payload);
    assert!(
        body_str.starts_with("HTTP/1.1 200 OK"),
        "response not 200: {body_str}"
    );
    assert!(
        body_str.contains("\"i-1234567890abcdef0\""),
        "response body missing instance-id: {body_str}"
    );

    let final_ack = guest.build_tcp_frame(
        40000,
        80,
        client_isn + 1 + request.len() as u32,
        resp_tcp.seq + resp_payload.len() as u32 + 1,
        TCP_ACK,
        &[],
        4,
    );
    assert!(guest.interceptor.intercept(&final_ack, || random(5)));
    assert!(guest.drain().is_empty());
}

#[test]
fn test_e2e_v2_get_requires_token_then_succeeds_with_one() {
    let mut mmds = Mmds::new(8192);
    mmds.put_json(r#"{"latest":{"meta-data":{"foo":"bar"}}}"#)
        .unwrap();
    mmds.set_version(MmdsVersion::V2);
    let interceptor = MmdsInterceptor::new(mmds, TokenStore::new());
    let mut guest = GuestStub::new(interceptor);

    guest.arp_for_server();

    let client_isn: u32 = 0x2000_0000;
    let syn = guest.build_tcp_frame(50000, 80, client_isn, 0, TCP_SYN, &[], 1);
    guest.interceptor.intercept(&syn, || random(5));
    let replies = guest.drain();
    let (syn_ack, _) = guest.parse_inbound_tcp(&replies[0]);
    let server_isn = syn_ack.seq;
    let ack = guest.build_tcp_frame(50000, 80, client_isn + 1, server_isn + 1, TCP_ACK, &[], 2);
    guest.interceptor.intercept(&ack, || random(5));
    let _ = guest.drain();

    let req_no_token = b"GET /latest/meta-data/foo HTTP/1.1\r\nHost: m\r\n\r\n";
    let data = guest.build_tcp_frame(
        50000,
        80,
        client_isn + 1,
        server_isn + 1,
        TCP_ACK | TCP_PSH,
        req_no_token,
        3,
    );
    guest.interceptor.intercept(&data, || random(5));
    let replies = guest.drain();
    let (_, resp) = guest.parse_inbound_tcp(&replies[replies.len() - 1]);
    let body = String::from_utf8_lossy(&resp);
    assert!(body.starts_with("HTTP/1.1 401"));
}

#[test]
fn random_bytes_are_drawn_for_tokens_only() {
    let mut guest = GuestStub::new(MmdsInterceptor::new(Mmds::new(8192), TokenStore::new()));
    guest.arp_for_server();
    let requests: [(&[u8], u32); 3] = [
        (b"GET / HTTP/1.1\r\nHost: m\r\n\r\n", 0),
        (b"PUT /latest/api/token HTTP/1.1\r\nHost: m\r\n\r\n", 0),
        (
            b"PUT /latest/api/token HTTP/1.1\r\nX-aws-ec2-metadata-token-ttl-seconds: 60\r\n\r\n",
            1,
        ),
    ];
    for (i, (request, expected)) in requests.iter().enumerate() {
        let port = 41000 + i as u16;
        let mut drawn = 0;
        let isn: u32 = 0x4000_0000;
        let syn = guest.build_tcp_frame(port, 80, isn, 0, TCP_SYN, &[], 1);
        assert!(guest.interceptor.intercept(&syn, || {
            drawn += 1;
            random(5)
        }));
        let replies = guest.drain();
        let (syn_ack, _) = guest.parse_inbound_tcp(&replies[0]);
        let data = guest.build_tcp_frame(
            port,
            80,
            isn + 1,
            syn_ack.seq + 1,
            TCP_ACK | TCP_PSH,
            request,
            2,
        );
        assert!(guest.interceptor.intercept(&data, || {
            drawn += 1;
            random(5)
        }));
        assert!(!guest.drain().is_empty());
        assert_eq!(drawn, *expected, "request {i}");
    }
    assert_eq!(guest.interceptor.tokens().len(), 1);
}

#[test]
fn test_e2e_handles_pipelined_segments_arriving_separately() {
    let mut mmds = Mmds::new(8192);
    mmds.put_json(r#"{"a":1}"#).unwrap();
    let interceptor = MmdsInterceptor::new(mmds, TokenStore::new());
    let mut guest = GuestStub::new(interceptor);
    guest.arp_for_server();

    let client_isn: u32 = 0x3000_0000;
    let syn = guest.build_tcp_frame(60000, 80, client_isn, 0, TCP_SYN, &[], 1);
    guest.interceptor.intercept(&syn, || random(5));
    let replies = guest.drain();
    let (syn_ack, _) = guest.parse_inbound_tcp(&replies[0]);
    let server_isn = syn_ack.seq;
    let ack = guest.build_tcp_frame(60000, 80, client_isn + 1, server_isn + 1, TCP_ACK, &[], 2);
    guest.interceptor.intercept(&ack, || random(5));
    let _ = guest.drain();

    let chunks: [&[u8]; 3] = [b"GET /a ", b"HTTP/1.1\r\nHost: x\r\n", b"\r\n"];
    let mut next_seq = client_isn + 1;
    let mut last_resp: Option<Vec<u8>> = None;
    for (i, chunk) in chunks.iter().enumerate() {
        let frame = guest.build_tcp_frame(
            60000,
            80,
            next_seq,
            server_isn + 1,
            TCP_ACK | TCP_PSH,
            chunk,
            10 + i as u16,
        );
        guest.interceptor.intercept(&frame, || random(5));
        next_seq = next_seq.wrapping_add(chunk.len() as u32);
        let replies = guest.drain();
        for r in replies {
            let (tcp, payload) = guest.parse_inbound_tcp(&r);
            if !payload.is_empty() && tcp.is_fin() {
                last_resp = Some(payload);
            }
        }
    }
    let body = last_resp.expect("expected an HTTP response after the final chunk");
    let body_str = String::from_utf8_lossy(&body);
    assert!(body_str.starts_with("HTTP/1.1 200"), "got {body_str}");
    assert!(body_str.contains('1'));
}

#[test]
fn out_of_order_segments_are_acknowledged_and_dropped() {
    let mut s = make_server();
    let client = [10, 0, 0, 1];
    let server = [169, 254, 169, 254];
    s.handle_ip_frame([6; 6], &build_ip_tcp(client, server, 40000, 80, 1000, 0, TCP_SYN, &[]));
    let out = s.drain_outbound();
    let (_, syn_ack, _) = parse_outbound_tcp(&out[0], client);
    let ack = syn_ack.seq.wrapping_add(1);
    s.handle_ip_frame([6; 6], &build_ip_tcp(client, server, 40000, 80, 1001, ack, TCP_ACK, &[]));
    let late = build_ip_tcp(client, server, 40000, 80, 1005, ack, TCP_ACK | TCP_PSH, b"late");
    s.handle_ip_frame([6; 6], &late);
    for frame in s.drain_outbound() {
        let (_, tcp, payload) = parse_outbound_tcp(&frame, client);
        assert_eq!(tcp.ack, 1001);
        assert!(payload.is_empty());
    }
}

#[test]
fn responses_are_laid_out_as_http() {
    let wire = HttpResponse { status: 404, body: b"no".to_vec() }.to_wire();
    let text = String::from_utf8(wire).unwrap();
    assert!(text.starts_with("HTTP/1.1 404 Not Found\r\n"), "{text}");
    assert!(text.contains("Content-Length: 2\r\n"), "{text}");
    assert!(text.ends_with("\r\n\r\nno"), "{text}");
}

fn parse(text: &str) -> HttpRequest {
    match try_parse_http(text.as_bytes()) {
        HttpParseOutcome::Complete(req) => req,
        other => panic!("{other:?}"),
    }
}

#[test]
fn requests_carry_their_headers_and_body() {
    let req = parse(
        "PUT /latest/api/token HTTP/1.1\r\nX-AWS-EC2-Metadata-Token-TTL-Seconds: 60\r\n\
         Content-Length: 3\r\n\r\nabc",
    );
    assert_eq!(req.method, "PUT");
    assert_eq!(req.path, "/latest/api/token");
    assert_eq!(req.ttl_header, Some(60));
    assert_eq!(req.token_header, None);
    assert_eq!(req.body, b"abc");
    let req = parse("GET / HTTP/1.1\r\nx-aws-ec2-metadata-token:  t0k \r\n\r\n");
    assert_eq!(req.token_header, Some("t0k".to_string()));
}

#[test]
fn announced_bodies_are_bounded_and_waited_for() {
    let waiting = b"PUT / HTTP/1.1\r\nContent-Length: 3\r\n\r\nab";
    assert!(matches!(try_parse_http(waiting), HttpParseOutcome::Incomplete));
    let huge = b"PUT / HTTP/1.1\r\nContent-Length: 18446744073709551615\r\n\r\n";
    assert!(matches!(try_parse_http(huge), HttpParseOutcome::TooLarge));
    assert!(matches!(try_parse_http(b"\r\n\r\n"), HttpParseOutcome::Malformed));
}

#[test]
fn subsequences_are_found_at_their_first_place() {
    assert_eq!(find_subsequence(b"abcabc", b"ca"), Some(2));
    assert_eq!(find_subsequence(b"abcabc", b"bc"), Some(1));
    assert_eq!(find_subsequence(b"ab", b"abc"), None);
}

#[test]
fn tokens_live_as_long_as_they_were_issued_for() {
    let mut s = TokenStore::new();
    let second = 1_000_000_000u64;
    let t = s.issue_at(60, random(1), second).unwrap();
    let u = s.issue_at(600, random(2), second).unwrap();
    assert!(s.validate_at(t.as_str(), 60 * second));
    assert!(!s.validate_at(t.as_str(), 62 * second));
    assert!(s.validate_at(u.as_str(), 62 * second));
    assert_eq!(s.len(), 1);
    assert_eq!(t.as_str(), base64url_no_pad(&[1; 32]));
    assert_eq!(t.as_str().len(), 43);
}

#[test]
fn token_errors_have_text() {
    let mut s = TokenStore::new();
    let err = s.issue(0, random(1)).unwrap_err();
    assert_eq!(err.message(), "token TTL 0 outside [1, 21600]");
    let err = s.issue(60, Err("no device".to_string())).unwrap_err();
    assert!(matches!(err, TokenStoreError::Entropy(_)));
    assert_eq!(err.message(), "failed to read OS entropy: no device");
    assert!(s.is_empty());
    assert!(s.issue(MIN_TTL_SECONDS, random(2)).is_ok());
    assert!(s.issue(MAX_TTL_SECONDS, random(3)).is_ok());
}

#[test]
fn base64url_uses_the_url_alphabet() {
    assert_eq!(base64url_no_pad(&[0xFB, 0xFF, 0xBF]), "-_-_");
}

#[test]
fn data_errors_have_text() {
    let mut m = Mmds::new(8);
    let err = m.put_json(r#"{"key":"too-large"}"#).unwrap_err();
    assert_eq!(err.message(), "MMDS body exceeds size cap of 8 bytes (got 19)");
    let err = m.get_at_pointer("/missing").unwrap_err();
    assert_eq!(err.message(), "MMDS path not found: /missing");
    assert!(matches!(m.get_at_pointer("missing"), Err(MmdsError::PathNotFound(_))));
    let err = MmdsError::InvalidPointer("missing".to_string());
    assert_eq!(err.message(), "invalid JSON pointer: missing");
    let err = m.put_json("{").unwrap_err();
    assert_eq!(
        err.message(),
        "invalid JSON body: EOF while parsing an object at line 1 column 1"
    );
    let err = m.patch_json("[1").unwrap_err();
    assert_eq!(
        err.message(),
        "invalid JSON body: EOF while parsing a list at line 1 column 2"
    );
}

#[test]
fn the_cap_is_on_the_body_and_on_the_tree_as_it_is_written_out() {
    let mut m = Mmds::new(9);
    m.put_json("{ \"a\":1 }").unwrap();
    assert_eq!(m.get_root().to_string(), r#"{"a":1}"#);
    let err = m.put_json("{  \"a\":2 }").unwrap_err();
    assert!(matches!(err, MmdsError::SizeLimitExceeded { cap: 9, got: 10 }));
    let err = m.put_json("no json at all").unwrap_err();
    assert!(matches!(err, MmdsError::SizeLimitExceeded { cap: 9, got: 14 }));
    let err = m.put_json("no json").unwrap_err();
    assert!(matches!(err, MmdsError::InvalidJson(_)));
    assert_eq!(m.get_root().to_string(), r#"{"a":1}"#);
    let mut m = Mmds::new(3);
    let err = m.put_json("1e2").unwrap_err();
    assert!(matches!(err, MmdsError::SizeLimitExceeded { cap: 3, got: 5 }));
    assert_eq!(m.get_root().to_string(), "{}");
    assert!(m.replace(json("123")).is_ok());
    assert!(matches!(
        m.replace(json("1234")),
        Err(MmdsError::SizeLimitExceeded { cap: 3, got: 4 })
    ));
    assert_eq!(m.get_root().to_string(), "123");
}

#[test]
fn a_token_issued_twice_is_stored_once() {
    let mut s = TokenStore::new();
    let a = s.issue_at(60, random(7), 0).unwrap();
    let b = s.issue_at(30, random(7), 0).unwrap();
    assert_eq!(a, b);
    assert_eq!(s.len(), 1);
    assert!(s.validate_at(a.as_str(), 29_999_999_999));
    assert!(!s.validate_at(a.as_str(), 30_000_000_000));
    assert!(s.is_empty());
}

#[test]
fn refused_changes_leave_the_data() {
    let mut m = Mmds::new(16);
    m.put_json(r#"{"a":1}"#).unwrap();
    assert!(m.put_json("[").is_err());
    assert!(m.patch_json(r#"{"b":"0123456789"}"#).is_err());
    assert_eq!(m.get_root().to_string(), r#"{"a":1}"#);
    assert_eq!(m.get_at_pointer("").unwrap(), m.get_root());
    assert_eq!(m.get_at_pointer("/").unwrap(), m.get_root());
}

fn json(text: &str) -> serde_json::Value {
    serde_json::from_str(text).unwrap()
}

#[test]
fn patches_follow_the_examples_of_rfc_7396() {
    for (target, patch, result) in [
        (r#"{"a":"b"}"#, r#"{"a":"c"}"#, r#"{"a":"c"}"#),
        (r#"{"a":"b"}"#, r#"{"b":"c"}"#, r#"{"a":"b","b":"c"}"#),
        (r#"{"a":"b"}"#, r#"{"a":null}"#, r#"{}"#),
        (r#"{"a":"b","b":"c"}"#, r#"{"a":null}"#, r#"{"b":"c"}"#),
        (r#"{"a":["b"]}"#, r#"{"a":"c"}"#, r#"{"a":"c"}"#),
        (r#"{"a":"c"}"#, r#"{"a":["b"]}"#, r#"{"a":["b"]}"#),
        (r#"{"a":{"b":"c"}}"#, r#"{"a":{"b":"d","c":null}}"#, r#"{"a":{"b":"d"}}"#),
        (r#"{"a":[{"b":"c"}]}"#, r#"{"a":[1]}"#, r#"{"a":[1]}"#),
        (r#"["a","b"]"#, r#"["c","d"]"#, r#"["c","d"]"#),
        (r#"{"a":"b"}"#, r#"["c"]"#, r#"["c"]"#),
        (r#"{"a":"foo"}"#, r#"null"#, r#"null"#),
        (r#"{"a":"foo"}"#, r#""bar""#, r#""bar""#),
        (r#"{"e":null}"#, r#"{"a":1}"#, r#"{"e":null,"a":1}"#),
        (r#"[1,2]"#, r#"{"a":"b","c":null}"#, r#"{"a":"b"}"#),
        (r#"{}"#, r#"{"a":{"bb":{"ccc":null}}}"#, r#"{"a":{"bb":{}}}"#),
    ] {
        assert_eq!(merge_patch(Some(json(target)), &json(patch)), json(result), "{patch}");
    }
}

#[test]
fn every_packet_for_the_service_is_taken() {
    let mut int = interceptor();
    let mut frame = build_ipv4_tcp_syn_frame([10, 0, 0, 1], mmds_default_ipv4());
    let last = frame.len() - 1;
    frame[last] ^= 0xFF;
    assert!(int.intercept(&frame, || random(3)));
    assert!(int.drain_rx().is_empty());
}

#[test]
fn service_limits_are_reported() {
    let mut int = interceptor();
    let long = format!("/{}", "a".repeat(1024));
    assert_eq!(int.service_http("GET", &long, None, None, b"", random(1)).0, 414);
    assert_eq!(int.service_http("GET", "/a\u{1}", None, None, b"", random(1)).0, 400);
    let body = vec![0u8; 8193];
    assert_eq!(int.service_http("GET", "/", None, None, &body, random(1)).0, 413);
    assert_eq!(int.service_http("PUT", "/latest/api/token", None, None, b"", random(1)).0, 400);
    assert_eq!(int.service_http("PUT", "/latest/api/token", None, Some(0), b"", random(1)).0, 400);
    assert_eq!(int.service_http("DELETE", "/", None, None, b"", random(1)).0, 405);
    assert!(path_charset_ok("/latest/meta-data"));
    assert!(!path_charset_ok("/a\0"));
}

#[test]
fn service_moves_with_its_address() {
    let mut int = interceptor().with_ipv4([169, 254, 1, 1]);
    let old = build_arp_request_frame([6; 6], [10, 0, 0, 2], mmds_default_ipv4());
    let new = build_arp_request_frame([6; 6], [10, 0, 0, 2], [169, 254, 1, 1]);
    assert!(!int.intercept(&old, || random(1)));
    assert!(int.intercept(&new, || random(1)));
    int.set_ipv4(mmds_default_ipv4());
    assert!(int.intercept(&old, || random(1)));
    assert_eq!(int.drain_rx().len(), 2);
    let fin = TcpHeader::build(1, 2, 3, 4, TCP_FIN, 5);
    assert!(fin.is_fin());
}
