//! Packets on the wire.

use squib::mmds::pdu::ipv4::{IpProtocol, Ipv4Header};
use squib::mmds::pdu::tcp::{TcpHeader, TCP_ACK, TCP_FIN, TCP_HDR_LEN, TCP_PSH, TCP_RST, TCP_SYN};
use squib::mmds::pdu::{
    build_arp_reply_frame, ones_complement_sum, ArpPacket, EthernetHeader, PduError, ARP_OP_REPLY,
    ARP_OP_REQUEST, ETHERTYPE_ARP, ETHER_HDR_LEN,
};

fn build_arp_request_frame(
    sender_mac: [u8; 6],
    sender_ip: [u8; 4],
    target_ip: [u8; 4],
) -> Vec<u8> {
    let eth = EthernetHeader {
        dst: [0xFF; 6], // broadcast
        src: sender_mac,
        ethertype: ETHERTYPE_ARP,
    };
    let arp = ArpPacket {
        op: ARP_OP_REQUEST,
        sender_mac,
        sender_ip,
        target_mac: [0u8; 6],
        target_ip,
    };
    let mut frame = Vec::new();
    frame.extend_from_slice(&eth.to_bytes());
    frame.extend_from_slice(&arp.to_bytes());
    frame
}

#[test]
fn test_should_round_trip_ethernet_header() {
    let h = EthernetHeader {
        dst: [0x06, 0x01, 0x23, 0x45, 0x67, 0x01],
        src: [0x06, 0x00, 0xAA, 0xBB, 0xCC, 0xDD],
        ethertype: ETHERTYPE_ARP,
    };
    let parsed = EthernetHeader::parse(&h.to_bytes()).unwrap();
    assert_eq!(parsed.dst, h.dst);
    assert_eq!(parsed.src, h.src);
    assert_eq!(parsed.ethertype, h.ethertype);
}

#[test]
fn test_should_reject_short_frame_for_eth_parse() {
    assert!(EthernetHeader::parse(&[0u8; 13]).is_err());
}

#[test]
fn test_should_round_trip_arp_packet() {
    let a = ArpPacket {
        op: ARP_OP_REQUEST,
        sender_mac: [1, 2, 3, 4, 5, 6],
        sender_ip: [169, 254, 1, 2],
        target_mac: [0; 6],
        target_ip: [169, 254, 169, 254],
    };
    let parsed = ArpPacket::parse(&a.to_bytes()).unwrap();
    assert_eq!(parsed.op, a.op);
    assert_eq!(parsed.sender_mac, a.sender_mac);
    assert_eq!(parsed.target_ip, a.target_ip);
}

#[test]
fn test_should_reject_arp_with_unexpected_htype() {
    let mut bytes = ArpPacket {
        op: ARP_OP_REQUEST,
        sender_mac: [0; 6],
        sender_ip: [0; 4],
        target_mac: [0; 6],
        target_ip: [0; 4],
    }
    .to_bytes();
    bytes[1] = 0xFF; // bogus htype
    assert!(ArpPacket::parse(&bytes).is_err());
}

#[test]
fn test_should_build_arp_reply_with_swapped_addresses() {
    let req = build_arp_request_frame(
        [0x06, 0x00, 0xAB, 0xCD, 0xEF, 0x01],
        [192, 168, 1, 2],
        [169, 254, 169, 254],
    );
    let req_eth = EthernetHeader::parse(&req).unwrap();
    let req_arp = ArpPacket::parse(&req[ETHER_HDR_LEN..]).unwrap();
    let reply = build_arp_reply_frame(
        [0x06, 0x01, 0x23, 0x45, 0x67, 0x01],
        req_arp.target_ip,
        req_eth.src,
        req_arp.sender_ip,
    );
    let reply_eth = EthernetHeader::parse(&reply).unwrap();
    let reply_arp = ArpPacket::parse(&reply[ETHER_HDR_LEN..]).unwrap();
    assert_eq!(reply_eth.dst, req_eth.src);
    assert_eq!(reply_arp.op, ARP_OP_REPLY);
    assert_eq!(reply_arp.sender_mac, [0x06, 0x01, 0x23, 0x45, 0x67, 0x01]);
    assert_eq!(reply_arp.sender_ip, [169, 254, 169, 254]);
    assert_eq!(reply_arp.target_mac, req_eth.src);
}

#[test]
fn test_should_round_trip_a_well_formed_ipv4_header() {
    let h = Ipv4Header::build(
        [10, 0, 0, 1],
        [169, 254, 169, 254],
        IpProtocol::Tcp,
        40,
        0xBEEF,
    );
    let bytes = h.to_bytes();
    let parsed = Ipv4Header::parse(&bytes).unwrap();
    assert_eq!(parsed.src, [10, 0, 0, 1]);
    assert_eq!(parsed.dst, [169, 254, 169, 254]);
    assert_eq!(parsed.protocol, IpProtocol::Tcp.to_wire());
    assert_eq!(parsed.id, 0xBEEF);
    assert_eq!(parsed.total_len, 60);
}

#[test]
fn ipv4_test_should_reject_short_header() {
    assert!(matches!(
        Ipv4Header::parse(&[0u8; 19]),
        Err(PduError::TooShort)
    ));
}

#[test]
fn test_should_reject_ipv6_version() {
    let mut h = Ipv4Header::build([0; 4], [0; 4], IpProtocol::Tcp, 0, 0);
    h.version_ihl = (6 << 4) | 5;
    let mut bytes = h.to_bytes();
    bytes[0] = (6 << 4) | 5;
    bytes[10] = 0;
    bytes[11] = 0;
    let csum = ones_complement_sum(&bytes);
    bytes[10..12].copy_from_slice(&csum.to_be_bytes());
    assert!(matches!(
        Ipv4Header::parse(&bytes),
        Err(PduError::Unsupported(_))
    ));
}

#[test]
fn ipv4_test_should_reject_bad_checksum() {
    let h = Ipv4Header::build([1; 4], [2; 4], IpProtocol::Tcp, 20, 1);
    let mut bytes = h.to_bytes();
    bytes[10] ^= 0xFF;
    assert!(matches!(
        Ipv4Header::parse(&bytes),
        Err(PduError::BadChecksum)
    ));
}

#[test]
fn test_should_reject_fragmented_packets() {
    let h = Ipv4Header::build([0; 4], [0; 4], IpProtocol::Tcp, 0, 0);
    let mut bytes = h.to_bytes();
    bytes[6] = 0x20;
    bytes[7] = 0;
    bytes[10] = 0;
    bytes[11] = 0;
    let csum = ones_complement_sum(&bytes);
    bytes[10..12].copy_from_slice(&csum.to_be_bytes());
    assert!(matches!(
        Ipv4Header::parse(&bytes),
        Err(PduError::Unsupported(_))
    ));
}

#[test]
fn test_payload_len_subtracts_header() {
    let h = Ipv4Header::build([0; 4], [0; 4], IpProtocol::Tcp, 100, 0);
    assert_eq!(h.payload_len(), 100);
}

fn syn_segment() -> TcpHeader {
    TcpHeader::build(40000, 80, 0x1234_5678, 0, TCP_SYN, 65535)
}

#[test]
fn test_should_round_trip_a_syn_segment() {
    let src = [10, 0, 0, 1];
    let dst = [169, 254, 169, 254];
    let h = syn_segment();
    let bytes = h.to_bytes_header_only(src, dst);
    let parsed = TcpHeader::parse(&bytes, &[], src, dst).unwrap();
    assert_eq!(parsed.src_port, 40000);
    assert_eq!(parsed.dst_port, 80);
    assert!(parsed.is_syn());
    assert_eq!(parsed.seq, 0x1234_5678);
}

#[test]
fn test_should_round_trip_segment_with_payload() {
    let src = [192, 168, 1, 1];
    let dst = [192, 168, 1, 2];
    let h = TcpHeader::build(1234, 5678, 100, 200, TCP_ACK | TCP_PSH, 1024);
    let payload = b"GET / HTTP/1.1\r\nHost: a\r\n\r\n";
    let bytes = h.to_bytes_with_payload(src, dst, payload);
    let parsed = TcpHeader::parse(&bytes[..TCP_HDR_LEN], payload, src, dst).unwrap();
    assert!(parsed.is_ack());
    assert_eq!(parsed.flags & TCP_PSH, TCP_PSH);
    assert_eq!(parsed.window, 1024);
}

#[test]
fn tcp_test_should_reject_bad_checksum() {
    let src = [10, 0, 0, 1];
    let dst = [169, 254, 169, 254];
    let h = syn_segment();
    let mut bytes = h.to_bytes_header_only(src, dst);
    bytes[16] ^= 0xFF;
    assert!(matches!(
        TcpHeader::parse(&bytes, &[], src, dst),
        Err(PduError::BadChecksum)
    ));
}

#[test]
fn test_should_parse_mss_option() {
    let src = [1, 1, 1, 1];
    let dst = [2, 2, 2, 2];
    let mut bytes = TcpHeader::build(1, 2, 0, 0, TCP_SYN, 0).to_bytes_header_only(src, dst);
    bytes[12] = 6 << 4;
    bytes.extend_from_slice(&[2, 4, 0x05, 0xB4]); // MSS=1460
    let payload = &[];
    bytes[16] = 0;
    bytes[17] = 0;
    let mut sum_buf = Vec::new();
    sum_buf.extend_from_slice(&src);
    sum_buf.extend_from_slice(&dst);
    sum_buf.extend_from_slice(&[0, IpProtocol::Tcp.to_wire()]);
    let tcp_len = u16::try_from(bytes.len()).unwrap();
    sum_buf.extend_from_slice(&tcp_len.to_be_bytes());
    sum_buf.extend_from_slice(&bytes);
    let csum = ones_complement_sum(&sum_buf);
    bytes[16..18].copy_from_slice(&csum.to_be_bytes());

    let parsed = TcpHeader::parse(&bytes, payload, src, dst).unwrap();
    assert_eq!(parsed.mss, Some(1460));
}

#[test]
fn tcp_test_should_reject_short_header() {
    assert!(matches!(
        TcpHeader::parse(&[0u8; 10], &[], [0; 4], [0; 4]),
        Err(PduError::TooShort)
    ));
}

#[test]
fn checksum_of_known_bytes() {
    // The worked example of RFC 1071.
    let bytes = [0x00, 0x01, 0xF2, 0x03, 0xF4, 0xF5, 0xF6, 0xF7];
    assert_eq!(ones_complement_sum(&bytes), !0xDDF2);
    assert_eq!(ones_complement_sum(&[]), 0xFFFF);
    assert_eq!(ones_complement_sum(&[0x12]), !0x1200);
}

#[test]
fn checksum_of_long_input_keeps_its_carries() {
    let bytes = vec![0xFFu8; 0x40_0000];
    assert_eq!(ones_complement_sum(&bytes), 0);
}

#[test]
fn packet_errors_have_text() {
    assert_eq!(PduError::TooShort.message(), "PDU too short");
    assert_eq!(PduError::BadChecksum.message(), "PDU checksum mismatch");
    assert_eq!(PduError::Unsupported("x").message(), "PDU has unsupported field: x");
}

#[test]
fn protocol_numbers_round_trip() {
    for p in [IpProtocol::Icmp, IpProtocol::Tcp, IpProtocol::Udp] {
        assert_eq!(IpProtocol::from_wire(p.to_wire()), Some(p));
    }
    assert_eq!(IpProtocol::Tcp.to_wire(), 6);
    assert_eq!(IpProtocol::from_wire(200), None);
}

#[test]
fn segment_flags_are_told_apart() {
    let h = TcpHeader::build(1, 2, 3, 4, TCP_FIN | TCP_RST, 5);
    assert!(h.is_fin() && h.is_rst() && !h.is_syn() && !h.is_ack());
}

#[test]
fn segment_checksum_covers_addresses_and_payload() {
    let src = [10, 0, 0, 1];
    let dst = [10, 0, 0, 2];
    let h = TcpHeader::build(1, 2, 3, 4, TCP_ACK, 5);
    let bytes = h.to_bytes_with_payload(src, dst, b"abc");
    assert!(TcpHeader::parse(&bytes[..TCP_HDR_LEN], b"abc", src, dst).is_ok());
    assert!(matches!(
        TcpHeader::parse(&bytes[..TCP_HDR_LEN], b"abd", src, dst),
        Err(PduError::BadChecksum)
    ));
    assert!(matches!(
        TcpHeader::parse(&bytes[..TCP_HDR_LEN], b"abc", src, [10, 0, 0, 3]),
        Err(PduError::BadChecksum)
    ));
}
