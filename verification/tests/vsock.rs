//! Streams between host clients and the guest.

use squib::vsock_client::{ClientAction, ClientEvent, ClientPhase, HostClient};
use squib::vsock_muxer::{
    derive_port_path, open_reply, read_chunk, Preamble, PreambleStep, UdsVsockMuxer, VsockHeader, VsockOp,
    VsockPacket, DEFAULT_BUF_ALLOC, FIRST_HOST_PORT, RW_CHUNK_BYTES, SHUTDOWN_BOTH, TYPE_STREAM,
    VMADDR_CID_HOST,
};

fn guest_packet(op: VsockOp, host_port: u32, guest_port: u32, payload: &[u8]) -> VsockPacket {
    VsockPacket {
        hdr: VsockHeader {
            src_cid: 3,
            dst_cid: VMADDR_CID_HOST,
            src_port: guest_port,
            dst_port: host_port,
            len: payload.len() as u32,
            type_: TYPE_STREAM,
            op,
            flags: 0,
            buf_alloc: 100,
            fwd_cnt: 0,
        },
        payload: payload.to_vec(),
    }
}

#[test]
fn test_should_reject_guest_initiated_connection_with_rst() {
    let mut muxer = UdsVsockMuxer::new(3);
    let pkt = VsockPacket {
        hdr: VsockHeader {
            src_cid: 3,
            dst_cid: VMADDR_CID_HOST,
            src_port: 4000,
            dst_port: 99,
            len: 0,
            type_: TYPE_STREAM,
            op: VsockOp::Request,
            flags: 0,
            buf_alloc: 0,
            fwd_cnt: 0,
        },
        payload: Vec::new(),
    };
    let reply = muxer.handle_tx(pkt).replies;
    assert_eq!(reply.len(), 1);
    assert_eq!(reply[0].hdr.op, VsockOp::Rst);
    assert_eq!(reply[0].hdr.src_port, 99);
    assert_eq!(reply[0].hdr.dst_port, 4000);
    assert_eq!(reply[0].hdr.src_cid, VMADDR_CID_HOST);
    assert_eq!(reply[0].hdr.dst_cid, 3);
}

#[test]
fn each_port_has_a_socket_of_its_own() {
    assert_eq!(derive_port_path(b"/tmp/vsock.sock", 5001), b"/tmp/vsock.sock_5001");
    assert_eq!(derive_port_path(b"/tmp/vsock.sock", 5003), b"/tmp/vsock.sock_5003");
}

#[test]
fn a_stream_lives_from_its_opening_to_its_end() {
    let mut m = UdsVsockMuxer::new(3);
    let port = m.open_stream(5001);
    assert_eq!(port, FIRST_HOST_PORT);
    let rx = m.drain_rx();
    assert_eq!(rx.len(), 1);
    assert_eq!(rx[0].hdr.op, VsockOp::Request);
    assert_eq!((rx[0].hdr.src_port, rx[0].hdr.dst_port), (port, 5001));
    assert_eq!(rx[0].hdr.buf_alloc, DEFAULT_BUF_ALLOC);
    assert_eq!(m.credit_bytes(port, 5001), Some(0));

    let a = m.handle_tx(guest_packet(VsockOp::Response, port, 5001, b""));
    assert!(a.accepted && a.wake_reader);
    assert_eq!(open_reply(port, 5001, true), format!("OK {port}\n"));
    assert_eq!(m.credit_bytes(port, 5001), Some(100));

    assert!(m.client_data(port, 5001, b"hello".to_vec()));
    assert_eq!(m.credit_bytes(port, 5001), Some(95));
    let rx = m.drain_rx();
    assert_eq!(rx.len(), 1);
    assert_eq!(rx[0].payload, b"hello");
    assert_eq!((rx[0].hdr.op, rx[0].hdr.len), (VsockOp::Rw, 5));

    let a = m.handle_tx(guest_packet(VsockOp::Rw, port, 5001, b"reply!"));
    assert_eq!(a.forward.unwrap(), b"reply!");
    assert!(a.rx_ready);
    let rx = m.drain_rx();
    assert_eq!((rx[0].hdr.op, rx[0].hdr.fwd_cnt), (VsockOp::CreditUpdate, 6));

    m.client_closed(port, 5001);
    let rx = m.drain_rx();
    assert_eq!((rx[0].hdr.op, rx[0].hdr.flags), (VsockOp::Shutdown, SHUTDOWN_BOTH));
    assert_eq!(rx[0].hdr.fwd_cnt, 6);
    assert_eq!(m.credit_bytes(port, 5001), None);
    assert!(!m.client_data(port, 5001, b"late".to_vec()));
}

#[test]
fn the_guest_can_refuse_and_reset() {
    let mut m = UdsVsockMuxer::new(3);
    let port = m.open_stream(5001);
    let other = m.open_stream(5001);
    assert_eq!(other, port + 1);
    assert_eq!(open_reply(port, 5001, false), "RST 5001\n");
    m.refuse(port, 5001);
    assert_eq!(m.credit_bytes(port, 5001), None);
    assert_eq!(m.credit_bytes(other, 5001), Some(0));
    assert!(m.handle_tx(guest_packet(VsockOp::Rst, other, 5001, b"")).dropped);
    assert!(!m.handle_tx(guest_packet(VsockOp::Rst, other, 5001, b"")).dropped);
    assert!(m.handle_tx(guest_packet(VsockOp::Rw, other, 5001, b"x")).forward.is_none());
}

#[test]
fn a_client_that_is_gone_gets_nothing() {
    let mut m = UdsVsockMuxer::new(3);
    let port = m.open_stream(7);
    m.drain_rx();
    m.client_gone(port, 7);
    let a = m.handle_tx(guest_packet(VsockOp::Rw, port, 7, b"x"));
    assert!(a.forward.is_none());
    assert!(m.drain_rx().is_empty());
    assert_eq!(m.credit_bytes(port, 7), None);
}

#[test]
fn credit_is_asked_for_and_given() {
    let mut m = UdsVsockMuxer::new(3);
    let port = m.open_stream(7);
    m.drain_rx();
    let a = m.handle_tx(guest_packet(VsockOp::CreditRequest, port, 7, b""));
    assert!(a.rx_ready && a.wake_reader);
    assert_eq!(m.drain_rx()[0].hdr.op, VsockOp::CreditUpdate);
    let a = m.handle_tx(guest_packet(VsockOp::CreditUpdate, port, 7, b""));
    assert!(!a.rx_ready && a.wake_reader);
    let a = m.handle_tx(guest_packet(VsockOp::Invalid, port, 7, b""));
    assert!(!a.rx_ready && !a.wake_reader && a.replies.is_empty());
    assert_eq!(read_chunk(100), 100);
    assert_eq!(read_chunk(u32::MAX), RW_CHUNK_BYTES);
}

#[test]
fn the_first_line_of_a_client_is_bounded() {
    let mut p = Preamble::new();
    for byte in *b"CONNECT 5001" {
        assert!(matches!(p.push(byte), PreambleStep::More));
    }
    assert!(matches!(p.push(b'\n'), PreambleStep::Done));
    let mut p = Preamble::new();
    for _ in 0..64 {
        assert!(matches!(p.push(b'x'), PreambleStep::More));
    }
    assert!(matches!(p.push(b'x'), PreambleStep::TooLong));
}

#[test]
fn a_client_is_led_from_its_first_line_to_its_end() {
    let mut m = UdsVsockMuxer::new(3);
    let mut c = HostClient::new(5001);
    for byte in *b"CONNECT 5001" {
        assert!(matches!(c.step(&mut m, ClientEvent::Byte(byte)), ClientAction::ReadByte));
    }
    let a = c.step(&mut m, ClientEvent::Byte(b'\n'));
    assert!(matches!(a, ClientAction::AwaitAcceptance));
    let port = c.host_port();
    assert_eq!(port, FIRST_HOST_PORT);
    assert_eq!(m.drain_rx().len(), 1);
    m.handle_tx(guest_packet(VsockOp::Response, port, 5001, b""));
    match c.step(&mut m, ClientEvent::Accepted) {
        ClientAction::WriteLine(line) => assert_eq!(line, format!("OK {port}\n")),
        other => panic!("{other:?}"),
    }
    assert!(matches!(c.step(&mut m, ClientEvent::Written), ClientAction::ReadData(100)));
    let a = c.step(&mut m, ClientEvent::Data(vec![7; 100]));
    assert!(matches!(a, ClientAction::AwaitCredit));
    assert_eq!(m.drain_rx()[0].payload, vec![7; 100]);
    let mut credit = guest_packet(VsockOp::CreditUpdate, port, 5001, b"");
    credit.hdr.fwd_cnt = 60;
    m.handle_tx(credit);
    let a = c.step(&mut m, ClientEvent::CreditChanged);
    assert!(matches!(a, ClientAction::ReadData(60)));
    assert!(matches!(c.step(&mut m, ClientEvent::Written), ClientAction::Ignore));
    assert!(matches!(c.step(&mut m, ClientEvent::Closed), ClientAction::Finish));
    assert_eq!(c.phase(), ClientPhase::Ended);
    assert_eq!(m.drain_rx()[0].hdr.op, VsockOp::Shutdown);
    assert!(matches!(c.step(&mut m, ClientEvent::Byte(0)), ClientAction::Ignore));
}

fn opened(m: &mut UdsVsockMuxer) -> HostClient {
    let mut c = HostClient::new(5001);
    c.step(m, ClientEvent::Byte(b'\n'));
    c
}

#[test]
fn a_client_is_told_of_a_refusal() {
    let mut m = UdsVsockMuxer::new(3);
    for event in [ClientEvent::Written, ClientEvent::WriteFailed] {
        let mut c = opened(&mut m);
        match c.step(&mut m, ClientEvent::NotAccepted) {
            ClientAction::WriteLine(line) => assert_eq!(line, "RST 5001\n"),
            other => panic!("{other:?}"),
        }
        assert!(matches!(c.step(&mut m, event), ClientAction::Finish));
        assert_eq!(m.credit_bytes(c.host_port(), 5001), None);
    }
}

#[test]
fn a_client_that_misbehaves_is_given_up() {
    let mut m = UdsVsockMuxer::new(3);
    let mut c = HostClient::new(1);
    match c.step(&mut m, ClientEvent::Closed) {
        ClientAction::Fail(why) => assert_eq!(why, "host closed during CONNECT preamble"),
        other => panic!("{other:?}"),
    }
    let mut c = HostClient::new(1);
    for _ in 0..64 {
        c.step(&mut m, ClientEvent::Byte(b'x'));
    }
    match c.step(&mut m, ClientEvent::Byte(b'x')) {
        ClientAction::Fail(why) => assert_eq!(why, "CONNECT line too long"),
        other => panic!("{other:?}"),
    }
    let mut c = HostClient::new(1);
    assert!(matches!(c.step(&mut m, ClientEvent::ReadFailed), ClientAction::FailIo));
    let mut c = opened(&mut m);
    c.step(&mut m, ClientEvent::Accepted);
    assert!(matches!(c.step(&mut m, ClientEvent::WriteFailed), ClientAction::FailIo));
}

#[test]
fn a_client_ends_with_its_stream() {
    let mut m = UdsVsockMuxer::new(3);
    let mut c = opened(&mut m);
    let port = c.host_port();
    m.handle_tx(guest_packet(VsockOp::Response, port, 5001, b""));
    c.step(&mut m, ClientEvent::Accepted);
    c.step(&mut m, ClientEvent::Written);
    m.handle_tx(guest_packet(VsockOp::Rst, port, 5001, b""));
    let a = c.step(&mut m, ClientEvent::Data(b"late".to_vec()));
    assert!(matches!(a, ClientAction::Finish));
}
