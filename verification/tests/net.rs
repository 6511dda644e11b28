//! Network: modes, the framework's answers, frames and the userspace helper.

use squib::net::backend::{
    collect_frames, rx_buffer_len, Frame, LoopbackHostBackend, NetHostBackend, Received,
    VmnetHostBackend,
    TX_BATCH_DEPTH,
};
use squib::net::gvproxy::{
    check_path, read_header, validate_binary_path, validate_extra_args, write_frame,
    GvproxyBackend, GvproxyError, GvproxyParams, HeaderStep, PathStat, RX_QUEUE_CAP, TX_QUEUE_CAP,
};
use squib::net::iface::{IfaceError, InterfaceParams, VmnetIface};
use squib::net::mode::{NetMode, VmnetMode};
use squib::net::sys::iface_impl::{
    build_descriptor, iface_uuid_for, parse_mac_string, queue_label, wait_budget_ns,
    DescriptorEntry, Inner, InnerError, StartOutcome, StartReply,
};
use squib::net::sys::{VmnetReturn, VMNET_SUCCESS};

#[test]
fn test_should_construct_default_params() {
    let p = GvproxyParams::new("/usr/local/libexec/squib/gvproxy");
    assert_eq!(p.max_frame_bytes, 65_536);
    assert!(p.extra_args.is_empty());
}

#[test]
fn test_should_reject_empty_binary_path() {
    let r = validate_binary_path(b"", PathStat::RegularFile);
    assert!(matches!(r, Err(GvproxyError::InvalidBinaryPath { .. })));
}

#[test]
fn test_should_reject_binary_path_with_nul_byte() {
    let r = validate_binary_path(b"/etc/p\0asswd", PathStat::RegularFile);
    assert!(matches!(r, Err(GvproxyError::InvalidBinaryPath { .. })));
}

#[test]
fn test_should_reject_extra_args_above_cap() {
    let args: Vec<String> = (0..40).map(|i| format!("--flag-{i}")).collect();
    let r = validate_extra_args(&args);
    assert!(matches!(r, Err(GvproxyError::InvalidExtraArg { .. })));
}

#[test]
fn test_should_reject_extra_arg_with_nul_byte() {
    let args = vec!["--ok".into(), "with\0nul".into()];
    let r = validate_extra_args(&args);
    assert!(matches!(r, Err(GvproxyError::InvalidExtraArg { index: 1, .. })));
}

#[test]
fn helper_paths_name_regular_files() {
    assert!(validate_binary_path(b"/bin/gvproxy", PathStat::RegularFile).is_ok());
    for stat in [PathStat::Unreadable, PathStat::Other] {
        assert!(validate_binary_path(b"/bin/gvproxy", stat).is_err());
    }
    assert!(check_path(&[b'a'; 1024]).is_ok());
    assert!(check_path(&[b'a'; 1025]).is_err());
    let args: Vec<String> = vec!["a".repeat(512)];
    assert!(validate_extra_args(&args).is_ok());
    let args: Vec<String> = vec!["a".repeat(513)];
    let err = validate_extra_args(&args).unwrap_err();
    assert!(err.message_with("").starts_with("invalid gvproxy extra arg #0: "));
}

#[test]
fn helper_errors_have_text() {
    let io = || std::io::Error::other("gone");
    for (err, text) in [
        (GvproxyError::SocketPair(io()), "socketpair failed: gone"),
        (
            GvproxyError::Spawn { path: "\"/b\"".to_string(), source: io() },
            "spawn gvproxy \"/b\": gone",
        ),
        (GvproxyError::Io(io()), "gvproxy io error: gone"),
        (
            GvproxyError::FrameTooLarge { got: 70_000, cap: 65_536 },
            "gvproxy frame too large: 70000 > 65536",
        ),
    ] {
        assert_eq!(err.message_with("gone"), text);
    }
}

#[test]
fn frames_travel_behind_their_length() {
    let bytes = write_frame(&Frame::from_slice(b"hello"));
    assert_eq!(bytes, b"\x00\x00\x00\x05hello");
    let hdr: [u8; 4] = bytes[..4].try_into().unwrap();
    assert!(matches!(read_header(&hdr, 65_536), HeaderStep::Body(5)));
    assert!(matches!(read_header(&[0, 0, 0, 0], 65_536), HeaderStep::Skip));
    assert!(matches!(read_header(&[0, 1, 0, 0], 65_536), HeaderStep::Body(65_536)));
    assert!(matches!(read_header(&[0, 1, 0, 1], 65_536), HeaderStep::Close));
}

#[test]
fn full_queues_drop_frames() {
    let mut b = GvproxyBackend::new();
    for i in 0..=RX_QUEUE_CAP {
        b.frame_received(Frame::from_bytes(vec![(i % 256) as u8, (i / 256) as u8]));
    }
    let got = b.recv();
    assert_eq!(got.len(), RX_QUEUE_CAP);
    assert_eq!(got[0].bytes, vec![1, 0]);
    assert_eq!(got[RX_QUEUE_CAP - 1].bytes, vec![0, 1]);
    assert!(b.recv().is_empty());
    for i in 0..=TX_QUEUE_CAP {
        b.send(Frame::from_bytes(vec![(i % 256) as u8, (i / 256) as u8]));
    }
    for i in 0..TX_QUEUE_CAP {
        assert_eq!(b.next_outgoing().unwrap().bytes[0], (i % 256) as u8);
    }
    assert!(b.next_outgoing().is_none());
}

#[test]
fn test_should_loopback_round_trip_through_net_host_backend() {
    let mut backend = NetHostBackend::Loopback(LoopbackHostBackend::default());
    backend.send(Frame::from_slice(b"hello"));
    let got = match backend.recv() {
        Received::Frames(got) => got,
        other => panic!("{other:?}"),
    };
    assert_eq!(got.len(), 1);
    let bytes: &[u8] = got[0].bytes.as_ref();
    assert_eq!(bytes, b"hello");
}

#[test]
fn each_backend_queues_in_its_own_way() {
    let mut backend = NetHostBackend::Gvproxy(GvproxyBackend::default());
    assert!(backend.send(Frame::from_slice(b"x")).is_none());
    assert!(matches!(backend.recv(), Received::Frames(v) if v.is_empty()));
    let mut backend = NetHostBackend::Vmnet(VmnetHostBackend::default());
    for i in 0..TX_BATCH_DEPTH - 1 {
        assert!(backend.send(Frame::from_bytes(vec![i as u8])).is_none());
    }
    let batch = backend.send(Frame::from_slice(b"z")).unwrap();
    assert_eq!(batch.len(), TX_BATCH_DEPTH);
    assert_eq!(batch[3].bytes, vec![3]);
    assert!(backend.send(Frame::from_slice(b"y")).is_none());
    match backend.recv() {
        Received::OnInterface { write_first } => assert_eq!(write_first[0].bytes, b"y"),
        other => panic!("{other:?}"),
    }
    let mut vmnet = VmnetHostBackend::new();
    vmnet.send(Frame::from_slice(b"a"));
    assert_eq!(vmnet.flush_tx().len(), 1);
    assert!(vmnet.flush_tx().is_empty());
}

#[test]
fn read_buffers_are_cut_to_their_frames() {
    assert_eq!(rx_buffer_len(1500), 1532);
    assert_eq!(rx_buffer_len(100), 1532);
    assert_eq!(rx_buffer_len(9000), 9032);
    let storage = vec![vec![1u8; 8], vec![2u8; 8], vec![3u8; 8]];
    let frames = collect_frames(storage, &[3, 0, 99], 3);
    let bytes: Vec<Vec<u8>> = frames.into_iter().map(|f| f.bytes).collect();
    assert_eq!(bytes, vec![vec![1u8; 3], vec![], vec![3u8; 8]]);
}

#[test]
fn test_should_map_vmnet_modes_to_xpc_constants() {
    assert_eq!(VmnetMode::Host.as_xpc_value(), 1000);
    assert_eq!(VmnetMode::Shared.as_xpc_value(), 1001);
}

#[test]
fn test_should_only_flag_bridged_as_restricted_entitlement() {
    assert!(!NetMode::Vmnet(VmnetMode::Shared).needs_restricted_entitlement());
    assert!(!NetMode::Vmnet(VmnetMode::Host).needs_restricted_entitlement());
    assert!(!NetMode::Userspace.needs_restricted_entitlement());
}

#[test]
fn test_should_flag_bridged_as_restricted() {
    assert_eq!(VmnetMode::Bridged.as_xpc_value(), 1002);
    assert!(NetMode::Vmnet(VmnetMode::Bridged).needs_restricted_entitlement());
}

#[test]
fn test_should_render_iface_uuid_as_16_raw_bytes() {
    let bytes = iface_uuid_for("eth0");
    assert_eq!(bytes.len(), 16);
    assert_eq!(iface_uuid_for("eth0"), bytes);
    assert_ne!(iface_uuid_for("eth1"), bytes);
    let uuid = uuid::Uuid::from_bytes(bytes);
    assert_eq!(uuid.get_version_num(), 5);
    assert_ne!(&bytes[..], b"squib-iface-eth0");
}

#[test]
fn test_should_parse_mac_string() {
    let mac = parse_mac_string("06:00:ac:10:00:02").unwrap();
    assert_eq!(mac, [0x06, 0x00, 0xAC, 0x10, 0x00, 0x02]);
}

#[test]
fn odd_addresses_are_read_or_refused() {
    assert_eq!(parse_mac_string("6:0:AC:10:+0:002"), Some([6, 0, 0xac, 0x10, 0, 2]));
    for bad in [
        "",
        "06:00:ac:10:00",
        "06:00:ac:10:00:02:03",
        "06:00:ac:10:00:",
        "06:00:ac:10:00:100",
        "06:00:ac:10:00:0g",
        "06:00:ac:10:00:-1",
        "06:00:ac:10:00:+",
        "06-00-ac-10-00-02",
    ] {
        assert_eq!(parse_mac_string(bad), None, "{bad}");
    }
}

#[test]
fn test_should_decode_known_vmnet_return_codes() {
    assert_eq!(VmnetReturn::from_raw(1000), VmnetReturn::Success);
    assert_eq!(VmnetReturn::from_raw(1001), VmnetReturn::Failure);
    assert_eq!(VmnetReturn::from_raw(1009), VmnetReturn::SharingServiceBusy);
}

#[test]
fn test_should_preserve_unknown_vmnet_return_codes() {
    assert_eq!(VmnetReturn::from_raw(99_999), VmnetReturn::Unknown);
}

#[test]
fn answers_are_told_apart() {
    let all: Vec<VmnetReturn> = (1000..1010).map(VmnetReturn::from_raw).collect();
    for i in 0..all.len() {
        for j in 0..all.len() {
            assert_eq!(all[i] == all[j], i == j);
        }
        assert_ne!(all[i], VmnetReturn::Unknown);
    }
}

fn answer(mtu: u64, mac: Option<&str>) -> StartOutcome {
    StartOutcome::Answered {
        status: VmnetReturn::Success,
        reply: Some(StartReply {
            mtu,
            max_packet_size: u64::MAX,
            mac: mac.map(|m| m.to_string()),
        }),
    }
}

fn params() -> InterfaceParams {
    InterfaceParams::new("eth0".to_string(), VmnetMode::Shared)
}

#[test]
fn interfaces_are_described_to_the_framework() {
    let mut p = InterfaceParams::new("eth0".to_string(), VmnetMode::Bridged);
    p.mtu = Some(9000);
    p.bridged_iface_name = Some("en0".to_string());
    p.enable_isolation = true;
    let d = build_descriptor(&p.start_params());
    assert_eq!(
        d,
        vec![
            DescriptorEntry::OperationMode(1002),
            DescriptorEntry::InterfaceId(iface_uuid_for("eth0")),
            DescriptorEntry::Mtu(9000),
            DescriptorEntry::SharedInterfaceName("en0".to_string()),
            DescriptorEntry::EnableIsolation(true),
        ]
    );
    for (mode, value) in [(VmnetMode::Shared, 1001), (VmnetMode::Host, 1000)] {
        let mut p = InterfaceParams::new("eth0".to_string(), mode);
        p.bridged_iface_name = Some("en0".to_string());
        assert_eq!(
            build_descriptor(&p.start_params()),
            vec![
                DescriptorEntry::OperationMode(value),
                DescriptorEntry::InterfaceId(iface_uuid_for("eth0")),
                DescriptorEntry::EnableIsolation(true),
            ]
        );
    }
    assert_eq!(queue_label("eth0"), "squib-net.eth0");
    assert_eq!(wait_budget_ns(0), None);
    assert_eq!(wait_budget_ns(5000), Some(5_000_000_000));
    assert_eq!(wait_budget_ns(u64::MAX), Some(u64::MAX));
}

#[test]
fn starting_takes_what_the_framework_says() {
    let iface =
        VmnetIface::start(params(), Some(answer(1600, Some("06:00:ac:10:00:02")))).unwrap();
    assert_eq!(iface.iface_id(), "eth0");
    assert_eq!(iface.mtu(), 1600);
    assert_eq!(iface.host_mac(), [6, 0, 0xac, 0x10, 0, 2]);
    let iface =
        VmnetIface::start(params(), Some(answer(u64::MAX, Some("06:00:ac:10:00:02")))).unwrap();
    assert_eq!(iface.mtu(), 1500);
    let iface = VmnetIface::start(params(), Some(answer(0, Some("06:00:ac:10:00:02")))).unwrap();
    assert_eq!(iface.mtu(), 1500);
}

#[test]
fn starting_fails_as_the_framework_says() {
    assert!(matches!(VmnetIface::start(params(), None), Err(IfaceError::NotSupported)));
    assert_eq!(
        IfaceError::NotSupported.message_with(""),
        "vmnet not supported on this platform"
    );
    let p = params().start_params();
    for (outcome, text) in [
        (StartOutcome::NoHandle, "vmnet_start_interface failed: code=Failure"),
        (StartOutcome::NoCallback, "vmnet_start_interface failed: code=Failure"),
        (StartOutcome::TimedOut, "vmnet_start_interface timed out after 5000 ms"),
        (
            StartOutcome::Answered { status: VmnetReturn::SharingServiceBusy, reply: None },
            "vmnet_start_interface failed: code=SharingServiceBusy",
        ),
        (
            StartOutcome::Answered { status: VmnetReturn::Success, reply: None },
            "vmnet_start_interface failed: code=Failure",
        ),
    ] {
        match Inner::start(&p, outcome) {
            Err(e) => assert_eq!(e.message_with(""), text),
            Ok(_) => panic!("started"),
        }
    }
    for mac in [None, Some("nonsense")] {
        let r = Inner::start(&p, answer(1500, mac));
        assert!(matches!(r, Err(InnerError::MissingField { .. })));
    }
}

#[test]
fn traffic_is_counted() {
    let mut iface =
        VmnetIface::start(params(), Some(answer(1500, Some("06:00:ac:10:00:02")))).unwrap();
    let inner = iface.inner_mut().unwrap();
    assert_eq!(inner.read_batch(40, 50), 32);
    assert_eq!(inner.read_batch(4, 3), 3);
    assert_eq!(inner.write_batch(33), 32);
    assert_eq!(inner.read_into_sized(3, VMNET_SUCCESS, 2, &[10, 20, 30]).unwrap(), 2);
    assert_eq!(inner.write_frames(2, VMNET_SUCCESS, 9, &[5, 6]).unwrap(), 2);
    assert!(matches!(
        inner.read_into_sized(1, 1006, 1, &[7]),
        Err(InnerError::ReadFailed { .. })
    ));
    assert!(matches!(inner.write_frames(1, 1001, 1, &[7]), Err(InnerError::WriteFailed { .. })));
    assert_eq!(inner.max_packet_size(), 1518);
    let stats = iface.stats();
    assert_eq!(
        (stats.rx_bytes, stats.rx_frames, stats.tx_bytes, stats.tx_frames),
        (30, 2, 11, 2)
    );
    assert!(iface.stop(1001).is_err());
}

#[test]
fn interfaces_stop_once() {
    let mut iface =
        VmnetIface::start(params(), Some(answer(1500, Some("06:00:ac:10:00:02")))).unwrap();
    iface.stop(VMNET_SUCCESS).unwrap();
    iface.stop(1001).unwrap();
    assert!(iface.inner_mut().is_err());
    assert_eq!(iface.mtu(), 1500);
    assert_eq!(iface.host_mac(), [0; 6]);
}
