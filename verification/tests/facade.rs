//! The runtime as a whole, and what its parts share.

use squib::bitset;
use squib::clock::Clock;
use squib::facade::{
    firecracker_compat_version, stub_response, ApiEnd, DispatchOutcome, ShutdownStep, Squib,
    SquibBuilder, SquibError, StartupStep, StubAction, StubResponse,
};
use squib::net::mode::{NetMode, VmnetMode};
use squib::text;
use squib::wire;

#[test]
fn runtimes_have_usual_settings() {
    let b = SquibBuilder::new(51_200, ());
    assert_eq!(b.instance_id, "anonymous");
    assert_eq!(b.channel_capacity, 1024);
    assert_eq!(b.network_mode, NetMode::Vmnet(VmnetMode::Shared));
    assert_eq!(b.run_budget_ms, 300_000);
    assert_eq!(b.mmds_size_limit, 8192);
    assert_eq!(b.startup_steps(), vec![StartupStep::StartMonitor]);
    assert_eq!(b.build_line("0.1.0"), "1.16.0 (squib 0.1.0)");
    assert_eq!(firecracker_compat_version(), "1.16.0");
}

#[test]
fn settings_can_be_changed() {
    let b = SquibBuilder::new(51_200, 1u8)
        .instance_id("vm-1".to_string())
        .config_file(b"/etc/vm.json".to_vec())
        .start_microvm(false)
        .api_socket(b"/run/vm.sock".to_vec())
        .http_api_max_payload_size(100)
        .timeouts(2)
        .channel_capacity(8)
        .network_mode(NetMode::Userspace)
        .gvproxy_path(b"/bin/gvproxy".to_vec())
        .bridged_iface("en0".to_string())
        .run_budget(5)
        .mmds_size_limit(6)
        .firecracker_version("1.2.3".to_string());
    assert_eq!(
        b.startup_steps(),
        vec![
            StartupStep::StartMonitor,
            StartupStep::ReplayConfig { start_microvm: false },
            StartupStep::ServeApi { max_payload_size: 100 },
        ]
    );
    assert_eq!(b.instance_id, "vm-1");
    assert_eq!(b.timeouts, 2);
    assert_eq!(b.bridged_iface, Some("en0".to_string()));
    assert_eq!(b.build_line("1"), "1.2.3 (squib 1)");
    let b = b.without_api_socket();
    assert_eq!(b.startup_steps().len(), 2);
    let b = b.try_instance_id(Ok("vm-2".to_string())).unwrap();
    assert_eq!(b.instance_id, "vm-2");
    let err = b.try_instance_id(Err("too long".to_string())).unwrap_err();
    assert_eq!(err.message(), "invalid instance id: too long");
}

#[test]
fn a_runtime_ends_once() {
    let mut vm = Squib::started(true);
    let steps: Vec<ShutdownStep> = (0..5).map(|_| vm.shutdown()).collect();
    assert_eq!(
        steps,
        vec![
            ShutdownStep::SendShutdown,
            ShutdownStep::StopApi,
            ShutdownStep::JoinMonitor,
            ShutdownStep::Done,
            ShutdownStep::Done,
        ]
    );
    assert_eq!(vm.abandon(), (false, false));
    let mut vm = Squib::started(false);
    assert_eq!(vm.abandon(), (true, false));
    assert_eq!(vm.shutdown(), ShutdownStep::JoinMonitor);
}

#[test]
fn faults_of_ending_are_reported() {
    assert!(Squib::after_dispatch(DispatchOutcome::Accepted).is_ok());
    let gone = DispatchOutcome::Internal("VMM event loop is gone".to_string());
    assert!(Squib::after_dispatch(gone).is_ok());
    for outcome in [
        DispatchOutcome::Internal("else".to_string()),
        DispatchOutcome::Failed("VMM event loop is gone".to_string()),
    ] {
        assert!(matches!(Squib::after_dispatch(outcome), Err(SquibError::Api(_))));
    }
    for end in [ApiEnd::Finished, ApiEnd::Interrupted, ApiEnd::Cancelled] {
        assert!(Squib::after_api_end(end).is_ok());
    }
    let err = Squib::after_api_end(ApiEnd::Failed("x".to_string())).unwrap_err();
    assert_eq!(err.message(), "api server io: x");
    let err = Squib::after_api_end(ApiEnd::Lost("x".to_string())).unwrap_err();
    assert_eq!(err.message(), "runtime task join: x");
    assert_eq!(SquibError::Config("x".to_string()).message(), "config file: x");
    assert_eq!(SquibError::Api("x".to_string()).message(), "api action: x");
}

#[test]
fn hosts_without_a_hypervisor_refuse_what_needs_one() {
    for action in [
        StubAction::InstanceStart,
        StubAction::PatchVm,
        StubAction::SnapshotCreate,
        StubAction::SnapshotLoad,
    ] {
        let (response, go_on) = stub_response(action);
        assert!(matches!(response, StubResponse::Fault { status: 400, .. }));
        assert!(go_on);
    }
    assert!(matches!(stub_response(StubAction::Other), (StubResponse::NoContent, true)));
    assert!(matches!(stub_response(StubAction::Shutdown), (StubResponse::NoContent, false)));
}

#[test]
fn numbers_are_read_and_written() {
    let mut s = String::new();
    text::push_hex_padded(&mut s, 0xab, 4);
    text::push_hex_prefixed(&mut s, 0);
    text::push_decimal(&mut s, u64::MAX);
    text::push_bool(&mut s, false);
    assert_eq!(s, "00ab0x018446744073709551615false");
    let chars: Vec<char> = "21600".chars().collect();
    assert_eq!(text::parse_number(&chars, 21_600), Some(21_600));
    assert_eq!(text::parse_number(&chars, 21_599), None);
    assert_eq!(text::parse_number(&[], 9), None);
}

#[test]
fn bytes_are_read_as_they_are_written() {
    for x in [0, 1, 0x0123_4567_89ab_cdef, u64::MAX] {
        assert_eq!(wire::read_le64(&wire::to_le64(x), 0), x);
        assert_eq!(wire::to_le64(x), x.to_le_bytes());
    }
    assert_eq!(wire::to_be32(0x0102_0304), [1, 2, 3, 4]);
    assert_eq!(wire::read_be16(&[9, 1, 2], 1), 0x0102);
}

#[test]
fn sets_of_numbers_give_them_back_in_order() {
    let mut words = vec![0u64; 3];
    assert!(bitset::insert(&mut words, 130));
    assert!(bitset::insert(&mut words, 5));
    assert!(!bitset::insert(&mut words, 130));
    assert!(bitset::contains(&words, 5) && !bitset::contains(&words, 6));
    assert_eq!(bitset::drain(&mut words), vec![5, 130]);
    assert!(bitset::is_clear(&words));
}

#[test]
fn clocks_start_near_zero() {
    let clock = Clock::start();
    let first = clock.now_ns();
    assert!(first <= clock.now_ns());
    assert!(first < 10_000_000_000);
}
