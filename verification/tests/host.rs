//! Pages on demand.

use std::cell::RefCell;
use std::rc::Rc;

use squib::host::pager::{
    has_drifted, receive_timeout_ms, ExceptionPort, FilePageSource, PageRequest, PageSource,
    PageSourceError, Pager, PagerConfig, PagerError, PrewarmList, UffdPageSource,
};

#[derive(Debug)]
struct FakeSource {
    bytes: Vec<u8>,
}

impl PageSource for FakeSource {
    fn fetch(&self, _req: &PageRequest) -> Result<Vec<u8>, PageSourceError> {
        Ok(self.bytes.clone())
    }
}

fn pager(fill: u8) -> Pager<FakeSource> {
    Pager::new(FakeSource { bytes: vec![fill; 16 * 1024] }, PagerConfig::default())
}

#[test]
fn test_should_register_and_match_a_postcopy_region() {
    let mut pager = pager(0);
    pager.register_region(0x8000_0000, 0x1000_0000);
    assert!(pager.contains_ipa(0x8000_1234));
    assert!(!pager.contains_ipa(0x9000_0000));
}

#[test]
fn test_should_serve_fault_inside_registered_region() {
    let mut pager = pager(0xAB);
    pager.register_region(0x8000_0000, 0x1000_0000);
    let got = pager.serve_fault(0x8000_1234, 16 * 1024).unwrap();
    assert_eq!(got, vec![0xAB; 16 * 1024]);
    assert_eq!(pager.stats().faults, 1);
}

#[test]
fn test_should_reject_fault_outside_region() {
    let mut pager = pager(0);
    pager.register_region(0x8000_0000, 0x1000_0000);
    let err = pager.serve_fault(0xC000_0000, 16 * 1024).unwrap_err();
    assert!(matches!(err, PagerError::OutOfRegion { ipa: 0xC000_0000 }));
    assert_eq!(err.message_with(""), "postcopy region missing: ipa=0xc0000000");
    assert_eq!(pager.stats().faults, 0);
}

#[derive(Debug, Default)]
struct CaptureSource {
    seen: Rc<RefCell<Vec<u64>>>,
    fail: bool,
}

impl PageSource for CaptureSource {
    fn fetch(&self, req: &PageRequest) -> Result<Vec<u8>, PageSourceError> {
        if self.fail {
            return Err(PageSourceError::Short { got: 1, expected: req.page_size });
        }
        self.seen.borrow_mut().push(req.ipa);
        Ok(vec![0u8; req.page_size as usize])
    }
}

#[test]
fn test_should_align_request_to_page_boundary() {
    let seen = Rc::new(RefCell::new(Vec::new()));
    let mut pager = Pager::new(
        CaptureSource { seen: seen.clone(), fail: false },
        PagerConfig::default(),
    );
    pager.register_region(0x8000_0000, 0x1000_0000);
    pager.serve_fault(0x8000_1234, 16 * 1024).unwrap();
    assert_eq!(*seen.borrow(), vec![0x8000_0000]);
}

#[test]
fn test_should_prewarm_each_page_on_demand() {
    let cfg = PagerConfig {
        prewarm: PrewarmList::from_boot_critical(0x8000_2000, 0x9000_0000, 0x9F00_0000),
        ..Default::default()
    };
    let mut pager = Pager::new(FakeSource { bytes: vec![0xCD; 16 * 1024] }, cfg);
    pager.register_region(0x8000_0000, 0x2000_0000);
    pager.prewarm().unwrap();
    let stats = pager.stats();
    assert_eq!(stats.prewarmed, 3);
    assert_eq!(stats.faults, 3);
}

#[test]
fn a_page_that_cannot_be_had_ends_prewarming() {
    let cfg = PagerConfig {
        prewarm: PrewarmList::from_boot_critical(0x8000_2000, 0x9000_0000, 0x9F00_0000),
        ..Default::default()
    };
    let mut pager = Pager::new(FakeSource { bytes: vec![] }, cfg);
    pager.register_region(0x8000_0000, 0x1000_0000);
    assert!(matches!(pager.prewarm(), Err(PagerError::OutOfRegion { ipa: 0x9000_0000 })));
    assert_eq!(pager.stats().prewarmed, 1);
    let mut failing =
        Pager::new(CaptureSource { fail: true, ..Default::default() }, PagerConfig::default());
    failing.register_region(0, 4096);
    let err = failing.serve_fault(5, 4096).unwrap_err();
    assert_eq!(
        err.message_with(""),
        "page source: page source returned a short read: 1 bytes, expected 4096"
    );
}

#[test]
fn regions_end_with_the_address_space() {
    let mut pager = pager(0);
    pager.register_region(u64::MAX - 10, 100);
    assert!(pager.contains_ipa(u64::MAX - 1));
    assert!(!pager.contains_ipa(5));
    pager.register_region(0, 6);
    assert!(pager.contains_ipa(5));
    assert!(pager.contains_ipa(u64::MAX - 10));
}

#[test]
fn pages_lie_in_a_file_from_the_start_of_memory_on() {
    let src = FilePageSource { ram_start: 0x8000_0000 };
    let req = PageRequest { ipa: 0x8000_4000, page_size: 16 * 1024 };
    assert_eq!(src.offset_of(&req).unwrap(), 16 * 1024);
    let req = PageRequest { ipa: 0x8000_7fff, page_size: 16 * 1024 };
    assert_eq!(src.offset_of(&req).unwrap(), 16 * 1024);
    let low = PageRequest { ipa: 0x4000_0000, page_size: 16 * 1024 };
    let err = src.offset_of(&low).unwrap_err();
    assert!(matches!(err, PageSourceError::Open(_)));
    assert_eq!(
        err.message_with(""),
        "page source open: ipa 0x40000000 below ram_start 0x80000000"
    );
    assert!(src.accept(&req, 16 * 1024).is_ok());
    assert!(matches!(
        src.accept(&req, 100),
        Err(PageSourceError::Short { got: 100, expected: 16_384 })
    ));
}

#[test]
fn pages_are_asked_of_a_server() {
    let req = PageRequest { ipa: 0x8000_0000, page_size: 16 * 1024 };
    let bytes = UffdPageSource::request(&req);
    assert_eq!(bytes, [0, 0, 0, 0x80, 0, 0, 0, 0, 0, 0x40, 0, 0, 0, 0, 0, 0]);
    let mut hdr: [u8; 16] = bytes.try_into().unwrap();
    assert_eq!(UffdPageSource::check_echo(&req, &hdr).unwrap(), 16 * 1024);
    hdr[0] = 1;
    let err = UffdPageSource::check_echo(&req, &hdr).unwrap_err();
    assert_eq!(
        err.message_with(""),
        "page source open: Uffd protocol violation: expected ipa=0x80000000 size=16384 got \
         ipa=0x80000001 size=16384"
    );
}

#[test]
fn test_should_request_shutdown_via_handle() {
    let mut pager = pager(0);
    assert!(!pager.is_shutting_down());
    pager.request_shutdown();
    assert!(pager.is_shutting_down());
}

#[test]
fn test_stats_record_port_reinstall_and_forwarded() {
    let mut pager = pager(0);
    pager.record_port_reinstall();
    pager.record_port_reinstall();
    pager.record_forwarded();
    let s = pager.stats();
    assert_eq!(s.port_reinstalls, 2);
    assert_eq!(s.forwarded_exceptions, 1);
}

#[test]
fn a_port_drifts_when_another_takes_it() {
    let ours = ExceptionPort { mask: 2, handler: 77 };
    let other = ExceptionPort { mask: 2, handler: 78 };
    let unrelated = ExceptionPort { mask: 4, handler: 78 };
    assert!(!has_drifted(&[ours, unrelated], 2, 77));
    assert!(has_drifted(&[other], 2, 77));
    assert_eq!(receive_timeout_ms(1000), 1000);
    assert_eq!(receive_timeout_ms(u64::MAX), u32::MAX);
    assert_eq!(pager(0).poll_interval_ms(), 1000);
}

#[test]
fn failures_of_the_system_are_wrapped() {
    let err: PageSourceError = std::io::Error::other("x").into();
    assert!(matches!(err, PageSourceError::Io(_)));
    assert_eq!(err.message_with("x"), "page source I/O: x");
    assert_eq!(PagerError::Mach("port".to_string()).message_with(""), "mach error: port");
    assert_eq!(
        PagerError::Spawn(std::io::Error::other("x")).message_with("x"),
        "pager server thread spawn: x"
    );
}
