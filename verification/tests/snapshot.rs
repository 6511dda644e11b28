//! Snapshots: formats, plans and rules.

use squib::arch::SysReg;
use squib::snapshot::atomic::{
    check_same_filesystem, derive_temp_path, finish_commit, CommitStep, UnlinkOnDrop,
};
use squib::snapshot::dirty::{
    AdaptiveController, DirtyBitmap, PageGeometry, TrackedRegion, TrackingGranule,
    ADAPTIVE_WINDOW_NS,
};
use squib::snapshot::envelope::{
    arch_magic, check_read_size, read_cap, snapshot_version, Crc64Writer, Snapshot,
    SNAPSHOT_DESERIALIZATION_BYTES_LIMIT, SNAPSHOT_VERSION_MAJOR, SNAPSHOT_VERSION_MINOR,
    SNAPSHOT_VERSION_PATCH,
};
use squib::snapshot::error::SnapshotError;
use squib::snapshot::load::{describe, describe_frame, infer_memory_path, load, SnapshotDescription};
use squib::snapshot::memory::{MemoryWriter, PageReadError, PageReader, PageWrite, VecPageReader};
use squib::snapshot::save::{check_request, save, SaveRequest, SnapshotKind};
use squib::snapshot::state::{
    DeviceState, DeviceStates, FpSimdRegs, GicState, GpRegs, MicrovmState, MmdsState,
    PsciVcpuState, VcpuState, VmInfo,
};
use squib::snapshot::vcpu_save::{
    assemble_vcpu_state, capture_vcpu_state, normalized_psci_state, restore_vcpu_state,
    VcpuRestoreTarget, VcpuSnapshotSource,
};
use squib::snapshot::version::Version;

const REGION_BASE: u64 = 0x8000_0000;
const REGION_SIZE: u64 = 0x1000_0000;
const PAGE_2M: u64 = 2 * 1024 * 1024;
const PAGE_16K: u64 = 16 * 1024;

#[test]
fn test_should_derive_temp_path_with_tmp_suffix() {
    let p = derive_temp_path(b"/tmp/x.snap");
    assert_eq!(p, b"/tmp/x.snap.tmp");
}

#[test]
fn different_devices_are_refused() {
    assert!(check_same_filesystem(7, 7, "\"/a\"", "\"/b\"").is_ok());
    let err = check_same_filesystem(7, 8, "\"/a/x.snap\"", "\"/a\"").unwrap_err();
    assert_eq!(
        err.wire_message(),
        "snapshot temp-file path is on a different filesystem from the destination \
         (dest=\"/a/x.snap\", temp_dir=\"/a\"); rename(2) cannot be atomic across mounts"
    );
}

#[test]
fn staged_files_are_removed_unless_committed() {
    let mut guard = UnlinkOnDrop::new(b"/tmp/x.snap.tmp".to_vec());
    assert_eq!(guard.path(), Some(&b"/tmp/x.snap.tmp".to_vec()));
    let failed = finish_commit(CommitStep::SyncFailed(std::io::Error::other("sync")), &mut guard);
    assert!(matches!(failed, Err(SnapshotError::Io(_))));
    assert!(guard.path().is_some());
    let failed =
        finish_commit(CommitStep::RenameFailed(std::io::Error::other("rename")), &mut guard);
    assert!(matches!(failed, Err(SnapshotError::AtomicCommitFailed(_))));
    assert!(guard.path().is_some());
    assert!(finish_commit(CommitStep::Renamed, &mut guard).is_ok());
    assert_eq!(guard.path(), None);
    let mut other = UnlinkOnDrop::new(b"/tmp/y".to_vec());
    other.disarm();
    assert_eq!(other.path(), None);
}

#[test]
fn test_should_count_pages_with_2mib_default() {
    let bm = DirtyBitmap::new(REGION_BASE, REGION_SIZE, PAGE_2M).unwrap();
    assert_eq!(bm.page_count(), 128);
    assert_eq!(bm.page_shift(), 21);
}

#[test]
fn test_should_track_a_dirty_page_at_an_aligned_address() {
    let mut bm = DirtyBitmap::new(REGION_BASE, REGION_SIZE, PAGE_2M).unwrap();
    let target = REGION_BASE + 5 * PAGE_2M;
    assert!(!bm.is_dirty(target));
    let transitioned = bm.set_dirty(target);
    assert!(transitioned);
    assert!(bm.is_dirty(target));
    let again = bm.set_dirty(target);
    assert!(!again, "set_dirty must report transition only once");
}

#[test]
fn test_should_round_an_unaligned_address_into_its_page() {
    let mut bm = DirtyBitmap::new(REGION_BASE, REGION_SIZE, PAGE_2M).unwrap();
    let aligned = REGION_BASE + 3 * PAGE_2M;
    let unaligned = aligned + 0x1234;
    bm.set_dirty(unaligned);
    assert!(bm.is_dirty(aligned));
}

#[test]
fn test_should_reject_addresses_outside_the_tracked_range() {
    let mut bm = DirtyBitmap::new(REGION_BASE, REGION_SIZE, PAGE_2M).unwrap();
    assert!(!bm.set_dirty(REGION_BASE - 1));
    assert!(!bm.set_dirty(REGION_BASE + REGION_SIZE));
}

#[test]
fn test_should_drain_dirty_pages_in_index_order() {
    let mut bm = DirtyBitmap::new(REGION_BASE, REGION_SIZE, PAGE_2M).unwrap();
    for &page in &[3u64, 100, 0, 64] {
        bm.set_dirty_by_index(page);
    }
    let mut drained = bm.drain();
    drained.sort_unstable();
    assert_eq!(drained, vec![0, 3, 64, 100]);
    assert!(!bm.is_dirty(REGION_BASE));
    assert_eq!(bm.drain(), Vec::<u64>::new());
}

#[test]
fn test_should_drain_into_callback_without_allocation() {
    let mut bm = DirtyBitmap::new(REGION_BASE, REGION_SIZE, PAGE_2M).unwrap();
    bm.set_dirty_by_index(0);
    bm.set_dirty_by_index(127);
    let mut count = 0;
    bm.drain_into(|_p| count += 1);
    assert_eq!(count, 2);
}

#[test]
fn draining_hands_over_dirty_pages_only() {
    let mut bm = DirtyBitmap::new(REGION_BASE, REGION_SIZE, PAGE_2M).unwrap();
    bm.drain_into(|p| panic!("page {p} is clean"));
    bm.set_dirty_by_index(127);
    bm.set_dirty_by_index(0);
    let mut seen = Vec::new();
    bm.drain_into(|p| seen.push(p));
    assert_eq!(seen, vec![0, 127]);
    assert!(!bm.is_dirty_by_index(0));
    assert!(!bm.is_dirty_by_index(127));
    assert_eq!(bm.drain(), Vec::<u64>::new());
}

#[test]
fn test_should_reject_non_power_of_two_page_size() {
    let res = DirtyBitmap::new(REGION_BASE, REGION_SIZE, 3000);
    assert!(matches!(res, Err(SnapshotError::InvalidPath(_))));
}

#[test]
fn test_should_reject_zero_size_range() {
    let res = DirtyBitmap::new(REGION_BASE, 0, PAGE_2M);
    assert!(matches!(res, Err(SnapshotError::InvalidPath(_))));
}

#[test]
fn test_should_fold_coarse_bits_into_fine_bitmap() {
    let mut coarse = DirtyBitmap::new(REGION_BASE, REGION_SIZE, PAGE_2M).unwrap();
    let mut fine = DirtyBitmap::new(REGION_BASE, REGION_SIZE, PAGE_16K).unwrap();
    coarse.set_dirty_by_index(2);
    coarse.fold_into_finer(&mut fine).unwrap();
    assert!(fine.is_dirty(REGION_BASE + 2 * PAGE_2M));
    assert!(fine.is_dirty(REGION_BASE + 2 * PAGE_2M + 100 * PAGE_16K));
    assert!(!fine.is_dirty(REGION_BASE + PAGE_2M));
    assert_eq!(fine.drain(), (256..384).collect::<Vec<u64>>());
}

#[test]
fn test_should_reject_fold_with_mismatched_ranges() {
    let coarse = DirtyBitmap::new(REGION_BASE, REGION_SIZE, PAGE_2M).unwrap();
    let mut fine = DirtyBitmap::new(REGION_BASE + PAGE_16K, REGION_SIZE, PAGE_16K).unwrap();
    let res = coarse.fold_into_finer(&mut fine);
    assert!(matches!(res, Err(SnapshotError::InvalidPath(_))));
}

#[test]
fn test_should_reject_fold_when_target_is_not_finer() {
    let a = DirtyBitmap::new(REGION_BASE, REGION_SIZE, PAGE_2M).unwrap();
    let mut b = DirtyBitmap::new(REGION_BASE, REGION_SIZE, PAGE_2M).unwrap();
    let res = a.fold_into_finer(&mut b);
    assert!(matches!(res, Err(SnapshotError::InvalidPath(_))));
}

#[test]
fn test_should_promote_to_fine_when_one_block_exceeds_threshold() {
    let mut region = TrackedRegion::with_threshold(
        REGION_BASE,
        REGION_SIZE,
        PageGeometry::apple_silicon(),
        2,
    )
    .unwrap();
    assert_eq!(region.granule(), TrackingGranule::Coarse);
    for _ in 0..10 {
        region.mark_dirty(REGION_BASE);
    }
    let g = region.tick_adaptive_at(u64::MAX);
    assert_eq!(g, TrackingGranule::Fine);
    let bm = region.bitmap();
    assert_eq!(bm.page_size(), PAGE_16K);
    assert!(bm.is_dirty(REGION_BASE + PAGE_2M - 1));
    assert!(!bm.is_dirty(REGION_BASE + PAGE_2M));
}

#[test]
fn test_should_not_promote_when_faults_are_spread_uniformly_across_blocks() {
    let mut region = TrackedRegion::with_threshold(
        REGION_BASE,
        REGION_SIZE,
        PageGeometry::apple_silicon(),
        4,
    )
    .unwrap();
    assert_eq!(region.granule(), TrackingGranule::Coarse);
    for block in 0..64u64 {
        region.mark_dirty(REGION_BASE + block * PAGE_2M);
    }
    let g = region.tick_adaptive_at(u64::MAX);
    assert_eq!(
        g,
        TrackingGranule::Coarse,
        "step-down must use per-block counts, not aggregate fault count"
    );
}

#[test]
fn counters_start_anew_with_each_window() {
    let mut c = AdaptiveController::with_threshold(4, 2);
    let start = 10 * ADAPTIVE_WINDOW_NS;
    assert_eq!(c.tick_at(start), TrackingGranule::Coarse);
    c.record_fault(1);
    c.record_fault(1);
    assert_eq!(c.tick_at(start + ADAPTIVE_WINDOW_NS), TrackingGranule::Coarse);
    c.record_fault(1);
    assert_eq!(c.tick_at(start + 2 * ADAPTIVE_WINDOW_NS), TrackingGranule::Coarse);
    for _ in 0..3 {
        c.record_fault(1);
    }
    assert_eq!(c.tick_at(start + 2 * ADAPTIVE_WINDOW_NS + 1), TrackingGranule::Coarse);
    assert_eq!(c.tick_at(start + 3 * ADAPTIVE_WINDOW_NS), TrackingGranule::Fine);
    assert_eq!(c.tick_at(start + 9 * ADAPTIVE_WINDOW_NS), TrackingGranule::Fine);
}

#[test]
fn the_clock_drives_a_controller() {
    let mut c = AdaptiveController::new(1);
    assert_eq!(c.tick(), TrackingGranule::Coarse);
    assert_eq!(c.granule(), TrackingGranule::Coarse);
}

fn file() -> (Vec<u8>, Vec<u8>) {
    let encoded: Vec<u8> = (0u8..200).collect();
    let file = Snapshot::<MicrovmState>::save(&encoded);
    (encoded, file)
}

#[test]
fn test_should_round_trip_default_state_through_save_and_load() {
    let snapshot = Snapshot::new(MicrovmState::default());
    let (encoded, file) = file();
    let body = Snapshot::<MicrovmState>::load_from_slice(&file).unwrap();
    assert_eq!(body, encoded);
    let header = snapshot.header.clone();
    let back =
        Snapshot::<MicrovmState>::load_without_crc_check(body.len(), Ok(snapshot)).unwrap();
    assert_eq!(header, back.header);
    assert_eq!(back.version(), &snapshot_version());
}

#[test]
fn checksum_of_known_bytes_is_crc64_jones() {
    let file = Snapshot::<MicrovmState>::save(b"123456789");
    assert_eq!(file[9..], 0xE9C6_D914_C4B8_D9CAu64.to_le_bytes());
}

#[test]
fn test_should_reject_truncated_crc_trailer() {
    let (_encoded, buf) = file();
    let truncated = &buf[..buf.len() - 4];
    assert!(matches!(
        Snapshot::<MicrovmState>::load_from_slice(truncated),
        Err(SnapshotError::CrcMismatch)
    ));
}

#[test]
fn test_should_reject_too_short_buffer() {
    assert!(matches!(
        Snapshot::<MicrovmState>::load_from_slice(&[]),
        Err(SnapshotError::TooShort)
    ));
    assert!(matches!(
        Snapshot::<MicrovmState>::load_from_slice(&[0u8; 4]),
        Err(SnapshotError::TooShort)
    ));
}

#[test]
fn test_should_reject_bit_flipped_state() {
    let (_encoded, mut buf) = file();
    buf[2] ^= 0x01;
    assert!(matches!(
        Snapshot::<MicrovmState>::load_from_slice(&buf),
        Err(SnapshotError::CrcMismatch)
    ));
}

#[test]
fn test_should_reject_clobbered_crc_trailer() {
    let (_encoded, mut buf) = file();
    let len = buf.len();
    for byte in &mut buf[len - 8..] {
        *byte ^= 0xFF;
    }
    assert!(matches!(
        Snapshot::<MicrovmState>::load_from_slice(&buf),
        Err(SnapshotError::CrcMismatch)
    ));
}

fn judged(snapshot: Snapshot<MicrovmState>) -> Result<Snapshot<MicrovmState>, SnapshotError> {
    Snapshot::<MicrovmState>::load_without_crc_check(200, Ok(snapshot))
}

#[test]
fn test_should_reject_wrong_magic_via_load_without_crc_check() {
    let mut snapshot = Snapshot::new(MicrovmState::default());
    snapshot.header.magic = 0xDEAD_BEEF;
    assert!(matches!(judged(snapshot), Err(SnapshotError::MagicMismatch { .. })));
}

#[test]
fn test_should_reject_higher_major_version() {
    let mut snapshot = Snapshot::new(MicrovmState::default());
    snapshot.header.version =
        Version::new(SNAPSHOT_VERSION_MAJOR + 1, SNAPSHOT_VERSION_MINOR, 0);
    assert!(matches!(judged(snapshot), Err(SnapshotError::VersionMismatch { .. })));
}

#[test]
fn test_should_reject_higher_minor_version() {
    let mut snapshot = Snapshot::new(MicrovmState::default());
    snapshot.header.version =
        Version::new(SNAPSHOT_VERSION_MAJOR, SNAPSHOT_VERSION_MINOR + 1, 0);
    let err = judged(snapshot).unwrap_err();
    assert!(matches!(err, SnapshotError::VersionMismatch { .. }));
    assert_eq!(
        err.wire_message(),
        "snapshot version 5.1.0 is incompatible with squib's 5.0.0"
    );
}

#[test]
fn test_should_accept_lower_minor_version() {
    if SNAPSHOT_VERSION_MINOR == 0 {
        return;
    }
    let mut snapshot = Snapshot::new(MicrovmState::default());
    snapshot.header.version =
        Version::new(SNAPSHOT_VERSION_MAJOR, SNAPSHOT_VERSION_MINOR - 1, 0);
    let _ok = judged(snapshot).unwrap();
}

#[test]
fn test_should_accept_arbitrary_patch_version() {
    let mut snapshot = Snapshot::new(MicrovmState::default());
    snapshot.header.version = Version::new(
        SNAPSHOT_VERSION_MAJOR,
        SNAPSHOT_VERSION_MINOR,
        SNAPSHOT_VERSION_PATCH + 12345,
    );
    let _ok = judged(snapshot).unwrap();
}

#[test]
fn test_should_enforce_size_limit_on_load() {
    let huge = vec![0u8; SNAPSHOT_DESERIALIZATION_BYTES_LIMIT + 32];
    assert!(matches!(
        Snapshot::<MicrovmState>::load_from_slice(&huge),
        Err(SnapshotError::SizeLimitExceeded { .. })
    ));
    let limit = SNAPSHOT_DESERIALIZATION_BYTES_LIMIT;
    let late = Snapshot::<MicrovmState>::load_without_crc_check(
        limit + 1,
        Ok(Snapshot::new(MicrovmState::default())),
    );
    assert!(matches!(late, Err(SnapshotError::SizeLimitExceeded { .. })));
    assert!(check_read_size(limit, limit).is_ok());
    assert!(check_read_size(limit + 1, limit).is_err());
    assert_eq!(read_cap(limit), limit as u64 + 1);
}

#[test]
fn encodings_that_do_not_decode_are_refused() {
    let res =
        Snapshot::<MicrovmState>::load_without_crc_check(3, Err("bad varint".to_string()));
    match res {
        Err(e) => assert_eq!(e.wire_message(), "snapshot encoding error: bad varint"),
        Ok(_) => panic!("accepted"),
    }
}

#[test]
fn test_should_keep_arch_magic_aarch64_constant() {
    assert_eq!(arch_magic(), 0x0710_1984_AAAA_0000);
}

#[test]
fn checksums_grow_piece_by_piece() {
    let mut w: Crc64Writer<Vec<u8>> = Crc64Writer::new(Vec::new());
    assert_eq!(w.checksum(), 0);
    w.record(b"1234567", 4);
    w.record(b"56789", 5);
    assert_eq!(w.checksum(), 0xE9C6_D914_C4B8_D9CA);
    w.get_mut().push(7);
    assert_eq!(w.into_inner(), vec![7]);
}

#[test]
fn test_should_render_quiesce_timeout_with_stable_message() {
    let err = SnapshotError::QuiesceTimeout;
    assert_eq!(err.message_with(""), err.wire_message());
    assert_eq!(err.wire_message(), "a vCPU did not ack quiesce within the timeout");
}

#[test]
fn test_should_format_magic_mismatch_with_hex() {
    let err = SnapshotError::MagicMismatch {
        found: 0xDEAD_BEEF,
        expected: 0x0710_1984_AAAA_0000,
    };
    let s = err.wire_message();
    assert!(s.contains("0xdeadbeef"), "msg = {s}");
    assert!(s.contains("0x7101984aaaa0000"), "msg = {s}");
}

#[test]
fn test_should_classify_io_errors_under_io_variant() {
    let io = std::io::Error::new(std::io::ErrorKind::PermissionDenied, "no");
    let err: SnapshotError = io.into();
    assert!(matches!(err, SnapshotError::Io(_)));
    assert_eq!(err.wire_message(), "snapshot I/O error: no");
}

#[test]
fn test_should_route_atomic_commit_failure_into_dedicated_variant() {
    let io = std::io::Error::other("rename failed");
    let err = SnapshotError::AtomicCommitFailed(io);
    assert!(err.wire_message().starts_with("atomic commit (rename) failed:"));
    assert_eq!(err.wire_message(), "atomic commit (rename) failed: rename failed");
}

#[test]
fn test_should_describe_cross_fs_with_paths() {
    let err = SnapshotError::AtomicCommitCrossFs {
        dest: "\"/dest/x.snap\"".to_string(),
        temp_dir: "\"/other-fs\"".to_string(),
    };
    let s = err.wire_message();
    assert!(s.contains("/dest/x.snap"));
    assert!(s.contains("/other-fs"));
}

#[test]
fn other_errors_have_stable_messages() {
    for (err, text) in [
        (SnapshotError::CrcMismatch, "snapshot CRC64 mismatch"),
        (SnapshotError::TooShort, "snapshot file is too short to contain a CRC trailer"),
        (
            SnapshotError::Incompatible,
            "snapshot is from a different VMM (sysreg or GIC blob shape mismatch)",
        ),
        (SnapshotError::InvalidPath("x".to_string()), "invalid snapshot path: x"),
        (
            SnapshotError::SizeLimitExceeded { limit: 12 },
            "snapshot exceeds 12 byte deserialization limit",
        ),
        (
            SnapshotError::MemoryIo(std::io::Error::other("disk")),
            "memory file I/O error: disk",
        ),
    ] {
        assert_eq!(err.wire_message(), text);
    }
}

fn build_state() -> MicrovmState {
    MicrovmState {
        vm_info: VmInfo {
            mem_size_mib: 256,
            smt: false,
            cpu_template: String::new(),
            kernel_image_path: "/k".into(),
            initrd_path: None,
            boot_args: String::new(),
            track_dirty_pages: false,
        },
        vcpu_states: vec![VcpuState::new(0), VcpuState::new(1)],
        device_states: DeviceStates::from_devices(vec![DeviceState {
            kind: "virtio-block".into(),
            id: "rootfs".into(),
            mmio_slot: 0,
            blob: vec![],
        }]),
        gic_state: GicState::from_bytes(vec![0xAA; 32]),
        mmds_state: None,
    }
}

fn described(memory_size: Option<u64>, crc_ok: bool) -> SnapshotDescription {
    let reader = VecPageReader::new(vec![0u8; 16 * 1024]);
    let plan = save(SaveRequest {
        state_path: b"/snaps/x.snap".to_vec(),
        memory_path: b"/snaps/x.mem".to_vec(),
        kind: SnapshotKind::Full,
        state: build_state(),
        memory: &reader,
        ram_size: 16 * 1024,
        memory_page_size: 16 * 1024,
        dirty: None,
    })
    .unwrap();
    let memory_path = infer_memory_path(&plan.state_path).unwrap();
    assert_eq!(memory_path, plan.memory_path);
    describe(
        &plan.envelope,
        crc_ok,
        "/snaps/x.snap".to_string(),
        Some(String::from_utf8(memory_path).unwrap()),
        memory_size,
    )
}

#[test]
fn test_should_round_trip_save_then_load() {
    let reader = VecPageReader::new(vec![0u8; 16 * 1024]);
    let plan = save(SaveRequest {
        state_path: b"x.snap".to_vec(),
        memory_path: b"x.mem".to_vec(),
        kind: SnapshotKind::Full,
        state: build_state(),
        memory: &reader,
        ram_size: 16 * 1024,
        memory_page_size: 16 * 1024,
        dirty: None,
    })
    .unwrap();
    let loaded = load(plan.envelope).unwrap();
    assert_eq!(loaded.state.vcpu_states.len(), 2);
    assert_eq!(loaded.source_version, snapshot_version());
    assert_eq!(loaded.state, build_state());
}

#[test]
fn test_should_describe_state_file_in_human_form() {
    let h = described(Some(16384), true).human();
    assert!(h.contains("vcpu_count:          2"));
    assert!(h.contains("mem_size_mib:        256"));
    assert!(h.contains("crc_ok:              yes"));
    assert_eq!(
        h,
        "snapshot: /snaps/x.snap\n  magic:               0x07101984aaaa0000\n  \
         version:             5.0.0\n  vcpu_count:          2\n  mem_size_mib:        256\n  \
         track_dirty_pages:   false\n  devices:             1\n    - virtio-block: rootfs (slot \
         0)\n  mmds_present:        false\n  memory file:         /snaps/x.mem (16384 bytes)\n  \
         crc_ok:              yes\n"
    );
}

#[test]
fn test_should_describe_state_file_in_json_form() {
    let j = described(Some(16384), true).to_json();
    assert_eq!(j["vcpu_count"], 2);
    assert_eq!(j["mem_size_mib"], 256);
    assert_eq!(j["crc_ok"], true);
    assert_eq!(j["magic"], "0x07101984aaaa0000");
    assert_eq!(j["version"], "5.0.0");
    assert_eq!(j["expected_version"], "5.0.0");
    assert_eq!(j["state_path"], "/snaps/x.snap");
    assert_eq!(j["devices"][0]["kind"], "virtio-block");
    assert_eq!(j["devices"][0]["id"], "rootfs");
    assert_eq!(j["devices"][0]["mmio_slot"], 0);
    assert_eq!(j["inferred_memory_path"], "/snaps/x.mem");
    assert_eq!(j["inferred_memory_size"], 16384);
    assert_eq!(j["mmds_present"], false);
    assert_eq!(j["track_dirty_pages"], false);
    assert_eq!(j.as_object().unwrap().len(), 13);
}

#[test]
fn damaged_and_incomplete_snapshots_are_described() {
    let desc = described(None, false);
    assert!(!desc.crc_ok);
    assert!(!desc.inferred_memory_exists);
    let h = desc.human();
    assert!(h.contains("crc_ok:              NO"));
    assert!(h.contains("MISSING"));
    assert!(desc.to_json()["inferred_memory_size"].is_null());
    let mut older = described(None, true);
    older.version = Version::new(4, 2, 1);
    assert!(older.human().contains("  version:             4.2.1\n  expected (squib):    5.0.0\n"));
    older.inferred_memory_path = None;
    assert!(!older.human().contains("memory file"));
    assert!(older.to_json()["inferred_memory_path"].is_null());
}

#[test]
fn a_wrong_checksum_does_not_hide_the_envelope() {
    let (encoded, mut buf) = file();
    assert_eq!(describe_frame(&buf).unwrap(), (&encoded[..], true));
    let last = buf.len() - 1;
    buf[last] ^= 1;
    assert_eq!(describe_frame(&buf).unwrap(), (&encoded[..], false));
    assert!(matches!(describe_frame(b"abc"), Err(SnapshotError::TooShort)));
}

#[test]
fn test_should_infer_memory_path_from_state_path() {
    assert_eq!(infer_memory_path(b"/tmp/x.snap"), Some(b"/tmp/x.mem".to_vec()));
    assert_eq!(infer_memory_path(b"/tmp/x.bin"), None);
    assert_eq!(infer_memory_path(b"/tmp/x"), None);
    assert_eq!(infer_memory_path(b"/tmp.snap/x"), None);
    assert_eq!(infer_memory_path(b"/tmp/.snap"), None);
    assert_eq!(infer_memory_path(b"a.b.snap"), Some(b"a.b.mem".to_vec()));
    assert_eq!(infer_memory_path(b"/tmp/x.snap/"), Some(b"/tmp/x.mem".to_vec()));
    assert_eq!(infer_memory_path(b".."), None);
}

#[test]
fn test_should_reject_load_on_incompatible_state() {
    let mut bad = build_state();
    bad.vcpu_states.clear();
    let res = load(Snapshot::new(bad));
    assert!(matches!(res, Err(SnapshotError::Incompatible)));
}

fn build_reader(size: usize) -> VecPageReader {
    let mut r = VecPageReader::new(vec![0u8; size]);
    for (i, byte) in r.bytes_mut().iter_mut().enumerate() {
        *byte = (i % 256) as u8;
    }
    r
}

fn written(reader: &VecPageReader, size: u64, plan: &[PageWrite]) -> Vec<u8> {
    let mut out = vec![0u8; size as usize];
    for w in plan {
        let start = w.offset as usize;
        let end = start + w.len as usize;
        reader.read_at(w.offset, &mut out[start..end]).unwrap();
    }
    out
}

#[test]
fn full_plans_write_everything() {
    let ram_size: u64 = 64 * 1024;
    let mut reader = build_reader(ram_size as usize);
    let plan = MemoryWriter::new(ram_size, 16 * 1024).write_full();
    assert_eq!(written(&reader, ram_size, &plan), reader.bytes_mut());
    let odd = MemoryWriter::new(40_000, 16 * 1024).write_full();
    assert_eq!(odd.iter().map(|w| w.len).sum::<u64>(), 40_000);
    assert!(odd.iter().all(|w| w.offset % (16 * 1024) == 0));
    assert_eq!(MemoryWriter::new(0, 16 * 1024).write_full(), vec![]);
}

#[test]
fn diff_plans_write_dirty_pages() {
    let ram_size: u64 = 64 * 1024;
    let page_size: u64 = 16 * 1024;
    let reader = build_reader(ram_size as usize);
    let mut bm = DirtyBitmap::new(0, ram_size, page_size).unwrap();
    bm.set_dirty_by_index(1);
    bm.set_dirty_by_index(3);
    let w = MemoryWriter::new(ram_size, page_size);
    let plan = w.write_diff(&bm).unwrap();
    assert_eq!(plan.len(), 2);
    let file = written(&reader, ram_size, &plan);
    let page = page_size as usize;
    assert!(file[..page].iter().all(|&b| b == 0));
    assert!(file[page..2 * page].iter().enumerate().all(|(i, &b)| b == ((i + page) % 256) as u8));
    assert!(file[2 * page..3 * page].iter().all(|&b| b == 0));
}

#[test]
fn diff_plans_split_coarse_pages() {
    let ram_size: u64 = 4 * 1024 * 1024;
    let mut bm = DirtyBitmap::new(0, ram_size, PAGE_2M).unwrap();
    bm.set_dirty_by_index(1);
    let plan = MemoryWriter::new(ram_size, PAGE_16K).write_diff(&bm).unwrap();
    assert_eq!(plan.len() as u64, PAGE_2M / PAGE_16K);
    assert_eq!(plan[0], PageWrite { offset: PAGE_2M, len: PAGE_16K });
    assert_eq!(plan.iter().map(|w| w.len).sum::<u64>(), PAGE_2M);
}

#[test]
fn reads_past_the_end_are_refused() {
    let reader = build_reader(16);
    let mut buf = [0u8; 4];
    reader.read_at(12, &mut buf).unwrap();
    assert_eq!(buf, [12, 13, 14, 15]);
    assert_eq!(reader.read_at(13, &mut buf), Err(PageReadError::PastEnd));
    assert_eq!(reader.read_at(u64::MAX, &mut buf), Err(PageReadError::OffsetOverflow));
    assert_eq!(buf, [12, 13, 14, 15]);
    assert_eq!(PageReadError::PastEnd.message(), "read past end of memory");
    assert_eq!(PageReadError::OffsetOverflow.message(), "offset overflow");
    assert_eq!(PageReadError::OffsetTooLarge.message(), "offset > usize::MAX");
}

fn request<'a>(
    kind: SnapshotKind,
    state: MicrovmState,
    memory: &'a VecPageReader,
    dirty: Option<&'a DirtyBitmap>,
) -> SaveRequest<'a, VecPageReader> {
    SaveRequest {
        state_path: b"x.snap".to_vec(),
        memory_path: b"x.mem".to_vec(),
        kind,
        state,
        memory,
        ram_size: 32 * 1024,
        memory_page_size: 16 * 1024,
        dirty,
    }
}

#[test]
fn incompatible_states_are_refused_before_memory_is_looked_at() {
    let reader = VecPageReader::new(vec![0u8; 32 * 1024]);
    let mut state = build_state();
    state.vm_info.smt = true;
    let mut req = request(SnapshotKind::Full, state, &reader, None);
    req.memory_page_size = 0;
    assert!(matches!(save(req), Err(SnapshotError::Incompatible)));
}

#[test]
fn full_snapshots_plan_all_of_memory() {
    let reader = VecPageReader::new(vec![7u8; 32 * 1024]);
    let plan = save(request(SnapshotKind::Full, build_state(), &reader, None)).unwrap();
    assert_eq!(plan.report.kind, SnapshotKind::Full);
    assert_eq!(plan.report.pages_written, 0);
    assert_eq!(plan.ram_size, 32 * 1024);
    assert_eq!(written(plan.memory, plan.ram_size, &plan.writes), vec![7u8; 32 * 1024]);
}

#[test]
fn test_should_reject_diff_without_dirty_bitmap() {
    let mut state = build_state();
    state.vm_info.track_dirty_pages = true;
    let reader = VecPageReader::new(vec![0u8; 32 * 1024]);
    let res = save(request(SnapshotKind::Diff, state, &reader, None));
    assert!(matches!(res, Err(SnapshotError::InvalidPath(_))));
    let err = check_request(SnapshotKind::Diff, false, true).unwrap_err();
    assert_eq!(
        err.wire_message(),
        "invalid snapshot path: Diff snapshot requires track_dirty_pages=true and a dirty bitmap"
    );
}

#[test]
fn test_should_reject_diff_when_track_dirty_is_false() {
    let bm = DirtyBitmap::new(0, 32 * 1024, 16 * 1024).unwrap();
    let reader = VecPageReader::new(vec![0u8; 32 * 1024]);
    let res = save(request(SnapshotKind::Diff, build_state(), &reader, Some(&bm)));
    assert!(matches!(res, Err(SnapshotError::InvalidPath(_))));
}

#[test]
fn diff_snapshots_plan_dirty_pages() {
    let mut state = build_state();
    state.vm_info.track_dirty_pages = true;
    let mut bm = DirtyBitmap::new(0, 32 * 1024, 16 * 1024).unwrap();
    bm.set_dirty_by_index(1);
    let reader = VecPageReader::new(vec![9u8; 32 * 1024]);
    let plan = save(request(SnapshotKind::Diff, state, &reader, Some(&bm))).unwrap();
    assert_eq!(plan.report.pages_written, 1);
    let buf = written(plan.memory, plan.ram_size, &plan.writes);
    assert!(buf[..16 * 1024].iter().all(|&b| b == 0));
    assert!(buf[16 * 1024..32 * 1024].iter().all(|&b| b == 9));
}

#[test]
fn test_should_reject_save_when_state_is_incompatible() {
    let mut state = build_state();
    state.vcpu_states.clear();
    let reader = VecPageReader::new(vec![0u8; 32 * 1024]);
    let res = save(request(SnapshotKind::Full, state, &reader, None));
    assert!(matches!(res, Err(SnapshotError::Incompatible)));
}

#[test]
fn test_should_sort_device_states_by_slot_then_id() {
    let states = DeviceStates::from_devices(vec![
        DeviceState {
            kind: "virtio-net".into(),
            id: "eth0".into(),
            mmio_slot: 2,
            blob: vec![],
        },
        DeviceState {
            kind: "virtio-block".into(),
            id: "rootfs".into(),
            mmio_slot: 0,
            blob: vec![],
        },
        DeviceState {
            kind: "virtio-block".into(),
            id: "data".into(),
            mmio_slot: 1,
            blob: vec![],
        },
    ]);
    assert_eq!(states.devices[0].id, "rootfs");
    assert_eq!(states.devices[1].id, "data");
    assert_eq!(states.devices[2].id, "eth0");
}

#[test]
fn devices_of_one_slot_are_sorted_by_id() {
    let device = |id: &str, blob: u8| DeviceState {
        kind: "k".into(),
        id: id.into(),
        mmio_slot: 1,
        blob: vec![blob],
    };
    let states = DeviceStates::from_devices(vec![
        device("b", 1),
        device("\u{e9}", 2),
        device("a", 3),
        device("ab", 4),
        device("a", 5),
    ]);
    let order: Vec<u8> = states.devices.iter().map(|d| d.blob[0]).collect();
    assert_eq!(order, vec![3, 5, 4, 1, 2]);
}

#[test]
fn devices_come_out_alike_in_whatever_order_they_came() {
    let device = |slot: u32, id: &str| DeviceState {
        kind: "k".into(),
        id: id.into(),
        mmio_slot: slot,
        blob: vec![],
    };
    let one = DeviceStates::from_devices(vec![device(2, "a"), device(1, "b"), device(1, "a")]);
    let other = DeviceStates::from_devices(vec![device(1, "a"), device(2, "a"), device(1, "b")]);
    assert_eq!(one, other);
    assert_eq!(one.devices, vec![device(1, "a"), device(1, "b"), device(2, "a")]);
}

#[test]
fn test_should_reject_zero_vcpu_state() {
    let vm_info = VmInfo {
        mem_size_mib: 1,
        smt: false,
        cpu_template: String::new(),
        kernel_image_path: String::new(),
        initrd_path: None,
        boot_args: String::new(),
        track_dirty_pages: false,
    };
    let mut state = MicrovmState {
        vm_info,
        vcpu_states: vec![],
        device_states: DeviceStates::default(),
        gic_state: GicState::from_bytes(vec![1]),
        mmds_state: None,
    };
    assert!(matches!(state.verify_compatible(), Err(SnapshotError::Incompatible)));
    state.vcpu_states = (0..32).map(VcpuState::new).collect();
    assert!(state.verify_compatible().is_ok());
    state.vcpu_states = (0..33).map(VcpuState::new).collect();
    assert!(matches!(state.verify_compatible(), Err(SnapshotError::Incompatible)));
}

#[test]
fn test_should_reject_smt_enabled() {
    let vm_info = VmInfo {
        mem_size_mib: 1,
        smt: true,
        cpu_template: String::new(),
        kernel_image_path: String::new(),
        initrd_path: None,
        boot_args: String::new(),
        track_dirty_pages: false,
    };
    let state = MicrovmState {
        vm_info,
        vcpu_states: vec![VcpuState::new(0)],
        device_states: DeviceStates::default(),
        gic_state: GicState::from_bytes(vec![1]),
        mmds_state: None,
    };
    assert!(matches!(state.verify_compatible(), Err(SnapshotError::Incompatible)));
}

#[test]
fn test_should_reject_empty_gic_blob() {
    let state = MicrovmState {
        vm_info: VmInfo::default(),
        vcpu_states: vec![VcpuState::new(0)],
        device_states: DeviceStates::default(),
        gic_state: GicState::default(),
        mmds_state: None,
    };
    assert!(matches!(state.verify_compatible(), Err(SnapshotError::Incompatible)));
}

#[test]
fn test_should_reject_gic_length_mismatch() {
    let mut state = MicrovmState {
        vm_info: VmInfo::default(),
        vcpu_states: vec![VcpuState::new(0)],
        device_states: DeviceStates::default(),
        gic_state: GicState::from_bytes(vec![1, 2, 3]),
        mmds_state: None,
    };
    assert!(state.verify_compatible().is_ok());
    state.gic_state.len = 99;
    assert!(matches!(state.verify_compatible(), Err(SnapshotError::Incompatible)));
}

#[test]
fn metadata_is_held_as_text() {
    let value: serde_json::Value =
        serde_json::from_str(r#"{"latest":{"meta-data":{"instance-id":"demo"}}}"#).unwrap();
    let mmds = MmdsState::with_data(&value, Some(3600)).unwrap();
    assert_eq!(mmds.token_ttl_seconds, Some(3600));
    assert_eq!(mmds.data_json, r#"{"latest":{"meta-data":{"instance-id":"demo"}}}"#);
    assert_eq!(mmds.data_value().unwrap(), value);
    assert!(MmdsState::default().data_value().unwrap().is_null());
    let broken = MmdsState { data_json: "{".to_string(), token_ttl_seconds: None };
    assert!(broken.data_value().is_err());
}

#[derive(Debug, Default)]
struct MockSource {
    mpidr: u64,
    sys: std::collections::HashMap<SysReg, u64>,
}

impl VcpuSnapshotSource for MockSource {
    fn mpidr(&self) -> u64 {
        self.mpidr
    }
    fn read_gp_regs(&self) -> Result<GpRegs, SnapshotError> {
        Ok(GpRegs::default())
    }
    fn read_fp_simd(&self) -> Result<FpSimdRegs, SnapshotError> {
        Ok(FpSimdRegs::default())
    }
    fn read_sys_reg(&self, reg: SysReg) -> Result<Option<u64>, SnapshotError> {
        Ok(self.sys.get(&reg).copied())
    }
    fn psci_state(&self) -> PsciVcpuState {
        PsciVcpuState::On
    }
}

#[derive(Debug, Default)]
struct MockTarget {
    gp: Option<GpRegs>,
    fp: Option<FpSimdRegs>,
    sys: std::collections::HashMap<SysReg, u64>,
    psci: Option<PsciVcpuState>,
    full: bool,
}

impl VcpuRestoreTarget for MockTarget {
    fn write_gp_regs(&mut self, regs: &GpRegs) -> Result<(), SnapshotError> {
        self.gp = Some(regs.clone());
        Ok(())
    }
    fn write_fp_simd(&mut self, regs: &FpSimdRegs) -> Result<(), SnapshotError> {
        self.fp = Some(regs.clone());
        Ok(())
    }
    fn write_sys_reg(&mut self, reg: SysReg, value: u64) -> Result<(), SnapshotError> {
        if self.full {
            return Err(SnapshotError::QuiesceTimeout);
        }
        self.sys.insert(reg, value);
        Ok(())
    }
    fn set_psci_state(&mut self, state: PsciVcpuState) -> Result<(), SnapshotError> {
        self.psci = Some(state);
        Ok(())
    }
}

#[test]
fn test_should_round_trip_curated_sysregs_via_capture_and_restore() {
    let mut source = MockSource { mpidr: 0x42, ..Default::default() };
    source.sys.insert(SysReg::SctlrEl1, 0xCAFE_BEEF);
    source.sys.insert(SysReg::Ttbr0El1, 0xDEAD_BEAD);
    let state = capture_vcpu_state(&source).unwrap();
    assert_eq!(state.mpidr, 0x42);
    assert_eq!(state.sys_regs.len(), 2);

    let mut target = MockTarget::default();
    restore_vcpu_state(&mut target, &state, 0).unwrap();
    assert_eq!(target.sys.get(&SysReg::SctlrEl1), Some(&0xCAFE_BEEF));
    assert_eq!(target.sys.get(&SysReg::Ttbr0El1), Some(&0xDEAD_BEAD));
    assert_eq!(target.gp, Some(GpRegs::default()));
    assert_eq!(target.fp, Some(FpSimdRegs::default()));
}

#[test]
fn test_should_skip_sys_regs_the_source_returns_none_for() {
    let source = MockSource::default();
    let state = capture_vcpu_state(&source).unwrap();
    assert!(state.sys_regs.is_empty());
}

#[test]
fn test_should_normalize_psci_state_on_restore_for_bsp_only() {
    let mut state = VcpuState::new(0);
    state.psci_state = PsciVcpuState::Off;
    let mut target = MockTarget::default();
    restore_vcpu_state(&mut target, &state, 0).unwrap();
    assert_eq!(target.psci, Some(PsciVcpuState::On));
}

#[test]
fn test_should_normalize_psci_state_to_off_for_secondaries() {
    let mut state = VcpuState::new(1);
    state.psci_state = PsciVcpuState::On;
    let mut target = MockTarget::default();
    restore_vcpu_state(&mut target, &state, 1).unwrap();
    assert_eq!(target.psci, Some(PsciVcpuState::Off));
}

#[test]
fn test_should_reject_unknown_sys_reg_keys_on_restore() {
    let mut state = VcpuState::new(0);
    state.sys_regs.insert(u64::MAX, 0x1234);
    let mut target = MockTarget::default();
    let res = restore_vcpu_state(&mut target, &state, 0);
    assert!(matches!(res, Err(SnapshotError::Incompatible)));
    assert_eq!(target.psci, None);
}

#[test]
fn a_failed_write_ends_a_restore() {
    let mut state = VcpuState::new(0);
    state.sys_regs.insert(SysReg::VbarEl1.as_encoded(), 1);
    let mut target = MockTarget { full: true, ..Default::default() };
    let res = restore_vcpu_state(&mut target, &state, 0);
    assert!(matches!(res, Err(SnapshotError::QuiesceTimeout)));
    assert_eq!(target.psci, None);
    assert!(target.gp.is_some());
}

#[test]
fn states_are_put_together_from_readings() {
    let mut readings: Vec<Option<u64>> = vec![None; 47];
    readings[0] = Some(11);
    readings[46] = Some(12);
    let state = assemble_vcpu_state(
        9,
        GpRegs::default(),
        FpSimdRegs::default(),
        &readings,
        PsciVcpuState::OnPending,
    );
    assert_eq!(state.sys_regs.len(), 2);
    assert_eq!(state.sys_regs[&SysReg::SctlrEl1.as_encoded()], 11);
    assert_eq!(state.sys_regs[&SysReg::OsdlrEl1.as_encoded()], 12);
    assert_eq!(state.psci_state, PsciVcpuState::OnPending);
}

#[test]
fn test_should_provide_normalized_psci_helper() {
    assert_eq!(normalized_psci_state(0), PsciVcpuState::On);
    assert_eq!(normalized_psci_state(1), PsciVcpuState::Off);
    assert_eq!(normalized_psci_state(31), PsciVcpuState::Off);
}

fn small_request(
    state: MicrovmState,
    memory: &VecPageReader,
) -> SaveRequest<'_, VecPageReader> {
    SaveRequest {
        state_path: b"vm.snap".to_vec(),
        memory_path: b"vm.mem".to_vec(),
        kind: SnapshotKind::Full,
        state,
        memory,
        ram_size: 16 * 1024,
        memory_page_size: 16 * 1024,
        dirty: None,
    }
}

#[test]
fn save_aborts_when_state_file_path_is_invalid() {
    let mut state = build_state();
    state.vcpu_states.clear();
    let reader = VecPageReader::new(vec![0u8; 16 * 1024]);
    let res = save(small_request(state, &reader));
    assert!(matches!(res, Err(SnapshotError::Incompatible)));
}

#[test]
fn save_then_describe_produces_human_summary() {
    let mut state = build_state();
    state.vm_info.mem_size_mib = 4;
    state.vcpu_states = vec![VcpuState::new(0)];
    let reader = VecPageReader::new(vec![0u8; 16 * 1024]);
    let plan = save(small_request(state, &reader)).unwrap();
    let desc = describe(&plan.envelope, true, "vm.snap".to_string(), None, None);
    let h = desc.human();
    assert!(h.contains("vcpu_count:          1"));
    assert!(h.contains("mem_size_mib:        4"));
    assert!(h.contains("crc_ok:              yes"));
}
