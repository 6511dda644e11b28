//! Interrupt shadows, exit dispatch, register routing and guest memory bookkeeping.

use squib::arch::{IntId, SysReg, SYS_REG_COUNT};
use squib::gic::{pulse_levels, Gic, GicError, GicSizes, HvfGic};
use squib::hv::hotplug::{step_fault, HvfMemBackend};
use squib::hv::irq::{bit_position, IrqShadow, MAX_TRACKED_INTID, WORDS};
use squib::hv::run_loop::{
    decode_esr, decode_exception, resolve_hvc_psci, EsrDecoded, Exit, PsciOutcome,
};
use squib::hv::vcpu::HvfVcpu;
use squib::hv::vcpu_save::{
    access_fault, fp_control_writes, fp_regs_from, fp_writes, gp_accesses, gp_read_attempt,
    gp_regs_from, gp_write_attempt, gp_writes, join_halves, map_to_hvf_reg, map_to_hvf_sys_reg,
    route, split_halves, GpAccess, HvfSysReg, InProcMmdsSnapshot, Reg, Route, GP_COUNT, Q_COUNT,
};
use squib::hv::vmm::{
    check_layout, msi_range, GicLayout, HvfHypervisor, InitError, MSI_INTID_RESERVE,
};
use squib::snapshot::state::MmdsState;
use squib::snapshot::vcpu_save::{MmdsRestoreTarget, MmdsSnapshotSource};

#[test]
fn fresh_shadow_is_empty() {
    let shadow = IrqShadow::new();
    assert!(shadow.is_empty());
}

#[test]
fn inject_then_drain_emits_each_intid_exactly_once() {
    let mut shadow = IrqShadow::new();
    for intid in [33, 48, 49, 100, 1000, 1023] {
        assert!(shadow.inject(intid));
    }
    let mut seen = Vec::new();
    shadow.drain(|id| seen.push(id));
    seen.sort_unstable();
    assert_eq!(seen, vec![33, 48, 49, 100, 1000, 1023]);
    assert!(shadow.is_empty());
}

#[test]
fn draining_emits_what_is_pending_and_nothing_else() {
    let mut shadow = IrqShadow::new();
    shadow.drain(|id| panic!("nothing is pending, not even {id}"));
    for intid in [100, 33, 1023, 33, 4096] {
        shadow.inject(intid);
    }
    let mut seen = Vec::new();
    shadow.drain(|id| seen.push(id));
    assert_eq!(seen, vec![33, 100, 1023]);
    shadow.drain(|id| panic!("{id} was taken already"));
}

#[test]
fn duplicate_inject_is_idempotent() {
    let mut shadow = IrqShadow::new();
    assert!(shadow.inject(33));
    assert!(!shadow.inject(33), "second inject must observe already-set bit");
    let mut count = 0;
    shadow.drain(|_| count += 1);
    assert_eq!(count, 1);
}

#[test]
fn out_of_range_inject_is_silently_dropped() {
    let mut shadow = IrqShadow::new();
    assert!(!shadow.inject(MAX_TRACKED_INTID));
    assert!(!shadow.inject(u32::MAX));
    assert!(shadow.is_empty());
}

#[test]
fn bit_position_round_trips_for_full_range() {
    for intid in 0..MAX_TRACKED_INTID {
        let (word, mask) = bit_position(intid).unwrap();
        assert!(word < WORDS);
        assert_eq!(mask.count_ones(), 1);
    }
    assert_eq!(bit_position(65), Some((1, 2)));
    assert_eq!(bit_position(MAX_TRACKED_INTID), None);
}

#[test]
fn taken_interrupts_come_in_order() {
    let mut shadow = IrqShadow::new();
    for intid in [1023, 33, 64, 63] {
        shadow.inject(intid);
    }
    assert_eq!(shadow.take(), vec![33, 63, 64, 1023]);
    assert!(shadow.is_empty());
    assert!(shadow.inject(33));
}

fn esr(ec: u8, iss: u64) -> u64 {
    (u64::from(ec) << 26) | (iss & 0x01FF_FFFF)
}

#[test]
fn data_abort_produces_mmio_with_advance_pc() {
    let iss = (1u64 << 6) | (1u64 << 15) | (5u64 << 16) | (2u64 << 22);
    let dispatch = decode_exception(esr(0x24, iss), 0xDEAD_BEEF, |_| 0);
    assert!(dispatch.advance_pc);
    match dispatch.exit {
        Exit::Mmio { addr, write, sas, srt, sf } => {
            assert_eq!(addr, 0xDEAD_BEEF);
            assert!(write);
            assert_eq!(sas, 2);
            assert_eq!(srt, 5);
            assert!(sf);
        }
        other => panic!("expected Mmio, got {other:?}"),
    }
}

#[test]
fn hvc_carries_x0_through_x3() {
    let dispatch = decode_exception(esr(0x16, 0xABCD), 0, |i| u64::from(i) + 100);
    assert!(dispatch.advance_pc);
    match dispatch.exit {
        Exit::Hvc { imm16, args } => {
            assert_eq!(imm16, 0xABCD);
            assert_eq!(args, [100, 101, 102, 103]);
        }
        other => panic!("expected Hvc, got {other:?}"),
    }
}

#[test]
fn registers_are_read_for_hypercalls_only() {
    for class in 0..64 {
        let mut asked = Vec::new();
        decode_exception(esr(class, 0), 0, |i| {
            asked.push(i);
            0
        });
        let expected: Vec<u8> = if class == 0x16 { vec![0, 1, 2, 3] } else { vec![] };
        assert_eq!(asked, expected, "class {class:#x}");
    }
}

#[test]
fn smc_routes_to_psci_not_supported_with_pc_advance() {
    let dispatch = decode_exception(esr(0x17, 0x42), 0, |_| 0);
    assert!(dispatch.advance_pc);
    assert!(matches!(dispatch.exit, Exit::SmcHandledAsPsciNotSupported { imm16: 0x42 }));
}

#[test]
fn wfi_does_not_advance_pc() {
    let dispatch = decode_exception(esr(0x01, 0), 0, |_| 0);
    assert!(!dispatch.advance_pc);
    assert!(matches!(dispatch.exit, Exit::Wfi));
}

#[test]
fn wfe_does_not_advance_pc() {
    let dispatch = decode_exception(esr(0x01, 1), 0, |_| 0);
    assert!(!dispatch.advance_pc);
    assert!(matches!(dispatch.exit, Exit::Wfe));
}

#[test]
fn brk_does_not_advance_pc() {
    let dispatch = decode_exception(esr(0x3C, 0xF000), 0, |_| 0);
    assert!(!dispatch.advance_pc);
    assert!(matches!(dispatch.exit, Exit::Brk { imm16: 0xF000 }));
}

#[test]
fn unknown_ec_routes_to_unknown_exception_without_pc_advance() {
    let dispatch = decode_exception(esr(0x10, 0xFEED), 0, |_| 0);
    assert!(!dispatch.advance_pc);
    assert!(matches!(dispatch.exit, Exit::UnknownExceptionClass { ec: 0x10, .. }));
    match decode_esr(esr(0x10, 0xFEED)) {
        EsrDecoded::Other { ec, raw } => {
            assert_eq!(ec, 0x10);
            assert_eq!(raw, esr(0x10, 0xFEED));
        }
        other => panic!("expected Other, got {other:?}"),
    }
}

#[derive(Debug, Clone, Copy, PartialEq, Eq)]
enum PowerAction {
    BringUpSecondary { target_cpu: u64, entry_point: u64, context_id: u64 },
}

fn psci(function: u32, args: [u64; 3]) -> PsciOutcome<PowerAction> {
    match function {
        0x8400_0000 => PsciOutcome::Return(0x0001_0001),
        0xC400_0003 => PsciOutcome::Action(PowerAction::BringUpSecondary {
            target_cpu: args[0],
            entry_point: args[1],
            context_id: args[2],
        }),
        _ => PsciOutcome::Return(u64::MAX),
    }
}

#[test]
fn psci_resolve_unknown_function_id_returns_not_supported() {
    let (x0, outcome) = resolve_hvc_psci([0xDEAD_BEEF, 0, 0, 0], psci);
    assert_eq!(outcome, PsciOutcome::Return(u64::MAX));
    let low_32 = (x0 & 0xFFFF_FFFF) as u32;
    assert_eq!(low_32, 0xFFFF_FFFF);
}

#[test]
fn psci_resolve_version_returns_one_one() {
    let (x0, _outcome) = resolve_hvc_psci([0x8400_0000, 0, 0, 0], psci);
    assert_eq!(x0, 0x0001_0001);
}

#[test]
fn psci_resolve_cpu_on_carries_secondary_args_through() {
    let (x0, outcome) =
        resolve_hvc_psci([0xC400_0003, 0xAABB_CCDD, 0x8000_0000, 0xDEAD_BEEF], psci);
    assert_eq!(x0, 0);
    assert!(matches!(
        outcome,
        PsciOutcome::Action(PowerAction::BringUpSecondary {
            target_cpu: 0xAABB_CCDD,
            entry_point: 0x8000_0000,
            context_id: 0xDEAD_BEEF,
        })
    ));
}

#[test]
fn upper_half_of_the_function_register_is_ignored() {
    let (x0, _outcome) = resolve_hvc_psci([0xFFFF_FFFF_8400_0000, 0, 0, 0], psci);
    assert_eq!(x0, 0x0001_0001);
}

#[test]
fn exits_have_text() {
    assert_eq!(Exit::Wfi.text(), "WFI");
    let mmio = Exit::Mmio { addr: 0x1000, write: true, sas: 2, srt: 5, sf: false };
    assert_eq!(mmio.text(), "MMIO write addr=0x0000000000001000");
    let hvc = Exit::Hvc { imm16: 7, args: [0xFFFF_FFFF_8400_0000, 0, 0, 0] };
    assert_eq!(hvc.text(), "HVC imm16=0x0007 fid=0x84000000");
    let unknown = Exit::UnknownExceptionClass { ec: 0x10, raw: 0x4000_FEED };
    assert_eq!(unknown.text(), "UnknownExceptionClass(ec=0x10 esr=0x000000004000feed)");
    let sysreg =
        Exit::SystemRegister { read: true, op0: 3, op1: 0, crn: 1, crm: 0, op2: 2, xt: 9 };
    assert_eq!(sysreg.text(), "MRS sysreg op0=3 op1=0 crn=1 crm=0 op2=2 xt=9");
}

#[test]
fn affinity_check_rejects_other_threads() {
    let vcpu = HvfVcpu::new(0, 0, 7);
    assert!(vcpu.check_affinity(7).is_ok());
    let err = vcpu.check_affinity(8).unwrap_err();
    assert_eq!(err.expected, 7);
    assert_eq!(err.actual, 8);
}

#[test]
fn vcpu_index_and_mpidr_round_trip() {
    let vcpu = HvfVcpu::new(3, 0x0103, 1);
    assert_eq!(vcpu.index, 3);
    assert_eq!(vcpu.mpidr, 0x0103);
    assert!(vcpu.irq_shadow.is_empty());
}

#[test]
fn test_should_route_curated_sysregs_to_hvf_or_skip() {
    for reg in SysReg::all() {
        let sys_route = map_to_hvf_sys_reg(reg);
        let reg_route = map_to_hvf_reg(reg);
        assert!(
            !(sys_route.is_some() && reg_route.is_some()),
            "{reg:?} routes through both sys_reg and reg paths"
        );
        match route(reg) {
            Route::Sys(h) => assert_eq!(Some(h), sys_route),
            Route::Plain(p) => assert_eq!(Some(p), reg_route),
            Route::Skip => assert!(sys_route.is_none() && reg_route.is_none()),
        }
    }
}

#[test]
fn test_should_route_fpcr_fpsr_via_reg_path_only() {
    assert_eq!(map_to_hvf_reg(SysReg::Fpcr), Some(Reg::FPCR));
    assert_eq!(map_to_hvf_reg(SysReg::Fpsr), Some(Reg::FPSR));
    assert_eq!(map_to_hvf_sys_reg(SysReg::Fpcr), None);
    assert_eq!(map_to_hvf_sys_reg(SysReg::Fpsr), None);
}

#[test]
fn test_should_skip_pmu_oslar_osdlr_cntfrq() {
    for reg in [
        SysReg::CntFrqEl0,
        SysReg::PmCcntrEl0,
        SysReg::PmCcfiltrEl0,
        SysReg::PmUserEnrEl0,
        SysReg::PmCrEl0,
        SysReg::PmCntEnSetEl0,
        SysReg::PmOvsSetEl0,
        SysReg::PmSelrEl0,
        SysReg::OslarEl1,
        SysReg::OsdlrEl1,
    ] {
        assert_eq!(map_to_hvf_sys_reg(reg), None, "{reg:?} unexpectedly routed to HVF");
        assert_eq!(map_to_hvf_reg(reg), None, "{reg:?} unexpectedly routed via Reg path");
        assert_eq!(route(reg), Route::Skip);
    }
}

#[test]
fn test_should_route_canonical_boot_sysregs() {
    assert_eq!(map_to_hvf_sys_reg(SysReg::SctlrEl1), Some(HvfSysReg::SCTLR_EL1));
    assert_eq!(map_to_hvf_sys_reg(SysReg::Ttbr0El1), Some(HvfSysReg::TTBR0_EL1));
    assert_eq!(map_to_hvf_sys_reg(SysReg::SpEl1), Some(HvfSysReg::SP_EL1));
    assert_eq!(map_to_hvf_sys_reg(SysReg::VbarEl1), Some(HvfSysReg::VBAR_EL1));
    assert_eq!(map_to_hvf_sys_reg(SysReg::EsrEl1), Some(HvfSysReg::ESR_EL1));
    assert_eq!(map_to_hvf_sys_reg(SysReg::MpidrEl1), Some(HvfSysReg::MPIDR_EL1));
    assert_eq!(map_to_hvf_sys_reg(SysReg::CntvCtlEl0), Some(HvfSysReg::CNTV_CTL_EL0));
}

#[test]
fn register_keys_round_trip() {
    let all = SysReg::all();
    assert_eq!(all.len(), SYS_REG_COUNT);
    for reg in all {
        assert_eq!(SysReg::from_encoded(reg.as_encoded()), Some(reg));
    }
    assert_eq!(SysReg::SctlrEl1.as_encoded(), 0xC080);
    assert_eq!(SysReg::MdscrEl1.as_encoded(), 0x8012);
    assert_eq!(SysReg::from_encoded(u64::MAX), None);
    assert_eq!(SysReg::from_encoded(0), None);
}

#[test]
fn general_purpose_file_round_trips() {
    let values: Vec<u64> = (0..GP_COUNT as u64).map(|i| i * 3 + 1).collect();
    let regs = gp_regs_from(&values);
    assert_eq!(regs.x[0], 1);
    assert_eq!(regs.x[30], 91);
    assert_eq!(regs.sp, 94);
    assert_eq!(regs.pc, 97);
    assert_eq!(regs.pstate, 100);
    let order = gp_accesses();
    let writes = gp_writes(&regs);
    assert_eq!(writes.len(), GP_COUNT);
    for (i, (access, value)) in writes.iter().enumerate() {
        assert_eq!(*access, order[i]);
        assert_eq!(*value, values[i]);
    }
    assert_eq!(order[30], GpAccess::Plain(Reg::X(30)));
    assert_eq!(order[31], GpAccess::Sys(HvfSysReg::SP_EL1));
    assert_eq!(order[32], GpAccess::Plain(Reg::PC));
    assert_eq!(order[33], GpAccess::Plain(Reg::CPSR));
}

#[test]
fn vector_registers_split_and_join() {
    let raw: u128 = 0x0123_4567_89AB_CDEF_FEDC_BA98_7654_3210;
    assert_eq!(split_halves(raw), [0xFEDC_BA98_7654_3210, 0x0123_4567_89AB_CDEF]);
    assert_eq!(join_halves(0xFEDC_BA98_7654_3210, 0x0123_4567_89AB_CDEF), raw);
    assert_eq!(split_halves(u128::MAX), [u64::MAX, u64::MAX]);
    let q: Vec<u128> = (0..Q_COUNT as u128).map(|i| (i << 100) | (i + 7)).collect();
    let regs = fp_regs_from(&q, 5, 6);
    assert_eq!(regs.fpcr, 5);
    assert_eq!(regs.fpsr, 6);
    assert_eq!(regs.v[31], [38, 31 << 36]);
    assert_eq!(fp_writes(&regs), q);
    assert_eq!(fp_control_writes(&regs), [(Reg::FPCR, 5), (Reg::FPSR, 6)]);
}

#[test]
fn failed_accesses_are_named() {
    assert_eq!(gp_read_attempt(GpAccess::Plain(Reg::X(4))), "get_reg X");
    assert_eq!(gp_read_attempt(GpAccess::Sys(HvfSysReg::SP_EL1)), "get_sys_reg SP_EL1");
    assert_eq!(gp_write_attempt(GpAccess::Plain(Reg::CPSR)), "set_reg CPSR");
    assert_eq!(access_fault("get_reg X", "BadArgument"), "HVF get_reg X: BadArgument");
}

#[test]
fn metadata_is_kept_between_capture_and_restore() {
    let mut kept = InProcMmdsSnapshot::new();
    assert_eq!(kept.capture().unwrap(), None);
    let state = MmdsState { data_json: "{\"a\":1}".to_string(), token_ttl_seconds: Some(60) };
    kept.set(Some(state.clone()));
    assert_eq!(kept.capture().unwrap(), Some(state.clone()));
    kept.restore(None).unwrap();
    assert_eq!(kept.capture().unwrap(), Some(state));
    let other = MmdsState { data_json: "{}".to_string(), token_ttl_seconds: None };
    kept.restore(Some(&other)).unwrap();
    assert_eq!(kept.capture().unwrap(), Some(other));
    let mut fresh = InProcMmdsSnapshot::new();
    fresh.restore(None).unwrap();
    assert_eq!(fresh.capture().unwrap(), None);
}

fn layout() -> GicLayout {
    GicLayout {
        distributor_base: 0x0800_0000,
        redistributor_base: 0x080A_0000,
        msi_region_base: 0x07F0_0000,
        device_base: 0x0E0A_0000,
    }
}

#[test]
fn hvf_hypervisor_new_is_zero_sized() {
    let hv = HvfHypervisor::new();
    assert_eq!(std::mem::size_of_val(&hv), 0);
}

#[test]
fn init_vm_on_non_macos_returns_unsupported_host() {
    let hv = HvfHypervisor::new();
    let err = hv.init_vm(&layout(), 1, 0x0002_0000, None).unwrap_err();
    assert!(matches!(err, InitError::UnsupportedHost));
    assert_eq!(
        err.message(),
        "squib-hv requires macOS; compile target is not Apple Silicon"
    );
}

#[test]
fn init_vm_reserves_the_topmost_interrupts() {
    let hv = HvfHypervisor::new();
    let (plan, vm) = hv.init_vm(&layout(), 4, 0x0002_0000, Some((32, 988))).unwrap();
    assert_eq!(plan.msi_count, MSI_INTID_RESERVE);
    assert_eq!(plan.msi_base, 32 + 988 - 64);
    assert_eq!(plan.redistributor_base, 0x080A_0000);
    assert_eq!(vm.vcpu_count(), 4);
    assert_eq!(msi_range(32, 10), (32, 10));
    assert_eq!(msi_range(0, 0), (0, 0));
}

#[test]
fn overlapping_redistributors_are_refused() {
    let fits = check_layout(&layout(), 32, 0x30_0000);
    assert!(fits.is_ok());
    let err = check_layout(&layout(), 33, 0x30_0000).unwrap_err();
    assert_eq!(
        err,
        InitError::LayoutOverlap {
            vcpu_count: 33,
            live_gicr_end: 0x080A_0000 + 33 * 0x30_0000,
            boundary: 0x0E0A_0000,
        }
    );
    assert_eq!(
        err.message(),
        "GIC layout overlap: vcpu_count=33, live_gicr_end=0xe3a0000 crosses PL011 base 0xe0a0000"
    );
    let err = check_layout(&layout(), u32::MAX, u64::MAX).unwrap_err();
    assert!(matches!(
        err,
        InitError::LayoutOverlap { vcpu_count: u32::MAX, live_gicr_end: u64::MAX, .. }
    ));
}

#[test]
fn writes_stay_inside_their_region() {
    let hv = HvfHypervisor::new();
    let (_plan, mut vm) = hv.init_vm(&layout(), 1, 0x0002_0000, Some((32, 988))).unwrap();
    let err = vm.write_to_first_region(0x8000_0000, 0).unwrap_err();
    assert_eq!(err, InitError::Hvf("no regions mapped".to_string()));
    let region = vm.map_memory(0x8000_0000, 0x4000);
    let write = vm.write_to_region(&region, 0x3FFC, 4).unwrap();
    assert_eq!(write.slot, 0);
    assert_eq!(write.guest_addr, 0x8000_3FFC);
    let err = vm.write_to_region(&region, 0x3FFD, 4).unwrap_err();
    assert_eq!(
        err.message(),
        "HVF init error: write 4 bytes at offset 16381 escapes region of size 16384"
    );
    let first = vm.write_to_first_region(0x8000_0000, 16).unwrap();
    assert_eq!(first.guest_addr, 0x8000_0010);
    let mut stranger = region;
    stranger.slot_index = 9;
    let err = vm.write_to_region(&stranger, 0, 1).unwrap_err();
    assert_eq!(err, InitError::Hvf("no mapped region #9".to_string()));
}

#[test]
fn memory_is_plugged_and_unplugged() {
    let mut backend: HvfMemBackend<u8> = HvfMemBackend::new();
    assert_eq!(backend.plugged_region_count(), 0);
    backend.plug(0x1_0000_0000, 1).unwrap();
    backend.plug(0x1_0020_0000, 2).unwrap();
    assert_eq!(backend.plugged_region_count(), 2);
    let err = backend.plug(0x1_0000_0000, 3).unwrap_err();
    assert_eq!(
        err,
        "HvfMemBackend::plug: guest_base 0x100000000 already mapped (virtio-mem invariant \
         violation)"
    );
    assert_eq!(backend.unplug(0x1_0000_0000, 0x20_0000), Ok(3));
    let err = backend.unplug(0x1_0000_0000, 0x20_0000).unwrap_err();
    assert_eq!(err, "HvfMemBackend::unplug(0x100000000, 2097152): not plugged");
    assert_eq!(backend.plugged_region_count(), 1);
    assert_eq!(
        step_fault("plug", 16, 32, "map: Busy"),
        "HvfMemBackend::plug(0x10, 32): map: Busy"
    );
}

#[test]
fn stub_methods_return_unsupported_host() {
    let gic = HvfGic::new_stub();
    let intid = IntId::from_spi_cell(16).unwrap();
    assert!(matches!(gic.pulse_spi(intid), Err(GicError::UnsupportedHost)));
    assert!(matches!(gic.set_spi_level(intid, true), Err(GicError::UnsupportedHost)));
    assert!(matches!(gic.save_state(), Err(GicError::UnsupportedHost)));
    assert!(matches!(gic.restore_state(&[]), Err(GicError::UnsupportedHost)));
}

fn accepts_intid<G: Gic>(gic: &G, id: IntId) -> Result<(), GicError> {
    gic.pulse_spi(id)
}

#[test]
fn pulse_spi_requires_validated_intid_via_squib_arch() {
    let id = IntId::from_spi_cell(1).unwrap();
    assert_eq!(id.as_raw(), 33);
    assert!(accepts_intid(&HvfGic::new_stub(), id).is_err());
    assert_eq!(pulse_levels(), [true, false]);
    assert!(IntId::from_spi_cell(988).is_none());
    assert_eq!(IntId::from_spi_cell(987).unwrap().as_raw(), 1019);
}

#[test]
fn gic_sizes_need_a_host() {
    assert!(matches!(GicSizes::query(None), Err(GicError::UnsupportedHost)));
    let sizes = GicSizes::query(Some((0x1_0000, 0x2_0000))).unwrap();
    assert_eq!(sizes.distributor, 0x1_0000);
    assert_eq!(sizes.redistributor_per_vcpu, 0x2_0000);
    assert_eq!(GicError::Hvf("Busy".to_string()).message(), "HVF GIC error: Busy");
    assert_eq!(
        GicError::UnsupportedHost.message(),
        "squib-gic requires macOS; this build target lacks HVF"
    );
}
