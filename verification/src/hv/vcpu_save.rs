//! The registers of a vCPU as Hypervisor.framework names them, and what is read and
//! written of them for a snapshot.

use vstd::prelude::*;
use vstd::string::*;

use crate::arch::SysReg;
use crate::snapshot::error::SnapshotError;
use crate::snapshot::state::{FpSimdRegs, GpRegs, MmdsState};
use crate::snapshot::vcpu_save::{MmdsRestoreTarget, MmdsSnapshotSource};

verus! {

/// The system registers that Hypervisor.framework gives access to.
#[allow(non_camel_case_types)]
#[derive(Clone, Copy, Debug, PartialEq, Eq, Structural)]
pub enum HvfSysReg {
    SCTLR_EL1,
    TTBR0_EL1,
    TTBR1_EL1,
    MAIR_EL1,
    AMAIR_EL1,
    TCR_EL1,
    SP_EL1,
    ELR_EL1,
    SPSR_EL1,
    VBAR_EL1,
    ID_AA64MMFR0_EL1,
    ID_AA64MMFR1_EL1,
    ID_AA64PFR0_EL1,
    ID_AA64PFR1_EL1,
    ID_AA64DFR0_EL1,
    ID_AA64ISAR0_EL1,
    ID_AA64ISAR1_EL1,
    MPIDR_EL1,
    CNTV_CTL_EL0,
    CNTV_CVAL_EL0,
    CNTVOFF_EL2,
    CNTKCTL_EL1,
    CNTP_CTL_EL0,
    CNTP_CVAL_EL0,
    ESR_EL1,
    FAR_EL1,
    AFSR0_EL1,
    AFSR1_EL1,
    CONTEXTIDR_EL1,
    TPIDR_EL0,
    TPIDRRO_EL0,
    TPIDR_EL1,
    PAR_EL1,
    CPACR_EL1,
    MDSCR_EL1,
}

impl HvfSysReg {
    /// The register that it is.
    pub open spec fn register(self) -> SysReg {
        match self {
            HvfSysReg::SCTLR_EL1 => SysReg::SctlrEl1,
            HvfSysReg::TTBR0_EL1 => SysReg::Ttbr0El1,
            HvfSysReg::TTBR1_EL1 => SysReg::Ttbr1El1,
            HvfSysReg::MAIR_EL1 => SysReg::MairEl1,
            HvfSysReg::AMAIR_EL1 => SysReg::AmairEl1,
            HvfSysReg::TCR_EL1 => SysReg::TcrEl1,
            HvfSysReg::SP_EL1 => SysReg::SpEl1,
            HvfSysReg::ELR_EL1 => SysReg::ElrEl1,
            HvfSysReg::SPSR_EL1 => SysReg::SpsrEl1,
            HvfSysReg::VBAR_EL1 => SysReg::VbarEl1,
            HvfSysReg::ID_AA64MMFR0_EL1 => SysReg::IdAa64Mmfr0El1,
            HvfSysReg::ID_AA64MMFR1_EL1 => SysReg::IdAa64Mmfr1El1,
            HvfSysReg::ID_AA64PFR0_EL1 => SysReg::IdAa64Pfr0El1,
            HvfSysReg::ID_AA64PFR1_EL1 => SysReg::IdAa64Pfr1El1,
            HvfSysReg::ID_AA64DFR0_EL1 => SysReg::IdAa64Dfr0El1,
            HvfSysReg::ID_AA64ISAR0_EL1 => SysReg::IdAa64Isar0El1,
            HvfSysReg::ID_AA64ISAR1_EL1 => SysReg::IdAa64Isar1El1,
            HvfSysReg::MPIDR_EL1 => SysReg::MpidrEl1,
            HvfSysReg::CNTV_CTL_EL0 => SysReg::CntvCtlEl0,
            HvfSysReg::CNTV_CVAL_EL0 => SysReg::CntvCvalEl0,
            HvfSysReg::CNTVOFF_EL2 => SysReg::CntvOffEl2,
            HvfSysReg::CNTKCTL_EL1 => SysReg::CntKctlEl1,
            HvfSysReg::CNTP_CTL_EL0 => SysReg::CntpCtlEl0,
            HvfSysReg::CNTP_CVAL_EL0 => SysReg::CntpCvalEl0,
            HvfSysReg::ESR_EL1 => SysReg::EsrEl1,
            HvfSysReg::FAR_EL1 => SysReg::FarEl1,
            HvfSysReg::AFSR0_EL1 => SysReg::Afsr0El1,
            HvfSysReg::AFSR1_EL1 => SysReg::Afsr1El1,
            HvfSysReg::CONTEXTIDR_EL1 => SysReg::ContextIdrEl1,
            HvfSysReg::TPIDR_EL0 => SysReg::TpidrEl0,
            HvfSysReg::TPIDRRO_EL0 => SysReg::TpidrroEl0,
            HvfSysReg::TPIDR_EL1 => SysReg::TpidrEl1,
            HvfSysReg::PAR_EL1 => SysReg::ParEl1,
            HvfSysReg::CPACR_EL1 => SysReg::CpacrEl1,
            HvfSysReg::MDSCR_EL1 => SysReg::MdscrEl1,
        }
    }
}

/// The registers that are not system registers to Hypervisor.framework.
#[derive(Clone, Copy, Debug, PartialEq, Eq, Structural)]
pub enum Reg {
    /// X0 to X30, by number.
    X(u8),
    PC,
    CPSR,
    FPCR,
    FPSR,
}

/// Whether a register is reached as a plain one: the two of the floating-point unit.
pub open spec fn is_plain(reg: SysReg) -> bool {
    reg == SysReg::Fpcr || reg == SysReg::Fpsr
}

/// Whether Hypervisor.framework hides a register: the counter frequency, the performance
/// monitors and the two debug locks.
pub open spec fn is_hidden(reg: SysReg) -> bool {
    match reg {
        SysReg::CntFrqEl0 | SysReg::PmCcntrEl0 | SysReg::PmCcfiltrEl0 | SysReg::PmUserEnrEl0
        | SysReg::PmCrEl0 | SysReg::PmCntEnSetEl0 | SysReg::PmOvsSetEl0 | SysReg::PmSelrEl0
        | SysReg::OslarEl1 | SysReg::OsdlrEl1 => true,
        _ => false,
    }
}

/// The system register of Hypervisor.framework for `reg`; none for one that is hidden or
/// is reached as a plain register.
pub fn map_to_hvf_sys_reg(reg: SysReg) -> (r: Option<HvfSysReg>)
    ensures
        match r {
            Some(h) => h.register() == reg,
            None => is_hidden(reg) || is_plain(reg),
        },
        r is Some ==> !is_hidden(reg) && !is_plain(reg),
{
    match reg {
        SysReg::SctlrEl1 => Some(HvfSysReg::SCTLR_EL1),
        SysReg::Ttbr0El1 => Some(HvfSysReg::TTBR0_EL1),
        SysReg::Ttbr1El1 => Some(HvfSysReg::TTBR1_EL1),
        SysReg::MairEl1 => Some(HvfSysReg::MAIR_EL1),
        SysReg::AmairEl1 => Some(HvfSysReg::AMAIR_EL1),
        SysReg::TcrEl1 => Some(HvfSysReg::TCR_EL1),
        SysReg::SpEl1 => Some(HvfSysReg::SP_EL1),
        SysReg::ElrEl1 => Some(HvfSysReg::ELR_EL1),
        SysReg::SpsrEl1 => Some(HvfSysReg::SPSR_EL1),
        SysReg::VbarEl1 => Some(HvfSysReg::VBAR_EL1),
        SysReg::IdAa64Mmfr0El1 => Some(HvfSysReg::ID_AA64MMFR0_EL1),
        SysReg::IdAa64Mmfr1El1 => Some(HvfSysReg::ID_AA64MMFR1_EL1),
        SysReg::IdAa64Pfr0El1 => Some(HvfSysReg::ID_AA64PFR0_EL1),
        SysReg::IdAa64Pfr1El1 => Some(HvfSysReg::ID_AA64PFR1_EL1),
        SysReg::IdAa64Dfr0El1 => Some(HvfSysReg::ID_AA64DFR0_EL1),
        SysReg::IdAa64Isar0El1 => Some(HvfSysReg::ID_AA64ISAR0_EL1),
        SysReg::IdAa64Isar1El1 => Some(HvfSysReg::ID_AA64ISAR1_EL1),
        SysReg::MpidrEl1 => Some(HvfSysReg::MPIDR_EL1),
        SysReg::CntvCtlEl0 => Some(HvfSysReg::CNTV_CTL_EL0),
        SysReg::CntvCvalEl0 => Some(HvfSysReg::CNTV_CVAL_EL0),
        SysReg::CntvOffEl2 => Some(HvfSysReg::CNTVOFF_EL2),
        SysReg::CntKctlEl1 => Some(HvfSysReg::CNTKCTL_EL1),
        SysReg::CntpCtlEl0 => Some(HvfSysReg::CNTP_CTL_EL0),
        SysReg::CntpCvalEl0 => Some(HvfSysReg::CNTP_CVAL_EL0),
        SysReg::EsrEl1 => Some(HvfSysReg::ESR_EL1),
        SysReg::FarEl1 => Some(HvfSysReg::FAR_EL1),
        SysReg::Afsr0El1 => Some(HvfSysReg::AFSR0_EL1),
        SysReg::Afsr1El1 => Some(HvfSysReg::AFSR1_EL1),
        SysReg::ContextIdrEl1 => Some(HvfSysReg::CONTEXTIDR_EL1),
        SysReg::TpidrEl0 => Some(HvfSysReg::TPIDR_EL0),
        SysReg::TpidrroEl0 => Some(HvfSysReg::TPIDRRO_EL0),
        SysReg::TpidrEl1 => Some(HvfSysReg::TPIDR_EL1),
        SysReg::ParEl1 => Some(HvfSysReg::PAR_EL1),
        SysReg::CpacrEl1 => Some(HvfSysReg::CPACR_EL1),
        SysReg::MdscrEl1 => Some(HvfSysReg::MDSCR_EL1),
        _ => None,
    }
}

/// The plain register of Hypervisor.framework for `reg`, if it is reached as one.
pub fn map_to_hvf_reg(reg: SysReg) -> (r: Option<Reg>)
    ensures
        r == match reg {
            SysReg::Fpcr => Some(Reg::FPCR),
            SysReg::Fpsr => Some(Reg::FPSR),
            _ => None,
        },
{
    match reg {
        SysReg::Fpcr => Some(Reg::FPCR),
        SysReg::Fpsr => Some(Reg::FPSR),
        _ => None,
    }
}

/// How a saved register is reached.
#[derive(Clone, Copy, Debug, PartialEq, Eq, Structural)]
pub enum Route {
    Sys(HvfSysReg),
    Plain(Reg),
    /// It is left out of a snapshot, and a saved value of it is dropped.
    Skip,
}

/// How `reg` is reached, for reading and for writing.
pub fn route(reg: SysReg) -> (r: Route)
    ensures
        match r {
            Route::Sys(h) => h.register() == reg && !is_hidden(reg) && !is_plain(reg),
            Route::Plain(p) => is_plain(reg) && p == (if reg == SysReg::Fpcr {
                Reg::FPCR
            } else {
                Reg::FPSR
            }),
            Route::Skip => is_hidden(reg),
        },
{
    match map_to_hvf_sys_reg(reg) {
        Some(h) => Route::Sys(h),
        None => match map_to_hvf_reg(reg) {
            Some(p) => Route::Plain(p),
            None => Route::Skip,
        },
    }
}

/// One of the registers that make up the general-purpose file.
#[derive(Clone, Copy, Debug, PartialEq, Eq, Structural)]
pub enum GpAccess {
    Plain(Reg),
    Sys(HvfSysReg),
}

/// Number of registers in the general-purpose file.
pub const GP_COUNT: usize = 34;

/// The general-purpose file in the order in which it is read and written: X0 to X30, the
/// stack pointer, the program counter, the processor state.
pub open spec fn gp_order() -> Seq<GpAccess> {
    Seq::new(
        GP_COUNT as nat,
        |i: int|
            if i < 31 {
                GpAccess::Plain(Reg::X(i as u8))
            } else if i == 31 {
                GpAccess::Sys(HvfSysReg::SP_EL1)
            } else if i == 32 {
                GpAccess::Plain(Reg::PC)
            } else {
                GpAccess::Plain(Reg::CPSR)
            },
    )
}

/// The values of the general-purpose file in that order.
pub open spec fn gp_values_of(regs: GpRegs) -> Seq<u64> {
    regs.x@ + seq![regs.sp, regs.pc, regs.pstate]
}

/// The registers to read for the general-purpose file.
pub fn gp_accesses() -> (v: Vec<GpAccess>)
    ensures
        v@ == gp_order(),
{
    let mut v: Vec<GpAccess> = Vec::new();
    let mut i: u8 = 0;
    while i < 31
        invariant
            i <= 31,
            v@ =~= gp_order().take(i as int),
        decreases 31 - i,
    {
        v.push(GpAccess::Plain(Reg::X(i)));
        i = i + 1;
    }
    v.push(GpAccess::Sys(HvfSysReg::SP_EL1));
    v.push(GpAccess::Plain(Reg::PC));
    v.push(GpAccess::Plain(Reg::CPSR));
    assert(v@ =~= gp_order());
    v
}

/// The general-purpose file from the values that were read, in the order of reading.
pub fn gp_regs_from(values: &[u64]) -> (regs: GpRegs)
    requires
        values@.len() == GP_COUNT,
    ensures
        gp_values_of(regs) == values@,
{
    let mut x: [u64; 31] = [0u64; 31];
    let mut i: usize = 0;
    while i < 31
        invariant
            i <= 31,
            values@.len() == GP_COUNT,
            forall|k: int| 0 <= k < i ==> #[trigger] x@[k] == values@[k],
        decreases 31 - i,
    {
        x[i] = values[i];
        i = i + 1;
    }
    let regs = GpRegs { x, sp: values[31], pc: values[32], pstate: values[33] };
    assert(gp_values_of(regs) =~= values@);
    regs
}

/// The writes that put the general-purpose file back.
pub fn gp_writes(regs: &GpRegs) -> (v: Vec<(GpAccess, u64)>)
    ensures
        v@.len() == GP_COUNT,
        forall|i: int|
            0 <= i < GP_COUNT ==> #[trigger] v@[i] == (gp_order()[i], gp_values_of(*regs)[i]),
{
    let order = gp_accesses();
    let mut v: Vec<(GpAccess, u64)> = Vec::new();
    let mut i: usize = 0;
    while i < 31
        invariant
            i <= 31,
            order@ == gp_order(),
            v@.len() == i,
            forall|k: int|
                0 <= k < i ==> #[trigger] v@[k] == (gp_order()[k], gp_values_of(*regs)[k]),
        decreases 31 - i,
    {
        v.push((order[i], regs.x[i]));
        i = i + 1;
    }
    v.push((order[31], regs.sp));
    v.push((order[32], regs.pc));
    v.push((order[33], regs.pstate));
    v
}

/// Number of vector registers.
pub const Q_COUNT: usize = 32;

/// Two halves as one register.
pub open spec fn joined(lo: u64, hi: u64) -> int {
    hi * 0x1_0000_0000_0000_0000 + lo
}

/// Splits a vector register into its low and its high half.
pub fn split_halves(raw: u128) -> (h: [u64; 2])
    ensures
        joined(h[0], h[1]) == raw,
{
    let lo: u64 = (raw % 0x1_0000_0000_0000_0000u128) as u64;
    let hi: u64 = (raw / 0x1_0000_0000_0000_0000u128) as u64;
    [lo, hi]
}

/// Joins the two halves of a vector register.
pub fn join_halves(lo: u64, hi: u64) -> (raw: u128)
    ensures
        raw == joined(lo, hi),
{
    (hi as u128) * 0x1_0000_0000_0000_0000u128 + (lo as u128)
}

/// The floating-point file from the values that were read: Q0 to Q31, the control and the
/// status register.
pub fn fp_regs_from(q: &[u128], fpcr: u64, fpsr: u64) -> (regs: FpSimdRegs)
    requires
        q@.len() == Q_COUNT,
    ensures
        forall|i: int|
            0 <= i < Q_COUNT ==> joined((#[trigger] regs.v@[i])@[0], regs.v@[i]@[1]) == q@[i],
        regs.fpcr == fpcr,
        regs.fpsr == fpsr,
{
    let mut v: [[u64; 2]; 32] = [[0u64; 2]; 32];
    let mut i: usize = 0;
    while i < Q_COUNT
        invariant
            i <= Q_COUNT,
            q@.len() == Q_COUNT,
            forall|k: int| 0 <= k < i ==> joined((#[trigger] v@[k])@[0], v@[k]@[1]) == q@[k],
        decreases Q_COUNT - i,
    {
        let h = split_halves(q[i]);
        v[i] = h;
        i = i + 1;
    }
    FpSimdRegs { v, fpsr, fpcr }
}

/// The values that put the vector registers back, Q0 first.
pub fn fp_writes(regs: &FpSimdRegs) -> (q: Vec<u128>)
    ensures
        q@.len() == Q_COUNT,
        forall|i: int|
            0 <= i < Q_COUNT ==> joined(regs.v@[i]@[0], regs.v@[i]@[1]) == #[trigger] q@[i],
{
    let mut q: Vec<u128> = Vec::new();
    let mut i: usize = 0;
    while i < Q_COUNT
        invariant
            i <= Q_COUNT,
            q@.len() == i,
            forall|k: int|
                0 <= k < i ==> joined(regs.v@[k]@[0], regs.v@[k]@[1]) == #[trigger] q@[k],
        decreases Q_COUNT - i,
    {
        let h: [u64; 2] = regs.v[i];
        q.push(join_halves(h[0], h[1]));
        i = i + 1;
    }
    q
}

/// The writes that put the floating-point control back, after the vector registers.
pub fn fp_control_writes(regs: &FpSimdRegs) -> (v: [(Reg, u64); 2])
    ensures
        v@ == seq![(Reg::FPCR, regs.fpcr), (Reg::FPSR, regs.fpsr)],
{
    let v = [(Reg::FPCR, regs.fpcr), (Reg::FPSR, regs.fpsr)];
    assert(v@ =~= seq![(Reg::FPCR, regs.fpcr), (Reg::FPSR, regs.fpsr)]);
    v
}

/// Two halves stand for one register only.
pub proof fn halves_are_unique(lo1: u64, hi1: u64, lo2: u64, hi2: u64)
    requires
        joined(lo1, hi1) == joined(lo2, hi2),
    ensures
        lo1 == lo2,
        hi1 == hi2,
{
}

/// The general-purpose file is known by its values in the order of reading.
pub proof fn gp_values_determine(a: GpRegs, b: GpRegs)
    requires
        gp_values_of(a) == gp_values_of(b),
    ensures
        a.x@ == b.x@,
        a.sp == b.sp,
        a.pc == b.pc,
        a.pstate == b.pstate,
{
    let x = gp_values_of(a);
    assert(a.x@ =~= x.take(31) && b.x@ =~= x.take(31));
    assert(x[31] == a.sp && gp_values_of(b)[31] == b.sp);
    assert(x[32] == a.pc && gp_values_of(b)[32] == b.pc);
    assert(x[33] == a.pstate && gp_values_of(b)[33] == b.pstate);
}

/// What is said of a failed register access: what was attempted and the framework's own
/// words.
pub fn access_fault(attempt: &str, detail: &str) -> (why: String)
    ensures
        why@ == "HVF "@ + attempt@ + ": "@ + detail@,
{
    let mut why = String::from_str("HVF ");
    why.append(attempt);
    why.append(": ");
    why.append(detail);
    assert(why@ =~= "HVF "@ + attempt@ + ": "@ + detail@);
    why
}

/// What was attempted when one of the general-purpose registers was read.
pub fn gp_read_attempt(access: GpAccess) -> (s: &'static str)
    ensures
        s@ == match access {
            GpAccess::Plain(Reg::X(_)) => "get_reg X"@,
            GpAccess::Plain(Reg::PC) => "get_reg PC"@,
            GpAccess::Plain(Reg::CPSR) => "get_reg CPSR"@,
            GpAccess::Plain(Reg::FPCR) => "get_reg FPCR"@,
            GpAccess::Plain(Reg::FPSR) => "get_reg FPSR"@,
            GpAccess::Sys(HvfSysReg::SP_EL1) => "get_sys_reg SP_EL1"@,
            GpAccess::Sys(_) => "get_sys_reg"@,
        },
{
    match access {
        GpAccess::Plain(Reg::X(_)) => "get_reg X",
        GpAccess::Plain(Reg::PC) => "get_reg PC",
        GpAccess::Plain(Reg::CPSR) => "get_reg CPSR",
        GpAccess::Plain(Reg::FPCR) => "get_reg FPCR",
        GpAccess::Plain(Reg::FPSR) => "get_reg FPSR",
        GpAccess::Sys(HvfSysReg::SP_EL1) => "get_sys_reg SP_EL1",
        GpAccess::Sys(_) => "get_sys_reg",
    }
}

/// What was attempted when one of the general-purpose registers was written.
pub fn gp_write_attempt(access: GpAccess) -> (s: &'static str)
    ensures
        s@ == match access {
            GpAccess::Plain(Reg::X(_)) => "set_reg X"@,
            GpAccess::Plain(Reg::PC) => "set_reg PC"@,
            GpAccess::Plain(Reg::CPSR) => "set_reg CPSR"@,
            GpAccess::Plain(Reg::FPCR) => "set_reg FPCR"@,
            GpAccess::Plain(Reg::FPSR) => "set_reg FPSR"@,
            GpAccess::Sys(HvfSysReg::SP_EL1) => "set_sys_reg SP_EL1"@,
            GpAccess::Sys(_) => "set_sys_reg"@,
        },
{
    match access {
        GpAccess::Plain(Reg::X(_)) => "set_reg X",
        GpAccess::Plain(Reg::PC) => "set_reg PC",
        GpAccess::Plain(Reg::CPSR) => "set_reg CPSR",
        GpAccess::Plain(Reg::FPCR) => "set_reg FPCR",
        GpAccess::Plain(Reg::FPSR) => "set_reg FPSR",
        GpAccess::Sys(HvfSysReg::SP_EL1) => "set_sys_reg SP_EL1",
        GpAccess::Sys(_) => "set_sys_reg",
    }
}

/// The state of the metadata service, kept in memory between saving and restoring.
#[derive(Debug)]
pub struct InProcMmdsSnapshot {
    state: Option<MmdsState>,
}

impl InProcMmdsSnapshot {
    /// The state that is kept.
    pub closed spec fn kept(self) -> Option<MmdsState> {
        self.state
    }

    /// Nothing is kept.
    pub fn new() -> (s: Self)
        ensures
            s.kept() is None,
    {
        InProcMmdsSnapshot { state: None }
    }

    /// Keeps `state`.
    pub fn set(&mut self, state: Option<MmdsState>)
        ensures
            final(self).kept() == state,
    {
        self.state = state;
    }
}

impl Default for InProcMmdsSnapshot {
    fn default() -> (s: Self)
        ensures
            s.kept() is None,
    {
        InProcMmdsSnapshot::new()
    }
}

/// Two states with the same data and the same lifetime of tokens.
pub open spec fn same_state(a: MmdsState, b: MmdsState) -> bool {
    a.data_json@ == b.data_json@ && a.token_ttl_seconds == b.token_ttl_seconds
}

impl MmdsSnapshotSource for InProcMmdsSnapshot {
    fn capture(&self) -> (r: Result<Option<MmdsState>, SnapshotError>)
        ensures
            match r {
                Ok(Some(s)) => self.kept() matches Some(k) && same_state(s, k),
                Ok(None) => self.kept() is None,
                Err(_) => false,
            },
    {
        match &self.state {
            Some(s) => Ok(
                Some(
                    MmdsState {
                        data_json: s.data_json.clone(),
                        token_ttl_seconds: s.token_ttl_seconds,
                    },
                ),
            ),
            None => Ok(None),
        }
    }
}

impl MmdsRestoreTarget for InProcMmdsSnapshot {
    fn restore(&mut self, state: Option<&MmdsState>) -> (r: Result<(), SnapshotError>)
        ensures
            r is Ok,
            match state {
                Some(s) => final(self).kept() matches Some(k) && same_state(k, *s),
                None => final(self).kept() == old(self).kept(),
            },
    {
        if let Some(s) = state {
            self.state =
            Some(
                MmdsState {
                    data_json: s.data_json.clone(),
                    token_ttl_seconds: s.token_ttl_seconds,
                },
            );
        }
        Ok(())
    }
}

/// What the framework's names stand for, by the numbers that the architecture gives the
/// registers.
pub proof fn framework_names_by_their_keys()
    ensures
        HvfSysReg::SCTLR_EL1.register().encoded() == 0xC080,
        HvfSysReg::TTBR0_EL1.register().encoded() == 0xC100,
        HvfSysReg::TTBR1_EL1.register().encoded() == 0xC101,
        HvfSysReg::MAIR_EL1.register().encoded() == 0xC510,
        HvfSysReg::AMAIR_EL1.register().encoded() == 0xC518,
        HvfSysReg::TCR_EL1.register().encoded() == 0xC102,
        HvfSysReg::SP_EL1.register().encoded() == 0xE208,
        HvfSysReg::ELR_EL1.register().encoded() == 0xC201,
        HvfSysReg::SPSR_EL1.register().encoded() == 0xC200,
        HvfSysReg::VBAR_EL1.register().encoded() == 0xC600,
        HvfSysReg::ID_AA64MMFR0_EL1.register().encoded() == 0xC038,
        HvfSysReg::ID_AA64MMFR1_EL1.register().encoded() == 0xC039,
        HvfSysReg::ID_AA64PFR0_EL1.register().encoded() == 0xC020,
        HvfSysReg::ID_AA64PFR1_EL1.register().encoded() == 0xC021,
        HvfSysReg::ID_AA64DFR0_EL1.register().encoded() == 0xC028,
        HvfSysReg::ID_AA64ISAR0_EL1.register().encoded() == 0xC030,
        HvfSysReg::ID_AA64ISAR1_EL1.register().encoded() == 0xC031,
        HvfSysReg::MPIDR_EL1.register().encoded() == 0xC005,
        HvfSysReg::CNTV_CTL_EL0.register().encoded() == 0xDF19,
        HvfSysReg::CNTV_CVAL_EL0.register().encoded() == 0xDF1A,
        HvfSysReg::CNTVOFF_EL2.register().encoded() == 0xE703,
        HvfSysReg::CNTKCTL_EL1.register().encoded() == 0xC708,
        HvfSysReg::CNTP_CTL_EL0.register().encoded() == 0xDF11,
        HvfSysReg::CNTP_CVAL_EL0.register().encoded() == 0xDF12,
        HvfSysReg::ESR_EL1.register().encoded() == 0xC290,
        HvfSysReg::FAR_EL1.register().encoded() == 0xC300,
        HvfSysReg::AFSR0_EL1.register().encoded() == 0xC288,
        HvfSysReg::AFSR1_EL1.register().encoded() == 0xC289,
        HvfSysReg::CONTEXTIDR_EL1.register().encoded() == 0xC681,
        HvfSysReg::TPIDR_EL0.register().encoded() == 0xDE82,
        HvfSysReg::TPIDRRO_EL0.register().encoded() == 0xDE83,
        HvfSysReg::TPIDR_EL1.register().encoded() == 0xC684,
        HvfSysReg::PAR_EL1.register().encoded() == 0xC3A0,
        HvfSysReg::CPACR_EL1.register().encoded() == 0xC082,
        HvfSysReg::MDSCR_EL1.register().encoded() == 0x8012,
{
}

/// Which registers are hidden and which are plain, by their numbers; all others have a name
/// of the framework.
pub proof fn hidden_and_plain_registers(reg: SysReg)
    ensures
        is_hidden(reg) <==> {
                ||| reg.encoded() == 0xDF00
                ||| reg.encoded() == 0xDCE8
                ||| reg.encoded() == 0xDF7F
                ||| reg.encoded() == 0xDCF0
                ||| reg.encoded() == 0xDCE0
                ||| reg.encoded() == 0xDCE1
                ||| reg.encoded() == 0xDCF3
                ||| reg.encoded() == 0xDCE5
                ||| reg.encoded() == 0x8084
                ||| reg.encoded() == 0x809C
        },
        is_plain(reg) <==> reg.encoded() == 0xDA20 || reg.encoded() == 0xDA21,
        !is_hidden(reg) && !is_plain(reg) <==> exists|h: HvfSysReg| #[trigger] h.register() == reg,
{
    if !is_hidden(reg) && !is_plain(reg) {
        named_by_the_framework(reg);
    }
}

proof fn named_by_the_framework(reg: SysReg)
    requires
        !is_hidden(reg),
        !is_plain(reg),
    ensures
        exists|h: HvfSysReg| #[trigger] h.register() == reg,
{
    assert(HvfSysReg::SCTLR_EL1.register() == SysReg::SctlrEl1);
    assert(HvfSysReg::TTBR0_EL1.register() == SysReg::Ttbr0El1);
    assert(HvfSysReg::TTBR1_EL1.register() == SysReg::Ttbr1El1);
    assert(HvfSysReg::MAIR_EL1.register() == SysReg::MairEl1);
    assert(HvfSysReg::AMAIR_EL1.register() == SysReg::AmairEl1);
    assert(HvfSysReg::TCR_EL1.register() == SysReg::TcrEl1);
    assert(HvfSysReg::SP_EL1.register() == SysReg::SpEl1);
    assert(HvfSysReg::ELR_EL1.register() == SysReg::ElrEl1);
    assert(HvfSysReg::SPSR_EL1.register() == SysReg::SpsrEl1);
    assert(HvfSysReg::VBAR_EL1.register() == SysReg::VbarEl1);
    assert(HvfSysReg::ID_AA64MMFR0_EL1.register() == SysReg::IdAa64Mmfr0El1);
    assert(HvfSysReg::ID_AA64MMFR1_EL1.register() == SysReg::IdAa64Mmfr1El1);
    assert(HvfSysReg::ID_AA64PFR0_EL1.register() == SysReg::IdAa64Pfr0El1);
    assert(HvfSysReg::ID_AA64PFR1_EL1.register() == SysReg::IdAa64Pfr1El1);
    assert(HvfSysReg::ID_AA64DFR0_EL1.register() == SysReg::IdAa64Dfr0El1);
    assert(HvfSysReg::ID_AA64ISAR0_EL1.register() == SysReg::IdAa64Isar0El1);
    assert(HvfSysReg::ID_AA64ISAR1_EL1.register() == SysReg::IdAa64Isar1El1);
    assert(HvfSysReg::MPIDR_EL1.register() == SysReg::MpidrEl1);
    assert(HvfSysReg::CNTV_CTL_EL0.register() == SysReg::CntvCtlEl0);
    assert(HvfSysReg::CNTV_CVAL_EL0.register() == SysReg::CntvCvalEl0);
    assert(HvfSysReg::CNTVOFF_EL2.register() == SysReg::CntvOffEl2);
    assert(HvfSysReg::CNTKCTL_EL1.register() == SysReg::CntKctlEl1);
    assert(HvfSysReg::CNTP_CTL_EL0.register() == SysReg::CntpCtlEl0);
    assert(HvfSysReg::CNTP_CVAL_EL0.register() == SysReg::CntpCvalEl0);
    assert(HvfSysReg::ESR_EL1.register() == SysReg::EsrEl1);
    assert(HvfSysReg::FAR_EL1.register() == SysReg::FarEl1);
    assert(HvfSysReg::AFSR0_EL1.register() == SysReg::Afsr0El1);
    assert(HvfSysReg::AFSR1_EL1.register() == SysReg::Afsr1El1);
    assert(HvfSysReg::CONTEXTIDR_EL1.register() == SysReg::ContextIdrEl1);
    assert(HvfSysReg::TPIDR_EL0.register() == SysReg::TpidrEl0);
    assert(HvfSysReg::TPIDRRO_EL0.register() == SysReg::TpidrroEl0);
    assert(HvfSysReg::TPIDR_EL1.register() == SysReg::TpidrEl1);
    assert(HvfSysReg::PAR_EL1.register() == SysReg::ParEl1);
    assert(HvfSysReg::CPACR_EL1.register() == SysReg::CpacrEl1);
    assert(HvfSysReg::MDSCR_EL1.register() == SysReg::MdscrEl1);
}

/// The general-purpose file is read and written from X0 to X30, then the stack pointer, the
/// program counter and the processor state, and each value goes with its own register.
pub proof fn general_purpose_file_in_order(regs: GpRegs, i: int)
    ensures
        gp_order().len() == 34,
        gp_values_of(regs).len() == 34,
        0 <= i < 31 ==> gp_order()[i] == GpAccess::Plain(Reg::X(i as u8)) && gp_values_of(regs)[i]
            == regs.x@[i],
        gp_order()[31] == GpAccess::Sys(HvfSysReg::SP_EL1) && gp_values_of(regs)[31] == regs.sp,
        gp_order()[32] == GpAccess::Plain(Reg::PC) && gp_values_of(regs)[32] == regs.pc,
        gp_order()[33] == GpAccess::Plain(Reg::CPSR) && gp_values_of(regs)[33] == regs.pstate,
{
}

/// The low half of a vector register is its remainder by two to the 64, the high half the
/// quotient.
pub proof fn halves_are_low_and_high(lo: u64, hi: u64)
    ensures
        joined(lo, hi) % 0x1_0000_0000_0000_0000 == lo,
        joined(lo, hi) / 0x1_0000_0000_0000_0000 == hi,
{
}

} // verus!
