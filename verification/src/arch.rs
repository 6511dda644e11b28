//! Names of the architecture: interrupts, and the system registers that a snapshot holds.

use vstd::prelude::*;

verus! {

/// The first number of a shared interrupt.
pub const SPI_BASE: u32 = 32;

/// The last number of a shared interrupt.
pub const SPI_LAST: u32 = 1019;

/// The number of a shared interrupt.
#[derive(Clone, Copy, Debug, PartialEq, Eq, Structural)]
pub struct IntId {
    raw: u32,
}

impl IntId {
    /// Its number.
    pub closed spec fn number(self) -> u32 {
        self.raw
    }

    /// The interrupt that a device tree names by `cell`, which counts from the first
    /// shared one.
    pub fn from_spi_cell(cell: u32) -> (r: Option<IntId>)
        ensures
            match r {
                Some(id) => id.number() == SPI_BASE + cell && id.number() <= SPI_LAST,
                None => SPI_BASE + cell > SPI_LAST,
            },
            r is Some <==> cell <= 987,
            r is Some ==> r->0.number() == 32 + cell,
    {
        if cell > SPI_LAST - SPI_BASE {
            None
        } else {
            Some(IntId { raw: SPI_BASE + cell })
        }
    }

    /// Its number.
    pub fn as_raw(self) -> (n: u32)
        ensures
            n == self.number(),
    {
        self.raw
    }
}

/// The system registers of a vCPU that are saved and restored.
#[derive(Clone, Copy, Debug, PartialEq, Eq, PartialOrd, Ord, Hash, Structural)]
pub enum SysReg {
    // Boot setup.
    SctlrEl1,
    Ttbr0El1,
    Ttbr1El1,
    MairEl1,
    AmairEl1,
    TcrEl1,
    SpEl1,
    ElrEl1,
    SpsrEl1,
    VbarEl1,
    // Identification.
    IdAa64Mmfr0El1,
    IdAa64Mmfr1El1,
    IdAa64Pfr0El1,
    IdAa64Pfr1El1,
    IdAa64Dfr0El1,
    IdAa64Isar0El1,
    IdAa64Isar1El1,
    MpidrEl1,
    // Generic timers.
    CntvCtlEl0,
    CntvCvalEl0,
    CntvOffEl2,
    CntKctlEl1,
    CntpCtlEl0,
    CntpCvalEl0,
    CntFrqEl0,
    // Exception handling.
    EsrEl1,
    FarEl1,
    Afsr0El1,
    Afsr1El1,
    // Memory model and thread pointers.
    ContextIdrEl1,
    TpidrEl0,
    TpidrroEl0,
    TpidrEl1,
    ParEl1,
    // Floating-point control.
    CpacrEl1,
    Fpcr,
    Fpsr,
    // Performance monitors.
    PmCcntrEl0,
    PmCcfiltrEl0,
    PmUserEnrEl0,
    PmCrEl0,
    PmCntEnSetEl0,
    PmOvsSetEl0,
    PmSelrEl0,
    // Debug.
    MdscrEl1,
    OslarEl1,
    OsdlrEl1,
}

/// Number of saved system registers.
pub const SYS_REG_COUNT: usize = 47;

/// The five fields by which `MSR` and `MRS` name a register, packed into a number.
pub open spec fn packed(op0: int, op1: int, crn: int, crm: int, op2: int) -> int {
    op0 * 16384 + op1 * 2048 + crn * 128 + crm * 8 + op2
}

impl SysReg {
    /// The key of the register: its packed fields.
    pub open spec fn encoded(self) -> int {
        match self {
            SysReg::SctlrEl1 => packed(3, 0, 1, 0, 0),
            SysReg::Ttbr0El1 => packed(3, 0, 2, 0, 0),
            SysReg::Ttbr1El1 => packed(3, 0, 2, 0, 1),
            SysReg::MairEl1 => packed(3, 0, 10, 2, 0),
            SysReg::AmairEl1 => packed(3, 0, 10, 3, 0),
            SysReg::TcrEl1 => packed(3, 0, 2, 0, 2),
            SysReg::SpEl1 => packed(3, 4, 4, 1, 0),
            SysReg::ElrEl1 => packed(3, 0, 4, 0, 1),
            SysReg::SpsrEl1 => packed(3, 0, 4, 0, 0),
            SysReg::VbarEl1 => packed(3, 0, 12, 0, 0),
            SysReg::IdAa64Mmfr0El1 => packed(3, 0, 0, 7, 0),
            SysReg::IdAa64Mmfr1El1 => packed(3, 0, 0, 7, 1),
            SysReg::IdAa64Pfr0El1 => packed(3, 0, 0, 4, 0),
            SysReg::IdAa64Pfr1El1 => packed(3, 0, 0, 4, 1),
            SysReg::IdAa64Dfr0El1 => packed(3, 0, 0, 5, 0),
            SysReg::IdAa64Isar0El1 => packed(3, 0, 0, 6, 0),
            SysReg::IdAa64Isar1El1 => packed(3, 0, 0, 6, 1),
            SysReg::MpidrEl1 => packed(3, 0, 0, 0, 5),
            SysReg::CntvCtlEl0 => packed(3, 3, 14, 3, 1),
            SysReg::CntvCvalEl0 => packed(3, 3, 14, 3, 2),
            SysReg::CntvOffEl2 => packed(3, 4, 14, 0, 3),
            SysReg::CntKctlEl1 => packed(3, 0, 14, 1, 0),
            SysReg::CntpCtlEl0 => packed(3, 3, 14, 2, 1),
            SysReg::CntpCvalEl0 => packed(3, 3, 14, 2, 2),
            SysReg::CntFrqEl0 => packed(3, 3, 14, 0, 0),
            SysReg::EsrEl1 => packed(3, 0, 5, 2, 0),
            SysReg::FarEl1 => packed(3, 0, 6, 0, 0),
            SysReg::Afsr0El1 => packed(3, 0, 5, 1, 0),
            SysReg::Afsr1El1 => packed(3, 0, 5, 1, 1),
            SysReg::ContextIdrEl1 => packed(3, 0, 13, 0, 1),
            SysReg::TpidrEl0 => packed(3, 3, 13, 0, 2),
            SysReg::TpidrroEl0 => packed(3, 3, 13, 0, 3),
            SysReg::TpidrEl1 => packed(3, 0, 13, 0, 4),
            SysReg::ParEl1 => packed(3, 0, 7, 4, 0),
            SysReg::CpacrEl1 => packed(3, 0, 1, 0, 2),
            SysReg::Fpcr => packed(3, 3, 4, 4, 0),
            SysReg::Fpsr => packed(3, 3, 4, 4, 1),
            SysReg::PmCcntrEl0 => packed(3, 3, 9, 13, 0),
            SysReg::PmCcfiltrEl0 => packed(3, 3, 14, 15, 7),
            SysReg::PmUserEnrEl0 => packed(3, 3, 9, 14, 0),
            SysReg::PmCrEl0 => packed(3, 3, 9, 12, 0),
            SysReg::PmCntEnSetEl0 => packed(3, 3, 9, 12, 1),
            SysReg::PmOvsSetEl0 => packed(3, 3, 9, 14, 3),
            SysReg::PmSelrEl0 => packed(3, 3, 9, 12, 5),
            SysReg::MdscrEl1 => packed(2, 0, 0, 2, 2),
            SysReg::OslarEl1 => packed(2, 0, 1, 0, 4),
            SysReg::OsdlrEl1 => packed(2, 0, 1, 3, 4),
        }
    }

    /// The register with a key, if there is one.
    pub open spec fn decoded(key: int) -> Option<SysReg> {
        if key == SysReg::SctlrEl1.encoded() {
            Some(SysReg::SctlrEl1)
        } else if key == SysReg::Ttbr0El1.encoded() {
            Some(SysReg::Ttbr0El1)
        } else if key == SysReg::Ttbr1El1.encoded() {
            Some(SysReg::Ttbr1El1)
        } else if key == SysReg::MairEl1.encoded() {
            Some(SysReg::MairEl1)
        } else if key == SysReg::AmairEl1.encoded() {
            Some(SysReg::AmairEl1)
        } else if key == SysReg::TcrEl1.encoded() {
            Some(SysReg::TcrEl1)
        } else if key == SysReg::SpEl1.encoded() {
            Some(SysReg::SpEl1)
        } else if key == SysReg::ElrEl1.encoded() {
            Some(SysReg::ElrEl1)
        } else if key == SysReg::SpsrEl1.encoded() {
            Some(SysReg::SpsrEl1)
        } else if key == SysReg::VbarEl1.encoded() {
            Some(SysReg::VbarEl1)
        } else if key == SysReg::IdAa64Mmfr0El1.encoded() {
            Some(SysReg::IdAa64Mmfr0El1)
        } else if key == SysReg::IdAa64Mmfr1El1.encoded() {
            Some(SysReg::IdAa64Mmfr1El1)
        } else if key == SysReg::IdAa64Pfr0El1.encoded() {
            Some(SysReg::IdAa64Pfr0El1)
        } else if key == SysReg::IdAa64Pfr1El1.encoded() {
            Some(SysReg::IdAa64Pfr1El1)
        } else if key == SysReg::IdAa64Dfr0El1.encoded() {
            Some(SysReg::IdAa64Dfr0El1)
        } else if key == SysReg::IdAa64Isar0El1.encoded() {
            Some(SysReg::IdAa64Isar0El1)
        } else if key == SysReg::IdAa64Isar1El1.encoded() {
            Some(SysReg::IdAa64Isar1El1)
        } else if key == SysReg::MpidrEl1.encoded() {
            Some(SysReg::MpidrEl1)
        } else if key == SysReg::CntvCtlEl0.encoded() {
            Some(SysReg::CntvCtlEl0)
        } else if key == SysReg::CntvCvalEl0.encoded() {
            Some(SysReg::CntvCvalEl0)
        } else if key == SysReg::CntvOffEl2.encoded() {
            Some(SysReg::CntvOffEl2)
        } else if key == SysReg::CntKctlEl1.encoded() {
            Some(SysReg::CntKctlEl1)
        } else if key == SysReg::CntpCtlEl0.encoded() {
            Some(SysReg::CntpCtlEl0)
        } else if key == SysReg::CntpCvalEl0.encoded() {
            Some(SysReg::CntpCvalEl0)
        } else if key == SysReg::CntFrqEl0.encoded() {
            Some(SysReg::CntFrqEl0)
        } else if key == SysReg::EsrEl1.encoded() {
            Some(SysReg::EsrEl1)
        } else if key == SysReg::FarEl1.encoded() {
            Some(SysReg::FarEl1)
        } else if key == SysReg::Afsr0El1.encoded() {
            Some(SysReg::Afsr0El1)
        } else if key == SysReg::Afsr1El1.encoded() {
            Some(SysReg::Afsr1El1)
        } else if key == SysReg::ContextIdrEl1.encoded() {
            Some(SysReg::ContextIdrEl1)
        } else if key == SysReg::TpidrEl0.encoded() {
            Some(SysReg::TpidrEl0)
        } else if key == SysReg::TpidrroEl0.encoded() {
            Some(SysReg::TpidrroEl0)
        } else if key == SysReg::TpidrEl1.encoded() {
            Some(SysReg::TpidrEl1)
        } else if key == SysReg::ParEl1.encoded() {
            Some(SysReg::ParEl1)
        } else if key == SysReg::CpacrEl1.encoded() {
            Some(SysReg::CpacrEl1)
        } else if key == SysReg::Fpcr.encoded() {
            Some(SysReg::Fpcr)
        } else if key == SysReg::Fpsr.encoded() {
            Some(SysReg::Fpsr)
        } else if key == SysReg::PmCcntrEl0.encoded() {
            Some(SysReg::PmCcntrEl0)
        } else if key == SysReg::PmCcfiltrEl0.encoded() {
            Some(SysReg::PmCcfiltrEl0)
        } else if key == SysReg::PmUserEnrEl0.encoded() {
            Some(SysReg::PmUserEnrEl0)
        } else if key == SysReg::PmCrEl0.encoded() {
            Some(SysReg::PmCrEl0)
        } else if key == SysReg::PmCntEnSetEl0.encoded() {
            Some(SysReg::PmCntEnSetEl0)
        } else if key == SysReg::PmOvsSetEl0.encoded() {
            Some(SysReg::PmOvsSetEl0)
        } else if key == SysReg::PmSelrEl0.encoded() {
            Some(SysReg::PmSelrEl0)
        } else if key == SysReg::MdscrEl1.encoded() {
            Some(SysReg::MdscrEl1)
        } else if key == SysReg::OslarEl1.encoded() {
            Some(SysReg::OslarEl1)
        } else if key == SysReg::OsdlrEl1.encoded() {
            Some(SysReg::OsdlrEl1)
        } else {
            None
        }
    }

    /// The key of the register.
    pub fn as_encoded(self) -> (key: u64)
        ensures
            key == self.encoded(),
    {
        match self {
            SysReg::SctlrEl1 => 0xc080,
            SysReg::Ttbr0El1 => 0xc100,
            SysReg::Ttbr1El1 => 0xc101,
            SysReg::MairEl1 => 0xc510,
            SysReg::AmairEl1 => 0xc518,
            SysReg::TcrEl1 => 0xc102,
            SysReg::SpEl1 => 0xe208,
            SysReg::ElrEl1 => 0xc201,
            SysReg::SpsrEl1 => 0xc200,
            SysReg::VbarEl1 => 0xc600,
            SysReg::IdAa64Mmfr0El1 => 0xc038,
            SysReg::IdAa64Mmfr1El1 => 0xc039,
            SysReg::IdAa64Pfr0El1 => 0xc020,
            SysReg::IdAa64Pfr1El1 => 0xc021,
            SysReg::IdAa64Dfr0El1 => 0xc028,
            SysReg::IdAa64Isar0El1 => 0xc030,
            SysReg::IdAa64Isar1El1 => 0xc031,
            SysReg::MpidrEl1 => 0xc005,
            SysReg::CntvCtlEl0 => 0xdf19,
            SysReg::CntvCvalEl0 => 0xdf1a,
            SysReg::CntvOffEl2 => 0xe703,
            SysReg::CntKctlEl1 => 0xc708,
            SysReg::CntpCtlEl0 => 0xdf11,
            SysReg::CntpCvalEl0 => 0xdf12,
            SysReg::CntFrqEl0 => 0xdf00,
            SysReg::EsrEl1 => 0xc290,
            SysReg::FarEl1 => 0xc300,
            SysReg::Afsr0El1 => 0xc288,
            SysReg::Afsr1El1 => 0xc289,
            SysReg::ContextIdrEl1 => 0xc681,
            SysReg::TpidrEl0 => 0xde82,
            SysReg::TpidrroEl0 => 0xde83,
            SysReg::TpidrEl1 => 0xc684,
            SysReg::ParEl1 => 0xc3a0,
            SysReg::CpacrEl1 => 0xc082,
            SysReg::Fpcr => 0xda20,
            SysReg::Fpsr => 0xda21,
            SysReg::PmCcntrEl0 => 0xdce8,
            SysReg::PmCcfiltrEl0 => 0xdf7f,
            SysReg::PmUserEnrEl0 => 0xdcf0,
            SysReg::PmCrEl0 => 0xdce0,
            SysReg::PmCntEnSetEl0 => 0xdce1,
            SysReg::PmOvsSetEl0 => 0xdcf3,
            SysReg::PmSelrEl0 => 0xdce5,
            SysReg::MdscrEl1 => 0x8012,
            SysReg::OslarEl1 => 0x8084,
            SysReg::OsdlrEl1 => 0x809c,
        }
    }

    /// The register with `key`.
    pub fn from_encoded(key: u64) -> (r: Option<SysReg>)
        ensures
            r == SysReg::decoded(key as int),
    {
        match key {
            0xc080 => Some(SysReg::SctlrEl1),
            0xc100 => Some(SysReg::Ttbr0El1),
            0xc101 => Some(SysReg::Ttbr1El1),
            0xc510 => Some(SysReg::MairEl1),
            0xc518 => Some(SysReg::AmairEl1),
            0xc102 => Some(SysReg::TcrEl1),
            0xe208 => Some(SysReg::SpEl1),
            0xc201 => Some(SysReg::ElrEl1),
            0xc200 => Some(SysReg::SpsrEl1),
            0xc600 => Some(SysReg::VbarEl1),
            0xc038 => Some(SysReg::IdAa64Mmfr0El1),
            0xc039 => Some(SysReg::IdAa64Mmfr1El1),
            0xc020 => Some(SysReg::IdAa64Pfr0El1),
            0xc021 => Some(SysReg::IdAa64Pfr1El1),
            0xc028 => Some(SysReg::IdAa64Dfr0El1),
            0xc030 => Some(SysReg::IdAa64Isar0El1),
            0xc031 => Some(SysReg::IdAa64Isar1El1),
            0xc005 => Some(SysReg::MpidrEl1),
            0xdf19 => Some(SysReg::CntvCtlEl0),
            0xdf1a => Some(SysReg::CntvCvalEl0),
            0xe703 => Some(SysReg::CntvOffEl2),
            0xc708 => Some(SysReg::CntKctlEl1),
            0xdf11 => Some(SysReg::CntpCtlEl0),
            0xdf12 => Some(SysReg::CntpCvalEl0),
            0xdf00 => Some(SysReg::CntFrqEl0),
            0xc290 => Some(SysReg::EsrEl1),
            0xc300 => Some(SysReg::FarEl1),
            0xc288 => Some(SysReg::Afsr0El1),
            0xc289 => Some(SysReg::Afsr1El1),
            0xc681 => Some(SysReg::ContextIdrEl1),
            0xde82 => Some(SysReg::TpidrEl0),
            0xde83 => Some(SysReg::TpidrroEl0),
            0xc684 => Some(SysReg::TpidrEl1),
            0xc3a0 => Some(SysReg::ParEl1),
            0xc082 => Some(SysReg::CpacrEl1),
            0xda20 => Some(SysReg::Fpcr),
            0xda21 => Some(SysReg::Fpsr),
            0xdce8 => Some(SysReg::PmCcntrEl0),
            0xdf7f => Some(SysReg::PmCcfiltrEl0),
            0xdcf0 => Some(SysReg::PmUserEnrEl0),
            0xdce0 => Some(SysReg::PmCrEl0),
            0xdce1 => Some(SysReg::PmCntEnSetEl0),
            0xdcf3 => Some(SysReg::PmOvsSetEl0),
            0xdce5 => Some(SysReg::PmSelrEl0),
            0x8012 => Some(SysReg::MdscrEl1),
            0x8084 => Some(SysReg::OslarEl1),
            0x809c => Some(SysReg::OsdlrEl1),
            _ => None,
        }
    }

    /// All registers, in the order in which they are read.
    pub open spec fn listed() -> Seq<SysReg> {
        seq![
            SysReg::SctlrEl1,
            SysReg::Ttbr0El1,
            SysReg::Ttbr1El1,
            SysReg::MairEl1,
            SysReg::AmairEl1,
            SysReg::TcrEl1,
            SysReg::SpEl1,
            SysReg::ElrEl1,
            SysReg::SpsrEl1,
            SysReg::VbarEl1,
            SysReg::IdAa64Mmfr0El1,
            SysReg::IdAa64Mmfr1El1,
            SysReg::IdAa64Pfr0El1,
            SysReg::IdAa64Pfr1El1,
            SysReg::IdAa64Dfr0El1,
            SysReg::IdAa64Isar0El1,
            SysReg::IdAa64Isar1El1,
            SysReg::MpidrEl1,
            SysReg::CntvCtlEl0,
            SysReg::CntvCvalEl0,
            SysReg::CntvOffEl2,
            SysReg::CntKctlEl1,
            SysReg::CntpCtlEl0,
            SysReg::CntpCvalEl0,
            SysReg::CntFrqEl0,
            SysReg::EsrEl1,
            SysReg::FarEl1,
            SysReg::Afsr0El1,
            SysReg::Afsr1El1,
            SysReg::ContextIdrEl1,
            SysReg::TpidrEl0,
            SysReg::TpidrroEl0,
            SysReg::TpidrEl1,
            SysReg::ParEl1,
            SysReg::CpacrEl1,
            SysReg::Fpcr,
            SysReg::Fpsr,
            SysReg::PmCcntrEl0,
            SysReg::PmCcfiltrEl0,
            SysReg::PmUserEnrEl0,
            SysReg::PmCrEl0,
            SysReg::PmCntEnSetEl0,
            SysReg::PmOvsSetEl0,
            SysReg::PmSelrEl0,
            SysReg::MdscrEl1,
            SysReg::OslarEl1,
            SysReg::OsdlrEl1,
        ]
    }

    /// All registers, in the order in which they are read.
    pub fn all() -> (r: [SysReg; SYS_REG_COUNT])
        ensures
            r@ == SysReg::listed(),
    {
        let r = [
            SysReg::SctlrEl1,
            SysReg::Ttbr0El1,
            SysReg::Ttbr1El1,
            SysReg::MairEl1,
            SysReg::AmairEl1,
            SysReg::TcrEl1,
            SysReg::SpEl1,
            SysReg::ElrEl1,
            SysReg::SpsrEl1,
            SysReg::VbarEl1,
            SysReg::IdAa64Mmfr0El1,
            SysReg::IdAa64Mmfr1El1,
            SysReg::IdAa64Pfr0El1,
            SysReg::IdAa64Pfr1El1,
            SysReg::IdAa64Dfr0El1,
            SysReg::IdAa64Isar0El1,
            SysReg::IdAa64Isar1El1,
            SysReg::MpidrEl1,
            SysReg::CntvCtlEl0,
            SysReg::CntvCvalEl0,
            SysReg::CntvOffEl2,
            SysReg::CntKctlEl1,
            SysReg::CntpCtlEl0,
            SysReg::CntpCvalEl0,
            SysReg::CntFrqEl0,
            SysReg::EsrEl1,
            SysReg::FarEl1,
            SysReg::Afsr0El1,
            SysReg::Afsr1El1,
            SysReg::ContextIdrEl1,
            SysReg::TpidrEl0,
            SysReg::TpidrroEl0,
            SysReg::TpidrEl1,
            SysReg::ParEl1,
            SysReg::CpacrEl1,
            SysReg::Fpcr,
            SysReg::Fpsr,
            SysReg::PmCcntrEl0,
            SysReg::PmCcfiltrEl0,
            SysReg::PmUserEnrEl0,
            SysReg::PmCrEl0,
            SysReg::PmCntEnSetEl0,
            SysReg::PmOvsSetEl0,
            SysReg::PmSelrEl0,
            SysReg::MdscrEl1,
            SysReg::OslarEl1,
            SysReg::OsdlrEl1,
        ];
        assert(r@ =~= SysReg::listed());
        r
    }
}

/// A key names one register: decoding gives back what was encoded.
pub proof fn key_round_trip(reg: SysReg)
    ensures
        SysReg::decoded(reg.encoded()) == Some(reg),
        0 <= reg.encoded() < 0x10000,
{
}

/// What a key decodes to has that key.
pub proof fn decoded_has_key(key: int)
    ensures
        SysReg::decoded(key) matches Some(reg) ==> reg.encoded() == key,
{
}

/// No register is listed twice, and none is missing.
pub proof fn all_are_listed_once(reg: SysReg)
    ensures
        SysReg::listed().len() == SYS_REG_COUNT,
        SysReg::listed().no_duplicates(),
        SysReg::listed().contains(reg),
{
    let l = SysReg::listed();
    assert forall|i: int, j: int| 0 <= i < l.len() && 0 <= j < l.len() && i != j implies l[i]
        != l[j] by {
        assert(listed_index(l[i]) == i);
        assert(listed_index(l[j]) == j);
    }
    assert(l[listed_index(reg)] == reg);
}

/// Where a register stands in the list.
spec fn listed_index(reg: SysReg) -> int {
    match reg {
        SysReg::SctlrEl1 => 0,
        SysReg::Ttbr0El1 => 1,
        SysReg::Ttbr1El1 => 2,
        SysReg::MairEl1 => 3,
        SysReg::AmairEl1 => 4,
        SysReg::TcrEl1 => 5,
        SysReg::SpEl1 => 6,
        SysReg::ElrEl1 => 7,
        SysReg::SpsrEl1 => 8,
        SysReg::VbarEl1 => 9,
        SysReg::IdAa64Mmfr0El1 => 10,
        SysReg::IdAa64Mmfr1El1 => 11,
        SysReg::IdAa64Pfr0El1 => 12,
        SysReg::IdAa64Pfr1El1 => 13,
        SysReg::IdAa64Dfr0El1 => 14,
        SysReg::IdAa64Isar0El1 => 15,
        SysReg::IdAa64Isar1El1 => 16,
        SysReg::MpidrEl1 => 17,
        SysReg::CntvCtlEl0 => 18,
        SysReg::CntvCvalEl0 => 19,
        SysReg::CntvOffEl2 => 20,
        SysReg::CntKctlEl1 => 21,
        SysReg::CntpCtlEl0 => 22,
        SysReg::CntpCvalEl0 => 23,
        SysReg::CntFrqEl0 => 24,
        SysReg::EsrEl1 => 25,
        SysReg::FarEl1 => 26,
        SysReg::Afsr0El1 => 27,
        SysReg::Afsr1El1 => 28,
        SysReg::ContextIdrEl1 => 29,
        SysReg::TpidrEl0 => 30,
        SysReg::TpidrroEl0 => 31,
        SysReg::TpidrEl1 => 32,
        SysReg::ParEl1 => 33,
        SysReg::CpacrEl1 => 34,
        SysReg::Fpcr => 35,
        SysReg::Fpsr => 36,
        SysReg::PmCcntrEl0 => 37,
        SysReg::PmCcfiltrEl0 => 38,
        SysReg::PmUserEnrEl0 => 39,
        SysReg::PmCrEl0 => 40,
        SysReg::PmCntEnSetEl0 => 41,
        SysReg::PmOvsSetEl0 => 42,
        SysReg::PmSelrEl0 => 43,
        SysReg::MdscrEl1 => 44,
        SysReg::OslarEl1 => 45,
        SysReg::OsdlrEl1 => 46,
    }
}

/// The fields by which a register is named: two bits of op0, three of op1, four of CRn,
/// four of CRm and three of op2, from the top.
pub proof fn keys_hold_the_fields(op0: int, op1: int, crn: int, crm: int, op2: int)
    requires
        0 <= op0 < 4,
        0 <= op1 < 8,
        0 <= crn < 16,
        0 <= crm < 16,
        0 <= op2 < 8,
    ensures
        packed(op0, op1, crn, crm, op2) == op2 + 8 * (crm + 16 * (crn + 16 * (op1 + 8 * op0))),
{
}

/// The keys of the registers, by the numbers that the architecture gives them.
pub proof fn registers_by_their_keys()
    ensures
        SysReg::SctlrEl1.encoded() == 0xC080,
        SysReg::Ttbr0El1.encoded() == 0xC100,
        SysReg::Ttbr1El1.encoded() == 0xC101,
        SysReg::MairEl1.encoded() == 0xC510,
        SysReg::AmairEl1.encoded() == 0xC518,
        SysReg::TcrEl1.encoded() == 0xC102,
        SysReg::SpEl1.encoded() == 0xE208,
        SysReg::ElrEl1.encoded() == 0xC201,
        SysReg::SpsrEl1.encoded() == 0xC200,
        SysReg::VbarEl1.encoded() == 0xC600,
        SysReg::IdAa64Mmfr0El1.encoded() == 0xC038,
        SysReg::IdAa64Mmfr1El1.encoded() == 0xC039,
        SysReg::IdAa64Pfr0El1.encoded() == 0xC020,
        SysReg::IdAa64Pfr1El1.encoded() == 0xC021,
        SysReg::IdAa64Dfr0El1.encoded() == 0xC028,
        SysReg::IdAa64Isar0El1.encoded() == 0xC030,
        SysReg::IdAa64Isar1El1.encoded() == 0xC031,
        SysReg::MpidrEl1.encoded() == 0xC005,
        SysReg::CntvCtlEl0.encoded() == 0xDF19,
        SysReg::CntvCvalEl0.encoded() == 0xDF1A,
        SysReg::CntvOffEl2.encoded() == 0xE703,
        SysReg::CntKctlEl1.encoded() == 0xC708,
        SysReg::CntpCtlEl0.encoded() == 0xDF11,
        SysReg::CntpCvalEl0.encoded() == 0xDF12,
        SysReg::CntFrqEl0.encoded() == 0xDF00,
        SysReg::EsrEl1.encoded() == 0xC290,
        SysReg::FarEl1.encoded() == 0xC300,
        SysReg::Afsr0El1.encoded() == 0xC288,
        SysReg::Afsr1El1.encoded() == 0xC289,
        SysReg::ContextIdrEl1.encoded() == 0xC681,
        SysReg::TpidrEl0.encoded() == 0xDE82,
        SysReg::TpidrroEl0.encoded() == 0xDE83,
        SysReg::TpidrEl1.encoded() == 0xC684,
        SysReg::ParEl1.encoded() == 0xC3A0,
        SysReg::CpacrEl1.encoded() == 0xC082,
        SysReg::Fpcr.encoded() == 0xDA20,
        SysReg::Fpsr.encoded() == 0xDA21,
        SysReg::PmCcntrEl0.encoded() == 0xDCE8,
        SysReg::PmCcfiltrEl0.encoded() == 0xDF7F,
        SysReg::PmUserEnrEl0.encoded() == 0xDCF0,
        SysReg::PmCrEl0.encoded() == 0xDCE0,
        SysReg::PmCntEnSetEl0.encoded() == 0xDCE1,
        SysReg::PmOvsSetEl0.encoded() == 0xDCF3,
        SysReg::PmSelrEl0.encoded() == 0xDCE5,
        SysReg::MdscrEl1.encoded() == 0x8012,
        SysReg::OslarEl1.encoded() == 0x8084,
        SysReg::OsdlrEl1.encoded() == 0x809C,
{
}

} // verus!
