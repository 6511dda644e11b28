//! The vCPU exception dispatcher: from a syndrome register to what the monitor does.
//!
//! ```text
//! class         exit
//! 0x01  WFx     Wfi or Wfe
//! 0x16  HVC     Hvc with the first four argument registers
//! 0x17  SMC     SmcHandledAsPsciNotSupported
//! 0x18  MSR/MRS SystemRegister
//! 0x24  abort   Mmio
//! 0x3C  BRK     Brk
//! other         UnknownExceptionClass
//! ```

use vstd::prelude::*;
use vstd::string::*;

use crate::text::{self, push_decimal, push_hex_padded};

verus! {

/// `width` bits of `x` from bit `lo`, given as powers of two.
pub open spec fn bits_at(x: u64, lo: int, width: int) -> int {
    x as int / lo % width
}

/// A decoded syndrome.
#[derive(Clone, Copy, Debug, PartialEq, Eq, Structural)]
pub enum EsrDecoded {
    DataAbort { is_write: bool, sas: u8, srt: u8, sf: bool },
    Hvc { imm16: u16 },
    Smc { imm16: u16 },
    SystemRegister { read: bool, op0: u8, op1: u8, crn: u8, crm: u8, op2: u8, xt: u8 },
    Wfi,
    Wfe,
    Brk { imm16: u16 },
    Other { ec: u8, raw: u64 },
}

/// The exception class: bits 31 to 26 of the syndrome.
pub open spec fn class_of(esr: u64) -> int {
    bits_at(esr, 0x400_0000, 0x40)
}

/// The fields of a syndrome, by its class.
pub open spec fn esr_fields(esr: u64) -> EsrDecoded {
    let ec = class_of(esr);
    let imm16 = bits_at(esr, 1, 0x1_0000) as u16;
    if ec == 0x24 {
        EsrDecoded::DataAbort {
            is_write: bits_at(esr, 0x40, 2) == 1,
            sas: bits_at(esr, 0x40_0000, 4) as u8,
            srt: bits_at(esr, 0x1_0000, 0x20) as u8,
            sf: bits_at(esr, 0x8000, 2) == 1,
        }
    } else if ec == 0x16 {
        EsrDecoded::Hvc { imm16 }
    } else if ec == 0x17 {
        EsrDecoded::Smc { imm16 }
    } else if ec == 0x18 {
        EsrDecoded::SystemRegister {
            read: bits_at(esr, 1, 2) == 1,
            op0: bits_at(esr, 0x10_0000, 4) as u8,
            op1: bits_at(esr, 0x4000, 8) as u8,
            crn: bits_at(esr, 0x400, 0x10) as u8,
            crm: bits_at(esr, 2, 0x10) as u8,
            op2: bits_at(esr, 0x2_0000, 8) as u8,
            xt: bits_at(esr, 0x20, 0x20) as u8,
        }
    } else if ec == 0x01 {
        if bits_at(esr, 1, 2) == 1 {
            EsrDecoded::Wfe
        } else {
            EsrDecoded::Wfi
        }
    } else if ec == 0x3C {
        EsrDecoded::Brk { imm16 }
    } else {
        EsrDecoded::Other { ec: ec as u8, raw: esr }
    }
}

/// Splits a syndrome into its fields.
pub fn decode_esr(esr: u64) -> (d: EsrDecoded)
    ensures
        d == esr_fields(esr),
{
    let ec: u8 = (esr / 0x400_0000 % 0x40) as u8;
    let imm16: u16 = (esr % 0x1_0000) as u16;
    match ec {
        0x24 => EsrDecoded::DataAbort {
            is_write: esr / 0x40 % 2 == 1,
            sas: (esr / 0x40_0000 % 4) as u8,
            srt: (esr / 0x1_0000 % 0x20) as u8,
            sf: esr / 0x8000 % 2 == 1,
        },
        0x16 => EsrDecoded::Hvc { imm16 },
        0x17 => EsrDecoded::Smc { imm16 },
        0x18 => EsrDecoded::SystemRegister {
            read: esr % 2 == 1,
            op0: (esr / 0x10_0000 % 4) as u8,
            op1: (esr / 0x4000 % 8) as u8,
            crn: (esr / 0x400 % 0x10) as u8,
            crm: (esr / 2 % 0x10) as u8,
            op2: (esr / 0x2_0000 % 8) as u8,
            xt: (esr / 0x20 % 0x20) as u8,
        },
        0x01 => {
            if esr % 2 == 1 {
                EsrDecoded::Wfe
            } else {
                EsrDecoded::Wfi
            }
        },
        0x3C => EsrDecoded::Brk { imm16 },
        _ => EsrDecoded::Other { ec, raw: esr },
    }
}

/// Why a vCPU stopped running.
#[derive(Clone, Copy, Debug)]
pub enum Exit {
    /// An access to a device: the register and width to use, and the guest address.
    Mmio { addr: u64, write: bool, sas: u8, srt: u8, sf: bool },
    /// A hypercall with the first four argument registers.
    Hvc { imm16: u16, args: [u64; 4] },
    /// A secure call, which is answered as not supported.
    SmcHandledAsPsciNotSupported { imm16: u16 },
    /// A trapped access to a system register.
    SystemRegister { read: bool, op0: u8, op1: u8, crn: u8, crm: u8, op2: u8, xt: u8 },
    /// Waiting for an interrupt.
    Wfi,
    /// Waiting for an event.
    Wfe,
    /// The virtual timer fired.
    VtimerActivated,
    /// A breakpoint instruction.
    Brk { imm16: u16 },
    /// The run was cancelled.
    Cancelled,
    /// A class without a rule of its own.
    UnknownExceptionClass { ec: u8, raw: u64 },
}

/// An exit, and whether to step over the instruction that caused it.
#[derive(Clone, Copy, Debug)]
pub struct RunLoopDispatch {
    pub exit: Exit,
    pub advance_pc: bool,
}

/// What a decoded syndrome leads to; `args` are the first four registers.
pub open spec fn dispatch_of(d: EsrDecoded, far: u64, args: [u64; 4]) -> RunLoopDispatch {
    match d {
        EsrDecoded::DataAbort { is_write, sas, srt, sf } => RunLoopDispatch {
            exit: Exit::Mmio { addr: far, write: is_write, sas, srt, sf },
            advance_pc: true,
        },
        EsrDecoded::Hvc { imm16 } => RunLoopDispatch {
            exit: Exit::Hvc { imm16, args },
            advance_pc: true,
        },
        EsrDecoded::Smc { imm16 } => RunLoopDispatch {
            exit: Exit::SmcHandledAsPsciNotSupported { imm16 },
            advance_pc: true,
        },
        EsrDecoded::SystemRegister { read, op0, op1, crn, crm, op2, xt } => RunLoopDispatch {
            exit: Exit::SystemRegister { read, op0, op1, crn, crm, op2, xt },
            advance_pc: true,
        },
        EsrDecoded::Wfi => RunLoopDispatch { exit: Exit::Wfi, advance_pc: false },
        EsrDecoded::Wfe => RunLoopDispatch { exit: Exit::Wfe, advance_pc: false },
        EsrDecoded::Brk { imm16 } => RunLoopDispatch {
            exit: Exit::Brk { imm16 },
            advance_pc: false,
        },
        EsrDecoded::Other { ec, raw } => RunLoopDispatch {
            exit: Exit::UnknownExceptionClass { ec, raw },
            advance_pc: false,
        },
    }
}

/// Turns a decoded syndrome, the fault address and the first four registers into a
/// dispatch.
pub fn dispatch_exception(d: EsrDecoded, far: u64, args: [u64; 4]) -> (r: RunLoopDispatch)
    ensures
        r == dispatch_of(d, far, args),
{
    match d {
        EsrDecoded::DataAbort { is_write, sas, srt, sf } => RunLoopDispatch {
            exit: Exit::Mmio { addr: far, write: is_write, sas, srt, sf },
            advance_pc: true,
        },
        EsrDecoded::Hvc { imm16 } => RunLoopDispatch {
            exit: Exit::Hvc { imm16, args },
            advance_pc: true,
        },
        EsrDecoded::Smc { imm16 } => RunLoopDispatch {
            exit: Exit::SmcHandledAsPsciNotSupported { imm16 },
            advance_pc: true,
        },
        EsrDecoded::SystemRegister { read, op0, op1, crn, crm, op2, xt } => RunLoopDispatch {
            exit: Exit::SystemRegister { read, op0, op1, crn, crm, op2, xt },
            advance_pc: true,
        },
        EsrDecoded::Wfi => RunLoopDispatch { exit: Exit::Wfi, advance_pc: false },
        EsrDecoded::Wfe => RunLoopDispatch { exit: Exit::Wfe, advance_pc: false },
        EsrDecoded::Brk { imm16 } => RunLoopDispatch {
            exit: Exit::Brk { imm16 },
            advance_pc: false,
        },
        EsrDecoded::Other { ec, raw } => RunLoopDispatch {
            exit: Exit::UnknownExceptionClass { ec, raw },
            advance_pc: false,
        },
    }
}

/// Turns a syndrome and the fault address into a dispatch. `gp_read` reads a register;
/// it is asked only for the arguments of a hypercall.
pub fn decode_exception<F: FnMut(u8) -> u64>(esr: u64, far: u64, mut gp_read: F) -> (r:
    RunLoopDispatch)
    requires
        esr_fields(esr) is Hvc ==> forall|i: u8| i < 4 ==> call_requires(gp_read, (i,)),
    ensures
        exists|args: [u64; 4]|
            r == #[trigger] dispatch_of(esr_fields(esr), far, args) && (esr_fields(esr) is Hvc
                ==> forall|i: u8|
                i < 4 ==> #[trigger] call_ensures(gp_read, (i,), args[i as int])),
{
    let d = decode_esr(esr);
    let args: [u64; 4] = match d {
        EsrDecoded::Hvc { .. } => {
            let x0: u64 = gp_read(0);
            let x1: u64 = gp_read(1);
            let x2: u64 = gp_read(2);
            let x3: u64 = gp_read(3);
            let a: [u64; 4] = [x0, x1, x2, x3];
            assert(forall|i: u8| i < 4 ==> #[trigger] call_ensures(gp_read, (i,), a[i as int]));
            a
        },
        _ => [0, 0, 0, 0],
    };
    dispatch_exception(d, far, args)
}

/// What the power-state interface answers to a hypercall: a value for the caller, or an
/// action that someone else completes.
#[derive(Clone, Copy, Debug, PartialEq, Eq)]
pub enum PsciOutcome<A> {
    Return(u64),
    Action(A),
}

/// The value for the calling vCPU's first register. Until an action completes, that is
/// success.
pub open spec fn psci_x0<A>(o: PsciOutcome<A>) -> u64 {
    match o {
        PsciOutcome::Return(x0) => x0,
        PsciOutcome::Action(_) => 0,
    }
}

/// Resolves a hypercall: `dispatch` is asked with the low half of the first argument
/// and the other three.
pub fn resolve_hvc_psci<A, F: Fn(u32, [u64; 3]) -> PsciOutcome<A>>(
    args: [u64; 4],
    dispatch: F,
) -> (r: (u64, PsciOutcome<A>))
    requires
        call_requires(
            dispatch,
            ((args[0] % 0x1_0000_0000) as u32, [args[1], args[2], args[3]]),
        ),
    ensures
        call_ensures(
            dispatch,
            ((args[0] % 0x1_0000_0000) as u32, [args[1], args[2], args[3]]),
            r.1,
        ),
        r.0 == psci_x0(r.1),
{
    let func_id: u32 = (args[0] % 0x1_0000_0000) as u32;
    let outcome = dispatch(func_id, [args[1], args[2], args[3]]);
    let x0: u64 = match &outcome {
        PsciOutcome::Return(v) => *v,
        PsciOutcome::Action(_) => 0,
    };
    (x0, outcome)
}

/// `0x` and `width` hexadecimal digits.
pub open spec fn hex_field(n: nat, width: nat) -> Seq<char> {
    "0x"@ + text::hex_padded(n, width)
}

/// The text of an exit.
pub open spec fn exit_text(e: Exit) -> Seq<char> {
    match e {
        Exit::Mmio { addr, write, .. } => "MMIO "@ + (if write {
            "write"@
        } else {
            "read"@
        }) + " addr="@ + hex_field(addr as nat, 16),
        Exit::Hvc { imm16, args } => "HVC imm16="@ + hex_field(imm16 as nat, 4) + " fid="@
            + hex_field((args[0] % 0x1_0000_0000) as nat, 8),
        Exit::SmcHandledAsPsciNotSupported { imm16 } => "SMC imm16="@ + hex_field(imm16 as nat, 4)
            + " → PSCI_NOT_SUPPORTED"@,
        Exit::SystemRegister { read, op0, op1, crn, crm, op2, xt } => (if read {
            "MRS"@
        } else {
            "MSR"@
        }) + " sysreg op0="@ + text::decimal(op0 as nat) + " op1="@ + text::decimal(op1 as nat)
            + " crn="@ + text::decimal(crn as nat) + " crm="@ + text::decimal(crm as nat)
            + " op2="@ + text::decimal(op2 as nat) + " xt="@ + text::decimal(xt as nat),
        Exit::Wfi => "WFI"@,
        Exit::Wfe => "WFE"@,
        Exit::VtimerActivated => "VtimerActivated"@,
        Exit::Brk { imm16 } => "BRK imm16="@ + hex_field(imm16 as nat, 4),
        Exit::Cancelled => "Cancelled"@,
        Exit::UnknownExceptionClass { ec, raw } => "UnknownExceptionClass(ec="@ + hex_field(
            ec as nat,
            2,
        ) + " esr="@ + hex_field(raw as nat, 16) + ")"@,
    }
}

fn push_hex_field(s: &mut String, n: u64, width: usize)
    ensures
        final(s)@ == old(s)@ + hex_field(n as nat, width as nat),
{
    s.append("0x");
    push_hex_padded(s, n, width);
    assert(s@ =~= old(s)@ + hex_field(n as nat, width as nat));
}

impl Exit {
    /// The text of the exit, for logs.
    pub fn text(&self) -> (s: String)
        ensures
            s@ == exit_text(*self),
    {
        let mut s = String::new();
        match self {
            Exit::Mmio { addr, write, .. } => {
                s.append("MMIO ");
                if *write {
                    s.append("write");
                } else {
                    s.append("read");
                }
                s.append(" addr=");
                push_hex_field(&mut s, *addr, 16);
            },
            Exit::Hvc { imm16, args } => {
                s.append("HVC imm16=");
                push_hex_field(&mut s, *imm16 as u64, 4);
                s.append(" fid=");
                push_hex_field(&mut s, args[0] % 0x1_0000_0000, 8);
            },
            Exit::SmcHandledAsPsciNotSupported { imm16 } => {
                s.append("SMC imm16=");
                push_hex_field(&mut s, *imm16 as u64, 4);
                s.append(" → PSCI_NOT_SUPPORTED");
            },
            Exit::SystemRegister { read, op0, op1, crn, crm, op2, xt } => {
                if *read {
                    s.append("MRS");
                } else {
                    s.append("MSR");
                }
                s.append(" sysreg op0=");
                push_decimal(&mut s, *op0 as u64);
                s.append(" op1=");
                push_decimal(&mut s, *op1 as u64);
                s.append(" crn=");
                push_decimal(&mut s, *crn as u64);
                s.append(" crm=");
                push_decimal(&mut s, *crm as u64);
                s.append(" op2=");
                push_decimal(&mut s, *op2 as u64);
                s.append(" xt=");
                push_decimal(&mut s, *xt as u64);
            },
            Exit::Wfi => {
                s.append("WFI");
            },
            Exit::Wfe => {
                s.append("WFE");
            },
            Exit::VtimerActivated => {
                s.append("VtimerActivated");
            },
            Exit::Brk { imm16 } => {
                s.append("BRK imm16=");
                push_hex_field(&mut s, *imm16 as u64, 4);
            },
            Exit::Cancelled => {
                s.append("Cancelled");
            },
            Exit::UnknownExceptionClass { ec, raw } => {
                s.append("UnknownExceptionClass(ec=");
                push_hex_field(&mut s, *ec as u64, 2);
                s.append(" esr=");
                push_hex_field(&mut s, *raw, 16);
                s.append(")");
            },
        }
        assert(s@ =~= exit_text(*self));
        s
    }
}

/// The program counter is stepped exactly for device accesses, calls and system-register
/// accesses.
pub proof fn pc_steps_over_handled_traps(esr: u64, far: u64, args: [u64; 4])
    ensures
        dispatch_of(esr_fields(esr), far, args).advance_pc <==> (class_of(esr) == 0x24 || class_of(
            esr,
        ) == 0x16 || class_of(esr) == 0x17 || class_of(esr) == 0x18),
{
}

/// No syndrome is lost: a class without a rule keeps the whole syndrome.
pub proof fn unknown_class_keeps_the_syndrome(esr: u64, far: u64, args: [u64; 4])
    requires
        class_of(esr) != 0x01,
        class_of(esr) != 0x16,
        class_of(esr) != 0x17,
        class_of(esr) != 0x18,
        class_of(esr) != 0x24,
        class_of(esr) != 0x3C,
    ensures
        dispatch_of(esr_fields(esr), far, args).exit == (Exit::UnknownExceptionClass {
            ec: class_of(esr) as u8,
            raw: esr,
        }),
{
}

/// A data abort (class 0x24) is a device access at the fault address: a store exactly if bit
/// 6 of the syndrome is set, of the size in bits 23 and 22, with the register in bits 20 to
/// 16, all 64 bits of it exactly if bit 15 is set.
pub proof fn data_aborts_are_device_accesses(esr: u64, far: u64, args: [u64; 4])
    requires
        (esr >> 26) & 0x3F == 0x24,
    ensures
        dispatch_of(esr_fields(esr), far, args).advance_pc,
        dispatch_of(esr_fields(esr), far, args).exit matches Exit::Mmio {
            addr,
            write,
            sas,
            srt,
            sf,
        } && {
            &&& addr == far
            &&& write == (esr & 0x40 != 0)
            &&& sas == (esr >> 22) & 3
            &&& srt == (esr >> 16) & 0x1F
            &&& sf == (esr & 0x8000 != 0)
        },
{
    assert((esr >> 26) & 0x3F == esr / 0x400_0000 % 0x40) by (bit_vector);
    assert((esr & 0x40 != 0) == (esr / 0x40 % 2 == 1)) by (bit_vector);
    assert((esr >> 22) & 3 == esr / 0x40_0000 % 4) by (bit_vector);
    assert((esr >> 16) & 0x1F == esr / 0x1_0000 % 0x20) by (bit_vector);
    assert((esr & 0x8000 != 0) == (esr / 0x8000 % 2 == 1)) by (bit_vector);
}

/// A hypercall (class 0x16), a secure call (class 0x17) and a breakpoint (class 0x3C) carry
/// the immediate in the low 16 bits of the syndrome. A hypercall also carries the four
/// registers, in order. Only a breakpoint is not stepped over.
pub proof fn calls_carry_their_immediate(esr: u64, far: u64, args: [u64; 4])
    ensures
        (esr >> 26) & 0x3F == 0x16 ==> (dispatch_of(esr_fields(esr), far, args)
            matches RunLoopDispatch { exit: Exit::Hvc { imm16, args: a }, advance_pc } && imm16
            == esr & 0xFFFF && a == args && advance_pc),
        (esr >> 26) & 0x3F == 0x17 ==> (dispatch_of(esr_fields(esr), far, args)
            matches RunLoopDispatch {
            exit: Exit::SmcHandledAsPsciNotSupported { imm16 },
            advance_pc,
        } && imm16 == esr & 0xFFFF && advance_pc),
        (esr >> 26) & 0x3F == 0x3C ==> (dispatch_of(esr_fields(esr), far, args)
            matches RunLoopDispatch { exit: Exit::Brk { imm16 }, advance_pc } && imm16 == esr
            & 0xFFFF && !advance_pc),
{
    assert((esr >> 26) & 0x3F == esr / 0x400_0000 % 0x40) by (bit_vector);
    assert(esr & 0xFFFF == esr % 0x1_0000) by (bit_vector);
}

/// A trapped system-register access (class 0x18) is a read exactly if bit 0 of the syndrome
/// is set, and names the register and the operand in the fields that the architecture
/// gives: op0 in bits 21 and 20, op2 in 19 to 17, op1 in 16 to 14, CRn in 13 to 10, the
/// operand in 9 to 5, CRm in 4 to 1.
pub proof fn system_register_accesses_name_the_register(esr: u64, far: u64, args: [u64; 4])
    requires
        (esr >> 26) & 0x3F == 0x18,
    ensures
        dispatch_of(esr_fields(esr), far, args).advance_pc,
        dispatch_of(esr_fields(esr), far, args).exit matches Exit::SystemRegister {
            read,
            op0,
            op1,
            crn,
            crm,
            op2,
            xt,
        } && {
            &&& read == (esr & 1 != 0)
            &&& op0 == (esr >> 20) & 3
            &&& op2 == (esr >> 17) & 7
            &&& op1 == (esr >> 14) & 7
            &&& crn == (esr >> 10) & 0xF
            &&& xt == (esr >> 5) & 0x1F
            &&& crm == (esr >> 1) & 0xF
        },
{
    assert((esr >> 26) & 0x3F == esr / 0x400_0000 % 0x40) by (bit_vector);
    assert((esr & 1 != 0) == (esr % 2 == 1)) by (bit_vector);
    assert((esr >> 20) & 3 == esr / 0x10_0000 % 4) by (bit_vector);
    assert((esr >> 17) & 7 == esr / 0x2_0000 % 8) by (bit_vector);
    assert((esr >> 14) & 7 == esr / 0x4000 % 8) by (bit_vector);
    assert((esr >> 10) & 0xF == esr / 0x400 % 0x10) by (bit_vector);
    assert((esr >> 5) & 0x1F == esr / 0x20 % 0x20) by (bit_vector);
    assert((esr >> 1) & 0xF == esr / 2 % 0x10) by (bit_vector);
}

/// A trapped wait (class 0x01) waits for an event exactly if bit 0 of the syndrome is set,
/// otherwise for an interrupt; it is not stepped over. A class without a rule keeps the
/// whole syndrome.
pub proof fn waits_and_unknown_classes(esr: u64, far: u64, args: [u64; 4])
    ensures
        (esr >> 26) & 0x3F == 0x01 ==> !dispatch_of(esr_fields(esr), far, args).advance_pc
            && dispatch_of(esr_fields(esr), far, args).exit == if esr & 1 != 0 {
            Exit::Wfe
        } else {
            Exit::Wfi
        },
        ({
            let class = (esr >> 26) & 0x3F;
            class != 0x01 && class != 0x16 && class != 0x17 && class != 0x18 && class != 0x24
                && class != 0x3C ==> !dispatch_of(esr_fields(esr), far, args).advance_pc && (
            dispatch_of(esr_fields(esr), far, args).exit matches Exit::UnknownExceptionClass {
                ec,
                raw,
            } && ec == class && raw == esr)
        }),
{
    assert((esr >> 26) & 0x3F == esr / 0x400_0000 % 0x40) by (bit_vector);
    assert((esr & 1 != 0) == (esr % 2 == 1)) by (bit_vector);
}

/// What is left of a hypercall that returns is its value; until an action of another
/// completes, the caller sees zero, which stands for success.
pub proof fn direct_answers_are_passed_on<A>(value: u64, action: A)
    ensures
        psci_x0(PsciOutcome::<A>::Return(value)) == value,
        psci_x0(PsciOutcome::Action(action)) == 0,
{
}

/// An exit is told by its kind, with the address, the immediate or the class in base
/// sixteen, filled up to its full width.
pub proof fn exits_are_told_by_their_kind(e: Exit)
    ensures
        e matches Exit::Mmio { addr, write, .. } ==> exit_text(e) == (if write {
            "MMIO "@ + "write"@
        } else {
            "MMIO "@ + "read"@
        }) + " addr="@ + ("0x"@ + text::hex_padded(addr as nat, 16)),
        e matches Exit::SmcHandledAsPsciNotSupported { imm16 } ==> exit_text(e) == "SMC imm16="@ + (
        "0x"@ + text::hex_padded(imm16 as nat, 4)) + " → PSCI_NOT_SUPPORTED"@,
        e matches Exit::Brk { imm16 } ==> exit_text(e) == "BRK imm16="@ + ("0x"@
            + text::hex_padded(imm16 as nat, 4)),
        e is Wfi ==> exit_text(e) == "WFI"@,
        e is Wfe ==> exit_text(e) == "WFE"@,
        e is VtimerActivated ==> exit_text(e) == "VtimerActivated"@,
        e is Cancelled ==> exit_text(e) == "Cancelled"@,
{
}

} // verus!
