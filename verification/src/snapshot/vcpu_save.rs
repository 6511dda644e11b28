//! Taking the state of a vCPU apart and putting it back.

use std::collections::BTreeMap;
use vstd::prelude::*;

use crate::arch::{self, SysReg, SYS_REG_COUNT};
use crate::maps::{self, entries_of, put};
use crate::snapshot::error::SnapshotError;
use crate::snapshot::state::{FpSimdRegs, GpRegs, MmdsState, PsciVcpuState, VcpuState};

verus! {

/// Where the state of a vCPU is read from.
pub trait VcpuSnapshotSource {
    /// The affinity of the vCPU.
    fn mpidr(&self) -> u64;

    /// Its general-purpose registers.
    fn read_gp_regs(&self) -> Result<GpRegs, SnapshotError>;

    /// Its floating-point registers.
    fn read_fp_simd(&self) -> Result<FpSimdRegs, SnapshotError>;

    /// One of its system registers; `None` if the host does not show it.
    fn read_sys_reg(&self, reg: SysReg) -> Result<Option<u64>, SnapshotError>;

    /// Its power state, for diagnosis only.
    fn psci_state(&self) -> PsciVcpuState;
}

/// One write to a vCPU that is being restored.
pub enum RestoreStep {
    Gp(GpRegs),
    Fp(FpSimdRegs),
    Sys(SysReg, u64),
    Psci(PsciVcpuState),
}

/// The error of a write, if it failed.
pub open spec fn outcome(r: Result<(), SnapshotError>) -> Option<SnapshotError> {
    match r {
        Ok(()) => None,
        Err(e) => Some(e),
    }
}

/// `before`, and after it `n` writes that succeeded.
pub open spec fn then_succeeded(before: Seq<Option<SnapshotError>>, n: int) -> Seq<
    Option<SnapshotError>,
> {
    before + Seq::new(n as nat, |i: int| None)
}

/// Where the state of a vCPU is written to. Of an implementation it is known which
/// writes were asked of it, and what became of each.
///
/// The two logs stand in contracts only, so an implementation that is not verified can leave
/// them out. One that keeps their default bodies cannot meet the contracts of the methods, and
/// nothing is proved of a restore to it.
pub trait VcpuRestoreTarget {
    /// The writes that were asked for, whether or not they succeeded.
    open spec fn asked(&self) -> Seq<RestoreStep> {
        Seq::empty()
    }

    /// The outcome of each of those writes.
    open spec fn outcomes(&self) -> Seq<Option<SnapshotError>> {
        Seq::empty()
    }

    /// Writes the general-purpose registers.
    fn write_gp_regs(&mut self, regs: &GpRegs) -> (r: Result<(), SnapshotError>)
        ensures
            final(self).asked() == old(self).asked().push(RestoreStep::Gp(*regs)),
            final(self).outcomes() == old(self).outcomes().push(outcome(r)),
    ;

    /// Writes the floating-point registers.
    fn write_fp_simd(&mut self, regs: &FpSimdRegs) -> (r: Result<(), SnapshotError>)
        ensures
            final(self).asked() == old(self).asked().push(RestoreStep::Fp(*regs)),
            final(self).outcomes() == old(self).outcomes().push(outcome(r)),
    ;

    /// Writes one system register.
    fn write_sys_reg(&mut self, reg: SysReg, value: u64) -> (r: Result<(), SnapshotError>)
        ensures
            final(self).asked() == old(self).asked().push(RestoreStep::Sys(reg, value)),
            final(self).outcomes() == old(self).outcomes().push(outcome(r)),
    ;

    /// Sets the power state.
    fn set_psci_state(&mut self, state: PsciVcpuState) -> (r: Result<(), SnapshotError>)
        ensures
            final(self).asked() == old(self).asked().push(RestoreStep::Psci(state)),
            final(self).outcomes() == old(self).outcomes().push(outcome(r)),
    ;
}

/// Where the state of the interrupt controller is read from.
pub trait GicSnapshotSource {
    /// The opaque state.
    fn capture(&self) -> Result<Vec<u8>, SnapshotError>;
}

/// Where the state of the interrupt controller is written to, before any vCPU runs.
pub trait GicRestoreTarget {
    /// Puts back the opaque state.
    fn restore(&mut self, data: &[u8]) -> Result<(), SnapshotError>;
}

/// Where the state of the metadata service is read from.
pub trait MmdsSnapshotSource {
    /// The state; `None` if the service is not in use.
    fn capture(&self) -> Result<Option<MmdsState>, SnapshotError>;
}

/// Where the state of the metadata service is written to.
pub trait MmdsRestoreTarget {
    /// Puts back the state. `None` stands for a snapshot without any: the target then leaves
    /// its own state of the service untouched.
    fn restore(&mut self, state: Option<&MmdsState>) -> Result<(), SnapshotError>;
}

/// The saved registers by key, where `readings` holds what each listed register read as:
/// those that the host does not show are left out.
pub open spec fn saved_regs(readings: Seq<Option<u64>>) -> Map<u64, u64> {
    saved_up_to(readings, readings.len() as int)
}

/// The saved registers among the first `n`.
pub open spec fn saved_up_to(readings: Seq<Option<u64>>, n: int) -> Map<u64, u64>
    decreases n,
{
    if n <= 0 {
        Map::empty()
    } else {
        let before = saved_up_to(readings, n - 1);
        match readings[n - 1] {
            Some(v) => before.insert(SysReg::listed()[n - 1].encoded() as u64, v),
            None => before,
        }
    }
}

/// Puts a vCPU's state together from what was read of it.
pub fn assemble_vcpu_state(
    mpidr: u64,
    regs: GpRegs,
    fp_regs: FpSimdRegs,
    readings: &[Option<u64>],
    psci_state: PsciVcpuState,
) -> (s: VcpuState)
    requires
        readings@.len() == SYS_REG_COUNT,
    ensures
        s.mpidr == mpidr,
        s.regs == regs,
        s.fp_regs == fp_regs,
        s.sys_regs@ == saved_regs(readings@),
        s.psci_state == psci_state,
{
    let all = SysReg::all();
    let mut sys_regs: BTreeMap<u64, u64> = BTreeMap::new();
    let mut i: usize = 0;
    while i < SYS_REG_COUNT
        invariant
            i <= SYS_REG_COUNT,
            readings@.len() == SYS_REG_COUNT,
            all@ == SysReg::listed(),
            sys_regs@ == saved_up_to(readings@, i as int),
        decreases SYS_REG_COUNT - i,
    {
        if let Some(value) = readings[i] {
            put(&mut sys_regs, all[i].as_encoded(), value);
        }
        i = i + 1;
    }
    VcpuState { mpidr, regs, fp_regs, sys_regs, psci_state }
}

/// Reads the state of a vCPU. The system registers are read in their listed order; the
/// first failure ends it.
pub fn capture_vcpu_state<S: VcpuSnapshotSource>(source: &S) -> (r: Result<
    VcpuState,
    SnapshotError,
>)
    ensures
        match r {
            Ok(s) => {
                &&& call_ensures(S::mpidr, (source,), s.mpidr)
                &&& call_ensures(
                    S::read_gp_regs,
                    (source,),
                    Ok::<GpRegs, SnapshotError>(s.regs),
                )
                &&& call_ensures(
                    S::read_fp_simd,
                    (source,),
                    Ok::<FpSimdRegs, SnapshotError>(s.fp_regs),
                )
                &&& call_ensures(S::psci_state, (source,), s.psci_state)
                &&& exists|readings: Seq<Option<u64>>| #[trigger]
                    read_from(source, readings) && readings.len() == SYS_REG_COUNT && s.sys_regs@
                        == saved_regs(readings)
            },
            Err(e) => {
                ||| call_ensures(S::read_gp_regs, (source,), Err::<GpRegs, SnapshotError>(e))
                ||| call_ensures(S::read_fp_simd, (source,), Err::<FpSimdRegs, SnapshotError>(e))
                ||| exists|reg: SysReg| #[trigger]
                    call_ensures(
                        S::read_sys_reg,
                        (source, reg),
                        Err::<Option<u64>, SnapshotError>(e),
                    )
            },
        },
{
    let regs = match source.read_gp_regs() {
        Ok(regs) => regs,
        Err(e) => return Err(e),
    };
    let fp_regs = match source.read_fp_simd() {
        Ok(fp_regs) => fp_regs,
        Err(e) => return Err(e),
    };
    let all = SysReg::all();
    let mut readings: Vec<Option<u64>> = Vec::new();
    let mut i: usize = 0;
    while i < SYS_REG_COUNT
        invariant
            i <= SYS_REG_COUNT,
            readings@.len() == i,
            all@ == SysReg::listed(),
            read_from(source, readings@),
        decreases SYS_REG_COUNT - i,
    {
        match source.read_sys_reg(all[i]) {
            Ok(value) => {
                readings.push(value);
            },
            Err(e) => return Err(e),
        }
        i = i + 1;
    }
    let mpidr: u64 = source.mpidr();
    Ok(assemble_vcpu_state(mpidr, regs, fp_regs, readings.as_slice(), source.psci_state()))
}

/// Each of `readings` is what the source gave for the register at its place in the list.
pub open spec fn read_from<S: VcpuSnapshotSource>(
    source: &S,
    readings: Seq<Option<u64>>,
) -> bool {
    forall|i: int|
        0 <= i < readings.len() ==> call_ensures(
            S::read_sys_reg,
            (source, SysReg::listed()[i]),
            Ok::<Option<u64>, SnapshotError>(#[trigger] readings[i]),
        )
}

/// The power state in which a vCPU is restored: the first runs, the others wait to be
/// started by the guest.
pub open spec fn restored_psci(vcpu_index: u32) -> PsciVcpuState {
    if vcpu_index == 0 {
        PsciVcpuState::On
    } else {
        PsciVcpuState::Off
    }
}

/// The power state in which the vCPU at `vcpu_index` is restored.
pub fn normalized_psci_state(vcpu_index: u32) -> (s: PsciVcpuState)
    ensures
        s == restored_psci(vcpu_index),
{
    if vcpu_index == 0 {
        PsciVcpuState::On
    } else {
        PsciVcpuState::Off
    }
}

/// The first of the entries whose key names no register; their number if all do.
pub open spec fn first_unknown(entries: Seq<(u64, u64)>, from: int) -> int
    decreases entries.len() - from,
{
    if from >= entries.len() || SysReg::decoded(entries[from].0 as int) is None {
        from
    } else {
        first_unknown(entries, from + 1)
    }
}

/// The writes of the first `n` system registers.
pub open spec fn sys_steps(entries: Seq<(u64, u64)>, n: int) -> Seq<RestoreStep> {
    Seq::new(
        n as nat,
        |i: int|
            RestoreStep::Sys(SysReg::decoded(entries[i].0 as int)->0, entries[i].1),
    )
}

/// All the writes of a restore: the two register files, the system registers in key order
/// as far as their keys are known, and, if they all are, the power state.
pub open spec fn restore_steps(
    s: VcpuState,
    entries: Seq<(u64, u64)>,
    vcpu_index: u32,
) -> Seq<RestoreStep> {
    let n = first_unknown(entries, 0);
    let regs = seq![RestoreStep::Gp(s.regs), RestoreStep::Fp(s.fp_regs)] + sys_steps(entries, n);
    if n < entries.len() {
        regs
    } else {
        regs.push(RestoreStep::Psci(restored_psci(vcpu_index)))
    }
}

proof fn first_unknown_bounds(entries: Seq<(u64, u64)>, from: int, n: int)
    requires
        0 <= from <= n <= entries.len(),
        forall|i: int| from <= i < n ==> SysReg::decoded((#[trigger] entries[i]).0 as int) is Some,
    ensures
        n <= first_unknown(entries, from) <= entries.len(),
        n < entries.len() && SysReg::decoded(entries[n].0 as int) is None ==> first_unknown(
            entries,
            from,
        ) == n,
    decreases entries.len() - from,
{
    if from < n {
        assert(SysReg::decoded(entries[from].0 as int) is Some);
        first_unknown_bounds(entries, from + 1, n);
    } else if n < entries.len() && SysReg::decoded(entries[n].0 as int) is Some {
        first_unknown_bounds(entries, n + 1, n + 1);
    }
}

/// Writes the state of a vCPU to `target`. The power state written is the one in which
/// the vCPU at `vcpu_index` is restored, whatever was saved. A saved register with an
/// unknown key ends the restore as incompatible, and so does, with its error, a write
/// that fails; nothing is written after that.
pub fn restore_vcpu_state<T: VcpuRestoreTarget>(
    target: &mut T,
    state: &VcpuState,
    vcpu_index: u32,
) -> (r: Result<(), SnapshotError>)
    ensures
        exists|entries: Seq<(u64, u64)>, n: int|
            {
                &&& #[trigger] maps::in_key_order(entries, state.sys_regs@)
                &&& 0 <= n <= restore_steps(*state, entries, vcpu_index).len()
                &&& final(target).asked() == old(target).asked() + #[trigger] restore_steps(
                    *state,
                    entries,
                    vcpu_index,
                ).take(n)
                &&& match r {
                    Ok(()) => {
                        &&& final(target).outcomes() == then_succeeded(old(target).outcomes(), n)
                        &&& n == restore_steps(*state, entries, vcpu_index).len()
                        &&& first_unknown(entries, 0) == entries.len()
                    },
                    Err(e) => n > 0 && {
                        ||| final(target).outcomes() == then_succeeded(
                            old(target).outcomes(),
                            n - 1,
                        ).push(Some(e))
                        ||| {
                            &&& final(target).outcomes() == then_succeeded(
                                old(target).outcomes(),
                                n,
                            )
                            &&& e == SnapshotError::Incompatible
                            &&& n == restore_steps(*state, entries, vcpu_index).len()
                            &&& first_unknown(entries, 0) < entries.len()
                        }
                    },
                }
            },
{
    let ghost start = target.asked();
    let ghost before = target.outcomes();
    let entries: Vec<(u64, u64)> = entries_of(&state.sys_regs);
    let ghost all = restore_steps(*state, entries@, vcpu_index);
    proof {
        first_unknown_bounds(entries@, 0, 0);
    }
    if let Err(e) = target.write_gp_regs(&state.regs) {
        assert(target.asked() =~= start + all.take(1));
        assert(target.outcomes() =~= then_succeeded(before, 0).push(Some(e)));
        return Err(e);
    }
    if let Err(e) = target.write_fp_simd(&state.fp_regs) {
        assert(target.asked() =~= start + all.take(2));
        assert(target.outcomes() =~= then_succeeded(before, 1).push(Some(e)));
        return Err(e);
    }
    assert(target.asked() =~= start + all.take(2));
    assert(target.outcomes() =~= then_succeeded(before, 2));
    let mut i: usize = 0;
    while i < entries.len()
        invariant
            i <= entries@.len(),
            maps::in_key_order(entries@, state.sys_regs@),
            forall|k: int|
                0 <= k < i ==> SysReg::decoded((#[trigger] entries@[k]).0 as int) is Some,
            all == restore_steps(*state, entries@, vcpu_index),
            start == old(target).asked(),
            i <= first_unknown(entries@, 0) <= entries@.len(),
            target.asked() == start + all.take(2 + i),
            before == old(target).outcomes(),
            target.outcomes() == then_succeeded(before, 2 + i),
        decreases entries@.len() - i,
    {
        proof {
            first_unknown_bounds(entries@, 0, i as int);
        }
        match SysReg::from_encoded(entries[i].0) {
            Some(reg) => {
                proof {
                    first_unknown_bounds(entries@, 0, i + 1);
                    assert(all[2 + i] == RestoreStep::Sys(reg, entries@[i as int].1));
                    assert(all.take(3 + i) =~= all.take(2 + i).push(all[2 + i]));
                }
                if let Err(e) = target.write_sys_reg(reg, entries[i].1) {
                    assert(target.asked() =~= start + all.take(3 + i));
                    return Err(e);
                }
                assert(target.asked() =~= start + all.take(3 + i));
                assert(target.outcomes() =~= then_succeeded(before, 3 + i));
            },
            None => {
                return Err(SnapshotError::Incompatible);
            },
        }
        i = i + 1;
    }
    assert(all.take(3 + i) =~= all.take(2 + i).push(all[2 + i]));
    let done = target.set_psci_state(normalized_psci_state(vcpu_index));
    assert(target.asked() =~= start + all.take(3 + i));
    assert(done is Ok ==> target.outcomes() =~= then_succeeded(before, 3 + i));
    done
}

proof fn saved_entries(readings: Seq<Option<u64>>, n: int)
    requires
        0 <= n <= readings.len() <= SYS_REG_COUNT,
    ensures
        forall|k: u64| #[trigger]
            saved_up_to(readings, n).contains_key(k) ==> SysReg::decoded(k as int) is Some,
        forall|i: int|
            0 <= i < n && (#[trigger] readings[i]) is Some ==> saved_up_to(
                readings,
                n,
            ).contains_key(SysReg::listed()[i].encoded() as u64) && saved_up_to(
                readings,
                n,
            )[SysReg::listed()[i].encoded() as u64] == readings[i]->0,
    decreases n,
{
    if n > 0 {
        saved_entries(readings, n - 1);
        let l = SysReg::listed();
        arch::all_are_listed_once(l[n - 1]);
        arch::key_round_trip(l[n - 1]);
        let key = l[n - 1].encoded() as u64;
        assert(SysReg::decoded(key as int) is Some);
        assert forall|k: u64| #[trigger] saved_up_to(readings, n).contains_key(
            k,
        ) implies SysReg::decoded(k as int) is Some by {
            if k != key {
                assert(saved_up_to(readings, n - 1).contains_key(k));
            }
        }
        assert forall|i: int| 0 <= i < n && (#[trigger] readings[i]) is Some implies saved_up_to(
            readings,
            n,
        ).contains_key(l[i].encoded() as u64) && saved_up_to(readings, n)[l[i].encoded() as u64]
            == readings[i]->0 by {
            arch::key_round_trip(l[i]);
            if i < n - 1 {
                assert(l[i] != l[n - 1]);
            }
        }
    }
}

/// A captured vCPU can be restored: every key is known, and each register that was read
/// is written with the value it was read with.
pub proof fn captured_registers_are_restored(
    readings: Seq<Option<u64>>,
    entries: Seq<(u64, u64)>,
    i: int,
)
    requires
        readings.len() == SYS_REG_COUNT,
        maps::in_key_order(entries, saved_regs(readings)),
        0 <= i < SYS_REG_COUNT,
    ensures
        first_unknown(entries, 0) == entries.len(),
        readings[i] is Some ==> sys_steps(entries, entries.len() as int).contains(
            RestoreStep::Sys(SysReg::listed()[i], readings[i]->0),
        ),
{
    let m = saved_regs(readings);
    saved_entries(readings, readings.len() as int);
    assert forall|k: int| 0 <= k < entries.len() implies SysReg::decoded(
        (#[trigger] entries[k]).0 as int,
    ) is Some by {
        assert(m.contains_key(entries[k].0));
    }
    first_unknown_bounds(entries, 0, entries.len() as int);
    if readings[i] is Some {
        let reg = SysReg::listed()[i];
        arch::key_round_trip(reg);
        let key = reg.encoded() as u64;
        assert(m.contains_key(key));
        let k = choose|k: int| 0 <= k < entries.len() && (#[trigger] entries[k]).0 == key;
        assert(sys_steps(entries, entries.len() as int)[k] == RestoreStep::Sys(
            reg,
            readings[i]->0,
        ));
    }
}

/// What was saved of the power state has no part in a restore.
pub proof fn saved_power_state_is_not_restored(
    a: VcpuState,
    b: VcpuState,
    entries: Seq<(u64, u64)>,
    vcpu_index: u32,
)
    requires
        a.regs == b.regs,
        a.fp_regs == b.fp_regs,
    ensures
        restore_steps(a, entries, vcpu_index) == restore_steps(b, entries, vcpu_index),
{
}

/// A restore writes the general-purpose registers, the floating-point registers, each system
/// register with the value saved under its key, in the order of the keys, and at last the
/// power state, in which only the first vCPU runs. From the first key that names no
/// register on nothing is written.
pub proof fn restores_write_in_order(
    s: VcpuState,
    entries: Seq<(u64, u64)>,
    vcpu_index: u32,
    n: int,
)
    requires
        0 <= n <= entries.len(),
        forall|i: int| 0 <= i < n ==> SysReg::decoded((#[trigger] entries[i]).0 as int) is Some,
        n < entries.len() ==> SysReg::decoded(entries[n].0 as int) is None,
    ensures
        ({
            let steps = restore_steps(s, entries, vcpu_index);
            &&& steps[0] == RestoreStep::Gp(s.regs)
            &&& steps[1] == RestoreStep::Fp(s.fp_regs)
            &&& forall|i: int|
                0 <= i < n ==> (#[trigger] steps[2 + i] matches RestoreStep::Sys(reg, value)
                    && SysReg::decoded(entries[i].0 as int) == Some(reg) && value == entries[i].1)
            &&& n < entries.len() ==> steps.len() == 2 + n
            &&& n == entries.len() ==> steps.len() == 3 + n && steps[2 + n] == RestoreStep::Psci(
                if vcpu_index == 0 {
                    PsciVcpuState::On
                } else {
                    PsciVcpuState::Off
                },
            )
        }),
{
    first_unknown_bounds(entries, 0, n);
    assert(first_unknown(entries, 0) == n);
}

/// What is saved of the system registers are exactly those that could be read, each under
/// its own key with the value that was read.
pub proof fn saved_registers_are_those_read(readings: Seq<Option<u64>>, key: u64)
    requires
        readings.len() == SYS_REG_COUNT,
    ensures
        saved_regs(readings).contains_key(key) <==> exists|i: int|
            0 <= i < readings.len() && (#[trigger] readings[i]) is Some && key
                == SysReg::listed()[i].encoded(),
{
    saved_keys(readings, readings.len() as int, key);
}

proof fn saved_keys(readings: Seq<Option<u64>>, n: int, key: u64)
    requires
        0 <= n <= readings.len() <= SYS_REG_COUNT,
    ensures
        saved_up_to(readings, n).contains_key(key) <==> exists|i: int|
            0 <= i < n && (#[trigger] readings[i]) is Some && key
                == SysReg::listed()[i].encoded(),
    decreases n,
{
    if n > 0 {
        saved_keys(readings, n - 1, key);
        arch::all_are_listed_once(SysReg::listed()[n - 1]);
        arch::key_round_trip(SysReg::listed()[n - 1]);
        if readings[n - 1] is Some && key == SysReg::listed()[n - 1].encoded() {
            assert(readings[n - 1] is Some);
        }
    }
}

} // verus!
