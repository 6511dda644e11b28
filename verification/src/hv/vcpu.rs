//! A vCPU and the thread that it belongs to.

use vstd::prelude::*;

use crate::hv::irq::IrqShadow;

verus! {

/// A vCPU was used by a thread that it does not belong to.
#[derive(Clone, Copy, Debug, PartialEq, Eq, Structural)]
pub struct ThreadAffinityError {
    /// The thread it belongs to.
    pub expected: u64,
    /// The thread that used it.
    pub actual: u64,
}

/// A vCPU. Threads are told apart by numbers that the caller gives out.
#[derive(Debug)]
pub struct HvfVcpu {
    /// Which vCPU of the guest it is.
    pub index: u32,
    /// Its affinity.
    pub mpidr: u64,
    /// The thread it belongs to.
    pub owning_thread: u64,
    /// Interrupts that wait for it.
    pub irq_shadow: IrqShadow,
}

impl HvfVcpu {
    /// A vCPU that belongs to `thread`, with no interrupts waiting.
    pub fn new(index: u32, mpidr: u64, thread: u64) -> (v: Self)
        ensures
            v.index == index,
            v.mpidr == mpidr,
            v.owning_thread == thread,
            v.irq_shadow.wf(),
            forall|i: int| !#[trigger] v.irq_shadow.pending(i),
    {
        HvfVcpu { index, mpidr, owning_thread: thread, irq_shadow: IrqShadow::new() }
    }

    /// Refuses use by another thread than the one it belongs to.
    pub fn check_affinity(&self, current_thread: u64) -> (r: Result<(), ThreadAffinityError>)
        ensures
            match r {
                Ok(()) => current_thread == self.owning_thread,
                Err(e) => current_thread != self.owning_thread && e.expected == self.owning_thread
                    && e.actual == current_thread,
            },
    {
        if current_thread == self.owning_thread {
            return Ok(());
        }
        Err(ThreadAffinityError { expected: self.owning_thread, actual: current_thread })
    }
}

} // verus!
