//! Memory that is plugged into and unplugged from a running guest.

use std::collections::BTreeMap;
use vstd::prelude::*;
use vstd::std_specs::btree::*;
use vstd::string::*;

use crate::text::{self, push_decimal, push_hex_prefixed};

verus! {

/// What is said of a base address that was plugged already.
pub open spec fn already_mapped_text(guest_base: u64) -> Seq<char> {
    "HvfMemBackend::plug: guest_base "@ + text::hex_prefixed(guest_base as nat)
        + " already mapped (virtio-mem invariant violation)"@
}

/// What is said of a step of plugging or unplugging that failed.
pub open spec fn step_text(operation: Seq<char>, guest_base: u64, len: u64, fault: Seq<char>) -> Seq<
    char,
> {
    "HvfMemBackend::"@ + operation + "("@ + text::hex_prefixed(guest_base as nat) + ", "@
        + text::decimal(len as nat) + "): "@ + fault
}

/// What is said of a step that failed: the operation, the range and the fault.
pub fn step_fault(operation: &str, guest_base: u64, len: u64, fault: &str) -> (s: String)
    ensures
        s@ == step_text(operation@, guest_base, len, fault@),
{
    let mut s = String::from_str("HvfMemBackend::");
    s.append(operation);
    s.append("(");
    push_hex_prefixed(&mut s, guest_base);
    s.append(", ");
    push_decimal(&mut s, len);
    s.append("): ");
    s.append(fault);
    assert(s@ =~= step_text(operation@, guest_base, len, fault@));
    s
}

/// The regions that are plugged in, by their base address, each with what stands for it
/// on the host.
#[derive(Debug)]
pub struct HvfMemBackend<M> {
    regions: BTreeMap<u64, M>,
}

impl<M> View for HvfMemBackend<M> {
    type V = Map<u64, M>;

    closed spec fn view(&self) -> Map<u64, M> {
        self.regions@
    }
}

impl<M> HvfMemBackend<M> {
    /// Nothing is plugged in.
    pub fn new() -> (b: Self)
        ensures
            b@ == Map::<u64, M>::empty(),
    {
        HvfMemBackend { regions: BTreeMap::new() }
    }

    /// How many regions are plugged in.
    pub fn plugged_region_count(&self) -> (n: usize)
        ensures
            n == self@.dom().len(),
    {
        broadcast use group_btree_axioms;

        self.regions.len()
    }

    /// Enters a region that was mapped at `guest_base`. One that was entered there before
    /// is a fault of the caller; the new one takes its place all the same.
    pub fn plug(&mut self, guest_base: u64, memory: M) -> (r: Result<(), String>)
        ensures
            final(self)@ == old(self)@.insert(guest_base, memory),
            match r {
                Ok(()) => !old(self)@.contains_key(guest_base),
                Err(why) => old(self)@.contains_key(guest_base) && why@ == already_mapped_text(
                    guest_base,
                ),
            },
    {
        broadcast use group_btree_axioms;

        if self.regions.insert(guest_base, memory).is_some() {
            let mut why = String::from_str("HvfMemBackend::plug: guest_base ");
            push_hex_prefixed(&mut why, guest_base);
            why.append(" already mapped (virtio-mem invariant violation)");
            assert(why@ =~= already_mapped_text(guest_base));
            return Err(why);
        }
        Ok(())
    }

    /// Takes out the region at `guest_base`, to be unmapped.
    pub fn unplug(&mut self, guest_base: u64, len: u64) -> (r: Result<M, String>)
        ensures
            final(self)@ == old(self)@.remove(guest_base),
            match r {
                Ok(memory) => old(self)@.contains_key(guest_base) && old(self)@[guest_base]
                    == memory,
                Err(why) => !old(self)@.contains_key(guest_base) && why@ == step_text(
                    "unplug"@,
                    guest_base,
                    len,
                    "not plugged"@,
                ),
            },
    {
        broadcast use group_btree_axioms;

        match self.regions.remove(&guest_base) {
            Some(memory) => Ok(memory),
            None => Err(step_fault("unplug", guest_base, len, "not plugged")),
        }
    }
}

/// Unplugging undoes plugging.
pub proof fn unplug_undoes_plug<M>(before: Map<u64, M>, guest_base: u64, memory: M)
    requires
        !before.contains_key(guest_base),
    ensures
        before.insert(guest_base, memory).remove(guest_base) == before,
{
    assert(before.insert(guest_base, memory).remove(guest_base) =~= before);
}

} // verus!
