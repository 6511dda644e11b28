//! The interrupts pending for one vCPU.

use vstd::prelude::*;

use crate::bitset;

verus! {

/// One more than the highest interrupt id that is tracked.
pub const MAX_TRACKED_INTID: u32 = 1024;

/// Words that hold one bit for each tracked interrupt id.
pub const WORDS: usize = 16;

/// The set of interrupt ids waiting to be handed to a vCPU.
#[derive(Debug)]
pub struct IrqShadow {
    words: Vec<u64>,
}

/// Where the bit of an interrupt id stands: the word and the mask in it.
pub fn bit_position(intid: u32) -> (r: Option<(usize, u64)>)
    ensures
        match r {
            Some((word, mask)) => intid < MAX_TRACKED_INTID && word == intid / 64 && mask == 1u64
                << (intid % 64),
            None => intid >= MAX_TRACKED_INTID,
        },
{
    if intid >= MAX_TRACKED_INTID {
        return None;
    }
    let word: usize = (intid / 64) as usize;
    let mask: u64 = 1u64 << (intid % 64);
    Some((word, mask))
}

impl IrqShadow {
    /// The storage covers exactly the tracked ids.
    pub closed spec fn wf(&self) -> bool {
        self.words@.len() == WORDS
    }

    /// Whether `intid` is pending.
    pub closed spec fn pending(&self, intid: int) -> bool {
        0 <= intid < MAX_TRACKED_INTID && bitset::in_set(self.words@, intid)
    }

    /// Nothing pending.
    pub fn new() -> (s: Self)
        ensures
            s.wf(),
            forall|i: int| !#[trigger] s.pending(i),
    {
        let mut words: Vec<u64> = Vec::new();
        let mut i: usize = 0;
        while i < WORDS
            invariant
                i <= WORDS,
                words@.len() == i,
                forall|k: int| 0 <= k < i ==> words@[k] == 0,
            decreases WORDS - i,
        {
            words.push(0);
            i = i + 1;
        }
        assert forall|n: int| 0 <= n < MAX_TRACKED_INTID implies !#[trigger] bitset::in_set(
            words@,
            n,
        ) by {
            let j = (n % 64) as u64;
            assert((0u64 >> j) & 1 == 0) by (bit_vector);
        }
        IrqShadow { words }
    }

    /// Marks `intid` pending. Gives whether it became pending by this call; an id out
    /// of range is dropped.
    pub fn inject(&mut self, intid: u32) -> (added: bool)
        requires
            old(self).wf(),
        ensures
            final(self).wf(),
            added == (intid < MAX_TRACKED_INTID && !old(self).pending(intid as int)),
            intid < 1024 <==> final(self).pending(intid as int),
            forall|i: int| #[trigger]
                final(self).pending(i) == (old(self).pending(i) || (i == intid && intid
                    < MAX_TRACKED_INTID)),
    {
        if intid >= MAX_TRACKED_INTID {
            return false;
        }
        bitset::insert(&mut self.words, intid as u64)
    }

    /// Takes all pending ids, lowest first.
    pub fn take(&mut self) -> (ids: Vec<u32>)
        requires
            old(self).wf(),
        ensures
            final(self).wf(),
            forall|i: int| !#[trigger] final(self).pending(i),
            forall|a: int, b: int| 0 <= a < b < ids@.len() ==> ids@[a] < ids@[b],
            forall|i: u32| #[trigger] ids@.contains(i) <==> old(self).pending(i as int),
    {
        let found: Vec<u64> = bitset::drain(&mut self.words);
        let mut ids: Vec<u32> = Vec::new();
        let mut k: usize = 0;
        while k < found.len()
            invariant
                k <= found@.len(),
                ids@.len() == k,
                forall|a: int| 0 <= a < found@.len() ==> found@[a] < MAX_TRACKED_INTID,
                forall|a: int| 0 <= a < k ==> ids@[a] == found@[a],
            decreases found@.len() - k,
        {
            ids.push(found[k] as u32);
            k = k + 1;
        }
        proof {
            assert forall|i: u32| #[trigger] ids@.contains(i) <==> old(self).pending(i as int) by {
                if ids@.contains(i) {
                    let a = choose|a: int| 0 <= a < ids@.len() && ids@[a] == i;
                    assert(found@[a] == i);
                }
                if old(self).pending(i as int) {
                    assert(found@.contains(i as u64));
                    let a = choose|a: int| 0 <= a < found@.len() && found@[a] == i as u64;
                    assert(ids@[a] == i);
                }
            }
        }
        ids
    }

    /// Hands every pending id to `emit`, once each and lowest first, and clears it. No other
    /// id is handed over, so `emit` need be ready for the pending ones only.
    pub fn drain<F: FnMut(u32)>(&mut self, mut emit: F)
        requires
            old(self).wf(),
            forall|i: u32| #[trigger] old(self).pending(i as int) ==> call_requires(emit, (i,)),
        ensures
            final(self).wf(),
            forall|i: int| !#[trigger] final(self).pending(i),
            forall|i: u32| #[trigger]
                old(self).pending(i as int) ==> call_ensures(emit, (i,), ()),
    {
        let ids: Vec<u32> = self.take();
        let ghost handler = emit;
        assert forall|a: int| 0 <= a < ids@.len() implies call_requires(
            emit,
            (#[trigger] ids@[a],),
        ) by {
            assert(ids@.contains(ids@[a]));
        }
        let mut k: usize = 0;
        while k < ids.len()
            invariant
                k <= ids@.len(),
                emit == handler,
                forall|a: int|
                    0 <= a < ids@.len() ==> call_requires(emit, (#[trigger] ids@[a],)),
                forall|a: int| 0 <= a < k ==> call_ensures(emit, (#[trigger] ids@[a],), ()),
            decreases ids@.len() - k,
        {
            emit(ids[k]);
            k = k + 1;
        }
        assert forall|i: u32| #[trigger] old(self).pending(i as int) implies call_ensures(
            emit,
            (i,),
            (),
        ) by {
            assert(ids@.contains(i));
        }
    }

    /// Whether nothing is pending.
    pub fn is_empty(&self) -> (b: bool)
        requires
            self.wf(),
        ensures
            b == (forall|i: int| !#[trigger] self.pending(i)),
    {
        let b = bitset::is_clear(&self.words);
        proof {
            if !b {
                let n = choose|n: int|
                    0 <= n < self.words@.len() * 64 && #[trigger] bitset::in_set(self.words@, n);
                assert(self.pending(n));
            }
        }
        b
    }
}

impl Default for IrqShadow {
    fn default() -> (s: Self)
        ensures
            s.wf(),
            forall|i: int| !#[trigger] s.pending(i),
    {
        IrqShadow::new()
    }
}

} // verus!
