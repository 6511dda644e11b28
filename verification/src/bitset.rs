//! Sets of small numbers kept as bits of 64-bit words.

use vstd::prelude::*;
use vstd::std_specs::bits::*;

verus! {

/// Bits in a word.
pub const WORD_BITS: u64 = 64;

/// Whether bit `i` of `w` is set.
pub open spec fn bit(w: u64, i: u64) -> bool {
    (w >> i) & 1 == 1
}

/// Whether the number `n` is in the set held by `words`.
pub open spec fn in_set(words: Seq<u64>, n: int) -> bool {
    bit(words[n / 64], (n % 64) as u64)
}

proof fn bits_of_zero(i: u64)
    ensures
        !bit(0, i),
{
    assert((0u64 >> i) & 1 == 0) by (bit_vector);
}

proof fn bits_of_set(w: u64, i: u64, j: u64)
    requires
        i < 64,
        j < 64,
    ensures
        bit(w | (1u64 << i), j) == (i == j || bit(w, j)),
{
    assert((((w | (1u64 << i)) >> j) & 1 == 1) == (i == j || (w >> j) & 1 == 1)) by (bit_vector)
        requires
            i < 64,
            j < 64,
    ;
}

proof fn bits_of_clear(w: u64, i: u64, j: u64)
    requires
        i < 64,
        j < 64,
    ensures
        bit(w & !(1u64 << i), j) == (i != j && bit(w, j)),
{
    assert((((w & !(1u64 << i)) >> j) & 1 == 1) == (i != j && (w >> j) & 1 == 1)) by (bit_vector)
        requires
            i < 64,
            j < 64,
    ;
}

proof fn bits_of_mask(w: u64, i: u64)
    requires
        i < 64,
    ensures
        (w & (1u64 << i) == 0) == !bit(w, i),
{
    assert((w & (1u64 << i) == 0) == !((w >> i) & 1 == 1)) by (bit_vector)
        requires
            i < 64,
    ;
}

/// Adds `n` to the set. Gives whether it was missing.
pub fn insert(words: &mut Vec<u64>, n: u64) -> (added: bool)
    requires
        n < old(words)@.len() * 64,
    ensures
        added == !in_set(old(words)@, n as int),
        final(words)@.len() == old(words)@.len(),
        forall|k: int|
            0 <= k < final(words)@.len() * 64 ==> #[trigger] in_set(final(words)@, k) == (k == n
                || in_set(old(words)@, k)),
{
    assert(n / WORD_BITS < words.len());
    let idx: usize = (n / WORD_BITS) as usize;
    let i: u64 = n % WORD_BITS;
    let mask: u64 = 1u64 << i;
    let prev: u64 = words[idx];
    words[idx] = prev | mask;
    proof {
        bits_of_mask(prev, i);
        assert forall|k: int| 0 <= k < words@.len() * 64 implies #[trigger] in_set(words@, k) == (k
            == n || in_set(old(words)@, k)) by {
            if k / 64 == idx {
                bits_of_set(prev, i, (k % 64) as u64);
            }
        }
    }
    prev & mask == 0
}

/// Whether `n` is in the set.
pub fn contains(words: &Vec<u64>, n: u64) -> (b: bool)
    requires
        n < words@.len() * 64,
    ensures
        b == in_set(words@, n as int),
{
    assert(n / WORD_BITS < words.len());
    let w: u64 = words[(n / WORD_BITS) as usize];
    let i: u64 = n % WORD_BITS;
    proof {
        bits_of_mask(w, i);
    }
    w & (1u64 << i) != 0
}

/// `found` lists, in rising order, exactly the numbers below `upto` that are in the set.
pub open spec fn lists(found: Seq<u64>, words: Seq<u64>, upto: int) -> bool {
    &&& forall|a: int, b: int| 0 <= a < b < found.len() ==> found[a] < found[b]
    &&& forall|a: int| 0 <= a < found.len() ==> found[a] < upto && in_set(words, #[trigger] found[a] as int)
    &&& forall|n: int| 0 <= n < upto && #[trigger] in_set(words, n) ==> found.contains(n as u64)
}

/// Whether no word has a bit set.
pub fn is_clear(words: &Vec<u64>) -> (b: bool)
    ensures
        b == (forall|n: int| 0 <= n < words@.len() * 64 ==> !#[trigger] in_set(words@, n)),
{
    let mut i: usize = 0;
    while i < words.len()
        invariant
            i <= words@.len(),
            forall|n: int| 0 <= n < i * 64 ==> !#[trigger] in_set(words@, n),
        decreases words@.len() - i,
    {
        let w: u64 = words[i];
        if w != 0 {
            proof {
                axiom_u64_trailing_zeros(w);
                let t = u64_trailing_zeros(w) as int;
                let n = i * 64 + t;
                assert(n / 64 == i && n % 64 == t);
                assert(in_set(words@, n));
            }
            return false;
        }
        proof {
            assert forall|n: int| 0 <= n < (i + 1) * 64 implies !#[trigger] in_set(words@, n) by {
                if n / 64 == i {
                    bits_of_zero((n % 64) as u64);
                }
            }
        }
        i = i + 1;
    }
    true
}

/// Takes every number out of the set and lists what was in it, in rising order.
pub fn drain(words: &mut Vec<u64>) -> (found: Vec<u64>)
    requires
        old(words)@.len() * 64 <= u64::MAX + 1,
    ensures
        lists(found@, old(words)@, old(words)@.len() as int * 64),
        final(words)@.len() == old(words)@.len(),
        forall|n: int| 0 <= n < final(words)@.len() * 64 ==> !#[trigger] in_set(final(words)@, n),
{
    let mut found: Vec<u64> = Vec::new();
    let mut idx: usize = 0;
    let ghost start = words@;
    while idx < words.len()
        invariant
            idx <= words@.len(),
            words@.len() == start.len(),
            start.len() * 64 <= u64::MAX + 1,
            forall|k: int| idx <= k < words@.len() ==> words@[k] == start[k],
            forall|n: int| 0 <= n < idx * 64 ==> !#[trigger] in_set(words@, n),
            lists(found@, start, idx * 64),
        decreases words@.len() - idx,
    {
        let word: u64 = words[idx];
        let mut bits: u64 = word;
        let ghost mut done: int = 0;
        let ghost earlier = words@;
        words[idx] = 0;
        proof {
            assert forall|n: int| 0 <= n < (idx + 1) * 64 implies !#[trigger] in_set(words@, n) by {
                if n / 64 == idx {
                    bits_of_zero((n % 64) as u64);
                } else {
                    assert(!in_set(earlier, n));
                }
            }
        }
        while bits != 0
            invariant
                idx < start.len(),
                start.len() * 64 <= u64::MAX + 1,
                start[idx as int] == word,
                0 <= done <= 64,
                forall|j: u64| j < 64 ==> #[trigger] bit(bits, j) == (j >= done && bit(word, j)),
                lists(found@, start, idx * 64 + done),
            decreases 64 - done,
        {
            proof {
                axiom_u64_trailing_zeros(bits);
            }
            let t: u32 = bits.trailing_zeros();
            let ghost before = bits;
            bits = bits & !(1u64 << t);
            let n: u64 = idx as u64 * WORD_BITS + t as u64;
            assert(bit(before, t as u64));
            proof {
                assert forall|j: u64| j < 64 implies #[trigger] bit(bits, j) == (j >= t + 1 && bit(
                    word,
                    j,
                )) by {
                    bits_of_clear(before, t as u64, j);
                    assert(bit(before, j) == (j >= done && bit(word, j)));
                    if j < t {
                        assert((before >> j) & 1u64 == 0u64);
                    }
                }
                assert(n as int / 64 == idx && n as int % 64 == t);
                let old_found = found@;
                let new_found = found@.push(n);
                assert forall|m: int| 0 <= m < idx * 64 + t + 1 && #[trigger] in_set(
                    start,
                    m,
                ) implies new_found.contains(m as u64) by {
                    if m < idx * 64 + done {
                        let k = choose|k: int|
                            0 <= k < old_found.len() && old_found[k] == m as u64;
                        assert(new_found[k] == m as u64);
                    } else {
                        assert(m / 64 == idx);
                        let j = (m % 64) as u64;
                        assert(bit(word, j));
                        assert(bit(before, j));
                        if j < t {
                            assert((before >> j) & 1u64 == 0u64);
                        }
                        assert(new_found[old_found.len() as int] == m as u64);
                    }
                }
                done = t + 1;
            }
            found.push(n);
        }
        proof {
            assert forall|m: int| 0 <= m < (idx + 1) * 64 && #[trigger] in_set(
                start,
                m,
            ) implies found@.contains(m as u64) by {
                if m >= idx * 64 + done {
                    let j = (m % 64) as u64;
                    assert(m / 64 == idx);
                    assert(bit(bits, j) == (j >= done && bit(word, j)));
                    bits_of_zero(j);
                }
            }
        }
        idx = idx + 1;
    }
    found
}

} // verus!
