//! Dirty-page tracking: a bitmap of written pages for one range of guest memory, and
//! the rule that moves a hot range from coarse to fine pages.

use vstd::arithmetic::div_mod::*;
use vstd::arithmetic::power2::*;
use vstd::prelude::*;
use vstd::string::*;

use crate::bitset;
use crate::clock::Clock;
use crate::snapshot::error::SnapshotError;
use crate::text::{self, push_decimal, push_hex_prefixed};

verus! {

/// Faults in one window on one coarse block above which the range becomes fine.
pub const DEFAULT_STEP_DOWN_THRESHOLD: u32 = 32;

/// Length of the window in which faults are counted, in nanoseconds.
pub const ADAPTIVE_WINDOW_NS: u64 = 100_000_000;

/// The page sizes of dirty tracking, in bytes.
#[derive(Clone, Copy, Debug, PartialEq, Eq, Structural)]
pub struct PageGeometry {
    /// Coarse pages.
    pub tracking_page_default: u64,
    /// Fine pages, for hot ranges.
    pub tracking_page_hot: u64,
}

impl PageGeometry {
    /// Pages of 2 MiB, and of 16 KiB in hot ranges.
    pub fn apple_silicon() -> (g: Self)
        ensures
            g.tracking_page_default == 2 * 1024 * 1024,
            g.tracking_page_hot == 16 * 1024,
    {
        PageGeometry { tracking_page_default: 0x20_0000, tracking_page_hot: 0x4000 }
    }
}

/// The granularity at which a range is tracked.
#[derive(Clone, Copy, Debug, PartialEq, Eq, Structural)]
pub enum TrackingGranule {
    Coarse,
    Fine,
}

/// The page size of a granule.
pub open spec fn granule_size(g: TrackingGranule, geom: PageGeometry) -> u64 {
    match g {
        TrackingGranule::Coarse => geom.tracking_page_default,
        TrackingGranule::Fine => geom.tracking_page_hot,
    }
}

impl TrackingGranule {
    /// The page size of this granule.
    pub fn page_size(self, geom: PageGeometry) -> (n: u64)
        ensures
            n == granule_size(self, geom),
    {
        match self {
            TrackingGranule::Coarse => geom.tracking_page_default,
            TrackingGranule::Fine => geom.tracking_page_hot,
        }
    }
}

/// Whether `x` is a power of two.
pub open spec fn is_power_of_two(x: int) -> bool {
    exists|k: nat| x == #[trigger] pow2(k)
}

/// The number of pages of `page_size` that a range of `ram_size` bytes takes up; a
/// partial last page counts.
pub open spec fn page_count_of(ram_size: int, page_size: int) -> int {
    (ram_size + page_size - 1) / page_size
}

/// Why a range cannot be tracked, if it cannot.
pub open spec fn config_fault(ram_start: u64, ram_size: u64, page_size: u64) -> Option<Seq<char>> {
    let pages = page_count_of(ram_size as int, page_size as int);
    if !is_power_of_two(page_size as int) {
        Some("page_size must be a power of two: "@ + text::decimal(page_size as nat))
    } else if ram_size == 0 {
        Some("dirty bitmap requires a non-empty RAM range"@)
    } else if ram_start + ram_size > u64::MAX {
        Some(
            "RAM range overflows: start="@ + text::hex_prefixed(ram_start as nat) + ", size="@
                + text::hex_prefixed(ram_size as nat),
        )
    } else if (pages + 63) / 64 > usize::MAX {
        Some(
            "bitmap word count exceeds usize::MAX (page_count="@ + text::decimal(pages as nat)
                + ")"@,
        )
    } else {
        None
    }
}

/// A power of two that fits in 64 bits has an exponent below 64.
proof fn power_fits(x: u64, k: nat)
    requires
        x == pow2(k),
    ensures
        k < 64,
{
    lemma2_to64();
    if k > 64 {
        lemma_pow2_strictly_increases(64, k);
    }
}

/// Whether `x` is a power of two, by its bits.
fn power_of_two(x: u64) -> (b: bool)
    ensures
        b == is_power_of_two(x as int),
{
    proof {
        if x != 0 {
            vstd::std_specs::bits::axiom_u64_trailing_zeros(x);
        }
    }
    if x == 0 {
        proof {
            assert forall|k: nat| x != #[trigger] pow2(k) by {
                lemma_pow2_pos(k);
            }
        }
        return false;
    }
    let t: u32 = x.trailing_zeros();
    let b = x >> t == 1;
    proof {
        let t64 = t as u64;
        if b {
            assert(x == 1u64 << t64) by (bit_vector)
                requires
                    x >> t64 == 1,
                    x << ((64 - t64) as u64) == 0,
                    t64 < 64,
            ;
            vstd::bits::lemma_u64_pow2_no_overflow(t as nat);
            vstd::bits::lemma_u64_shl_is_mul(1, t64);
            assert(x == pow2(t as nat));
        } else if is_power_of_two(x as int) {
            let k = choose|k: nat| x == #[trigger] pow2(k);
            power_fits(x, k);
            let k64 = k as u64;
            vstd::bits::lemma_u64_shl_is_mul(1, k64);
            assert(x == 1u64 << k64);
            assert(t64 == k64 && x >> t64 == 1) by (bit_vector)
                requires
                    x == 1u64 << k64,
                    k64 < 64,
                    t64 < 64,
                    (x >> t64) & 1 == 1,
            ;
        }
    }
    b
}

/// `a / b`, rounded up.
fn div_up(a: u64, b: u64) -> (q: u64)
    requires
        b > 0,
    ensures
        q == page_count_of(a as int, b as int),
{
    let q: u64 = a / b;
    proof {
        lemma_fundamental_div_mod(a as int, b as int);
        lemma_mod_bound(a as int, b as int);
        assert(b * q == q * b) by (nonlinear_arith);
        if a % b == 0 {
            lemma_fundamental_div_mod_converse(a + b - 1, b as int, q as int, b - 1);
        } else {
            assert((q + 1) * b == b * q + b) by (nonlinear_arith);
            lemma_fundamental_div_mod_converse(a + b - 1, b as int, q + 1, a % b - 1);
            assert(q + 1 <= a) by (nonlinear_arith)
                requires
                    a == b * q + a % b,
                    a % b > 0,
                    b >= 1,
                    q >= 0,
            ;
        }
    }
    if a % b == 0 {
        q
    } else {
        q + 1
    }
}

/// A bitmap of the dirty pages of the range `[ram_start, ram_start + ram_size)`.
#[derive(Debug)]
pub struct DirtyBitmap {
    ram_start: u64,
    ram_size: u64,
    page_size: u64,
    page_count: u64,
    words: Vec<u64>,
}

impl DirtyBitmap {
    /// First address of the range.
    pub closed spec fn start(&self) -> u64 {
        self.ram_start
    }

    /// Bytes in the range.
    pub closed spec fn size(&self) -> u64 {
        self.ram_size
    }

    /// Bytes in a page.
    pub closed spec fn page(&self) -> u64 {
        self.page_size
    }

    /// Pages in the range.
    pub open spec fn pages(&self) -> int {
        page_count_of(self.size() as int, self.page() as int)
    }

    /// Whether page `i` is dirty.
    pub closed spec fn dirty(&self, i: int) -> bool {
        0 <= i < self.page_count && bitset::in_set(self.words@, i)
    }

    /// The page that holds `addr`, if the range does.
    pub open spec fn page_of(&self, addr: u64) -> Option<int> {
        if self.start() <= addr < self.start() + self.size() {
            Some((addr - self.start()) / self.page() as int)
        } else {
            None
        }
    }

    /// Whether `addr` lies on a dirty page.
    pub open spec fn addr_dirty(&self, addr: u64) -> bool {
        match self.page_of(addr) {
            Some(p) => self.dirty(p),
            None => false,
        }
    }

    /// The range can be tracked, and the storage has a bit for every page and none set
    /// beyond the last.
    pub closed spec fn wf(&self) -> bool {
        &&& config_fault(self.ram_start, self.ram_size, self.page_size) is None
        &&& self.page_count == self.pages()
        &&& self.page_count <= self.words@.len() * 64 <= u64::MAX + 1
        &&& forall|n: int|
            self.page_count <= n < self.words@.len() * 64 ==> !#[trigger] bitset::in_set(
                self.words@,
                n,
            )
    }

    /// Same range and page size.
    pub open spec fn same_geometry(&self, other: &DirtyBitmap) -> bool {
        self.start() == other.start() && self.size() == other.size() && self.page() == other.page()
    }

    /// What well-formedness says of the geometry.
    pub proof fn wf_facts(&self)
        requires
            self.wf(),
        ensures
            config_fault(self.start(), self.size(), self.page()) is None,
            self.page() > 0,
            self.pages() <= u64::MAX,
            forall|i: int| #[trigger] self.dirty(i) ==> 0 <= i < self.pages(),
            forall|addr: u64| #[trigger] self.page_of(addr) is Some ==> 0 <= self.page_of(addr)->0
                < self.pages(),
    {
        let k = choose|k: nat| self.page_size as int == #[trigger] pow2(k);
        lemma_pow2_pos(k);
        assert forall|addr: u64| #[trigger] self.page_of(addr) is Some implies 0 <= self.page_of(
            addr,
        )->0 < self.pages() by {
            offset_in_pages(addr - self.ram_start, self.ram_size as int, self.page_size as int);
        }
    }

    /// A bitmap without dirty pages over `[ram_start, ram_start + ram_size)`.
    pub fn new(ram_start: u64, ram_size: u64, page_size: u64) -> (r: Result<Self, SnapshotError>)
        ensures
            match r {
                Ok(b) => {
                    &&& config_fault(ram_start, ram_size, page_size) is None
                    &&& b.wf()
                    &&& b.start() == ram_start
                    &&& b.size() == ram_size
                    &&& b.page() == page_size
                    &&& forall|i: int| !#[trigger] b.dirty(i)
                },
                Err(SnapshotError::InvalidPath(why)) => config_fault(
                    ram_start,
                    ram_size,
                    page_size,
                ) == Some(why@),
                Err(_) => false,
            },
    {
        if !power_of_two(page_size) {
            let mut why = String::new();
            why.append("page_size must be a power of two: ");
            push_decimal(&mut why, page_size);
            return Err(SnapshotError::InvalidPath(why));
        }
        if ram_size == 0 {
            let mut why = String::new();
            why.append("dirty bitmap requires a non-empty RAM range");
            assert(why@ =~= "dirty bitmap requires a non-empty RAM range"@);
            return Err(SnapshotError::InvalidPath(why));
        }
        if ram_start.checked_add(ram_size).is_none() {
            let mut why = String::new();
            why.append("RAM range overflows: start=");
            push_hex_prefixed(&mut why, ram_start);
            why.append(", size=");
            push_hex_prefixed(&mut why, ram_size);
            assert(why@ =~= config_fault(ram_start, ram_size, page_size)->0);
            return Err(SnapshotError::InvalidPath(why));
        }
        proof {
            let k = choose|k: nat| page_size as int == #[trigger] pow2(k);
            lemma_pow2_pos(k);
        }
        let page_count: u64 = div_up(ram_size, page_size);
        let word_count: u64 = div_up(page_count, 64);
        if word_count > usize::MAX as u64 {
            let mut why = String::new();
            why.append("bitmap word count exceeds usize::MAX (page_count=");
            push_decimal(&mut why, page_count);
            why.append(")");
            assert(why@ =~= config_fault(ram_start, ram_size, page_size)->0);
            return Err(SnapshotError::InvalidPath(why));
        }
        let words: Vec<u64> = vec![0u64; word_count as usize];
        assert forall|n: int| 0 <= n < words@.len() * 64 implies !#[trigger] bitset::in_set(
            words@,
            n,
        ) by {
            let j = (n % 64) as u64;
            assert((0u64 >> j) & 1 == 0) by (bit_vector);
        }
        proof {
            lemma_page_count_bound(ram_size as int, page_size as int);
        }
        Ok(DirtyBitmap { ram_start, ram_size, page_size, page_count, words })
    }

    /// First address of the range.
    pub fn ram_start(&self) -> (r: u64)
        ensures
            r == self.start(),
    {
        self.ram_start
    }

    /// Bytes in the range.
    pub fn ram_size(&self) -> (r: u64)
        ensures
            r == self.size(),
    {
        self.ram_size
    }

    /// Bytes in a page.
    pub fn page_size(&self) -> (r: u64)
        ensures
            r == self.page(),
    {
        self.page_size
    }

    /// Pages in the range.
    pub fn page_count(&self) -> (r: u64)
        requires
            self.wf(),
        ensures
            r == self.pages(),
    {
        self.page_count
    }

    /// The logarithm of the page size.
    pub fn page_shift(&self) -> (r: u32)
        requires
            self.wf(),
        ensures
            pow2(r as nat) == self.page(),
    {
        let x: u64 = self.page_size;
        let t: u32 = x.trailing_zeros();
        proof {
            let k = choose|k: nat| x as int == #[trigger] pow2(k);
            lemma_pow2_pos(k);
            power_fits(x, k);
            vstd::std_specs::bits::axiom_u64_trailing_zeros(x);
            let t64 = t as u64;
            let k64 = k as u64;
            vstd::bits::lemma_u64_shl_is_mul(1, k64);
            assert(t64 == k64) by (bit_vector)
                requires
                    x == 1u64 << k64,
                    k64 < 64,
                    t64 < 64,
                    (x >> t64) & 1 == 1,
            ;
        }
        t
    }

    /// The page that holds `addr`; `None` outside the range.
    pub fn page_index_of(&self, addr: u64) -> (r: Option<u64>)
        requires
            self.wf(),
        ensures
            match r {
                Some(p) => self.page_of(addr) == Some(p as int) && p < self.pages(),
                None => self.page_of(addr) is None,
            },
    {
        proof {
            self.wf_facts();
        }
        if addr < self.ram_start {
            return None;
        }
        let offset: u64 = addr - self.ram_start;
        if offset >= self.ram_size {
            return None;
        }
        assert(self.page_of(addr) is Some);
        Some(offset / self.page_size)
    }

    /// Marks the page that holds `addr` dirty. Gives whether it was clean.
    pub fn set_dirty(&mut self, addr: u64) -> (r: bool)
        requires
            old(self).wf(),
        ensures
            final(self).wf(),
            final(self).same_geometry(old(self)),
            r == (old(self).page_of(addr) is Some && !old(self).addr_dirty(addr)),
            forall|i: int| #[trigger]
                final(self).dirty(i) == (old(self).dirty(i) || old(self).page_of(addr) == Some(i)),
    {
        match self.page_index_of(addr) {
            Some(page) => self.set_dirty_by_index(page),
            None => false,
        }
    }

    /// Marks page `page` dirty. Gives whether it was clean; a page beyond the last is
    /// ignored.
    pub fn set_dirty_by_index(&mut self, page: u64) -> (r: bool)
        requires
            old(self).wf(),
        ensures
            final(self).wf(),
            final(self).same_geometry(old(self)),
            r == (page < old(self).pages() && !old(self).dirty(page as int)),
            forall|i: int| #[trigger]
                final(self).dirty(i) == (old(self).dirty(i) || (i == page && page < old(
                    self,
                ).pages())),
    {
        if page >= self.page_count {
            return false;
        }
        bitset::insert(&mut self.words, page)
    }

    /// Whether `addr` lies on a dirty page.
    pub fn is_dirty(&self, addr: u64) -> (r: bool)
        requires
            self.wf(),
        ensures
            r == self.addr_dirty(addr),
    {
        match self.page_index_of(addr) {
            Some(page) => self.is_dirty_by_index(page),
            None => false,
        }
    }

    /// Whether page `page` is dirty.
    pub fn is_dirty_by_index(&self, page: u64) -> (r: bool)
        requires
            self.wf(),
        ensures
            r == self.dirty(page as int),
    {
        if page >= self.page_count {
            return false;
        }
        bitset::contains(&self.words, page)
    }

    /// Takes all dirty pages, in rising order; afterwards every page is clean.
    pub fn drain(&mut self) -> (pages: Vec<u64>)
        requires
            old(self).wf(),
        ensures
            final(self).wf(),
            final(self).same_geometry(old(self)),
            forall|i: int| !#[trigger] final(self).dirty(i),
            forall|a: int, b: int| 0 <= a < b < pages@.len() ==> pages@[a] < pages@[b],
            forall|p: u64| #[trigger] pages@.contains(p) <==> old(self).dirty(p as int),
    {
        let pages: Vec<u64> = bitset::drain(&mut self.words);
        proof {
            assert forall|p: u64| #[trigger] pages@.contains(p) <==> old(self).dirty(p as int) by {
                if pages@.contains(p) {
                    let a = choose|a: int| 0 <= a < pages@.len() && pages@[a] == p;
                    assert(bitset::in_set(old(self).words@, pages@[a] as int));
                }
            }
        }
        pages
    }

    /// Hands every dirty page to `callback`, once each and in rising order; afterwards
    /// every page is clean. No clean page is handed over, so `callback` need be ready for the
    /// dirty ones only.
    pub fn drain_into<F: FnMut(u64)>(&mut self, mut callback: F)
        requires
            old(self).wf(),
            forall|p: u64| #[trigger] old(self).dirty(p as int) ==> call_requires(callback, (p,)),
        ensures
            final(self).wf(),
            final(self).same_geometry(old(self)),
            forall|i: int| !#[trigger] final(self).dirty(i),
            forall|p: u64| #[trigger]
                old(self).dirty(p as int) ==> call_ensures(callback, (p,), ()),
    {
        let pages: Vec<u64> = self.drain();
        let ghost handler = callback;
        assert forall|a: int| 0 <= a < pages@.len() implies call_requires(
            callback,
            (#[trigger] pages@[a],),
        ) by {
            assert(pages@.contains(pages@[a]));
        }
        let mut k: usize = 0;
        while k < pages.len()
            invariant
                k <= pages@.len(),
                callback == handler,
                forall|a: int|
                    0 <= a < pages@.len() ==> call_requires(callback, (#[trigger] pages@[a],)),
                forall|a: int| 0 <= a < k ==> call_ensures(callback, (#[trigger] pages@[a],), ()),
            decreases pages@.len() - k,
        {
            callback(pages[k]);
            k = k + 1;
        }
        assert forall|p: u64| #[trigger] old(self).dirty(p as int) implies call_ensures(
            callback,
            (p,),
            (),
        ) by {
            assert(pages@.contains(p));
        }
    }
}

/// Why the dirty pages of one bitmap cannot be carried over to another, if they cannot.
pub open spec fn fold_fault(coarse: &DirtyBitmap, fine: &DirtyBitmap) -> Option<Seq<char>> {
    if fine.start() != coarse.start() || fine.size() != coarse.size() {
        Some("fold_into_finer requires identical ranges"@)
    } else if fine.page() >= coarse.page() {
        Some("fold_into_finer expects a strictly smaller page size"@)
    } else if coarse.page() % fine.page() != 0 {
        Some("coarse page must be a multiple of fine page"@)
    } else {
        None
    }
}

impl DirtyBitmap {
    /// Marks, in a bitmap of the same range with smaller pages, every page that lies in
    /// a dirty page of this one.
    pub fn fold_into_finer(&self, fine: &mut DirtyBitmap) -> (r: Result<(), SnapshotError>)
        requires
            self.wf(),
            old(fine).wf(),
        ensures
            final(fine).wf(),
            final(fine).same_geometry(old(fine)),
            match r {
                Ok(()) => fold_fault(self, old(fine)) is None && forall|p: int|
                    0 <= p < old(fine).pages() ==> #[trigger] final(fine).dirty(p) == (old(
                        fine,
                    ).dirty(p) || self.dirty(p / (self.page() / old(fine).page()) as int)),
                Err(SnapshotError::InvalidPath(why)) => *final(fine) == *old(fine) && fold_fault(
                    self,
                    old(fine),
                ) == Some(why@),
                Err(_) => false,
            },
    {
        proof {
            self.wf_facts();
            fine.wf_facts();
        }
        if fine.ram_start != self.ram_start || fine.ram_size != self.ram_size {
            let mut why = String::new();
            why.append("fold_into_finer requires identical ranges");
            assert(why@ =~= "fold_into_finer requires identical ranges"@);
            return Err(SnapshotError::InvalidPath(why));
        }
        if fine.page_size >= self.page_size {
            let mut why = String::new();
            why.append("fold_into_finer expects a strictly smaller page size");
            assert(why@ =~= "fold_into_finer expects a strictly smaller page size"@);
            return Err(SnapshotError::InvalidPath(why));
        }
        if self.page_size % fine.page_size != 0 {
            let mut why = String::new();
            why.append("coarse page must be a multiple of fine page");
            assert(why@ =~= "coarse page must be a multiple of fine page"@);
            return Err(SnapshotError::InvalidPath(why));
        }
        let ratio: u64 = self.page_size / fine.page_size;
        proof {
            lemma_fundamental_div_mod(self.page_size as int, fine.page_size as int);
            assert(ratio >= 1) by (nonlinear_arith)
                requires
                    self.page_size == fine.page_size * ratio,
                    self.page_size > 0,
            ;
        }
        let ghost before = *fine;
        let mut coarse: u64 = 0;
        while coarse < self.page_count
            invariant
                self.wf(),
                fine.wf(),
                fine.same_geometry(&before),
                self.page_size > 0,
                before.page_size > 0,
                before.start() == self.ram_start,
                before.size() == self.ram_size,
                self.page_size == before.page_size * ratio,
                ratio >= 1,
                coarse <= self.page_count,
                forall|p: int|
                    0 <= p < before.pages() ==> #[trigger] fine.dirty(p) == (before.dirty(p) || (p
                        / ratio as int) < coarse && self.dirty(p / ratio as int)),
            decreases self.page_count - coarse,
        {
            if self.is_dirty_by_index(coarse) {
                proof {
                    coarse_page_start(
                        coarse as int,
                        self.ram_size as int,
                        self.page_size as int,
                        before.page_size as int,
                        ratio as int,
                    );
                    fine.wf_facts();
                }
                let fine_count: u64 = fine.page_count;
                let start: u64 = coarse * ratio;
                let end: u64 = if fine_count - start < ratio {
                    fine_count
                } else {
                    start + ratio
                };
                let mut p: u64 = start;
                let ghost middle = *fine;
                while p < end
                    invariant
                        fine.wf(),
                        fine.same_geometry(&before),
                        fine_count == before.pages(),
                        start <= p <= end <= fine_count,
                        forall|q: int| #[trigger]
                            fine.dirty(q) == (middle.dirty(q) || start <= q < p),
                    decreases end - p,
                {
                    let _ = fine.set_dirty_by_index(p);
                    p = p + 1;
                }
                proof {
                    assert forall|q: int| 0 <= q < before.pages() implies #[trigger] fine.dirty(q)
                        == (before.dirty(q) || (q / ratio as int) < coarse + 1 && self.dirty(
                        q / ratio as int,
                    )) by {
                        in_block(q, coarse as int, ratio as int);
                        assert(middle.dirty(q) == (before.dirty(q) || (q / ratio as int) < coarse
                            && self.dirty(q / ratio as int)));
                    }
                }
            }
            coarse = coarse + 1;
        }
        proof {
            assert forall|p: int| 0 <= p < before.pages() implies #[trigger] fine.dirty(p) == (
            before.dirty(p) || self.dirty(p / ratio as int)) by {
                self.wf_facts();
                assert(self.dirty(p / ratio as int) ==> p / (ratio as int) < self.pages());
            }
        }
        Ok(())
    }
}

/// The numbers that divide to `block` are those of the block's run.
proof fn in_block(q: int, block: int, ratio: int)
    requires
        ratio >= 1,
    ensures
        q / ratio == block <==> block * ratio <= q < block * ratio + ratio,
{
    if block * ratio <= q < block * ratio + ratio {
        lemma_fundamental_div_mod_converse(q, ratio, block, q - block * ratio);
    }
    if q / ratio == block {
        lemma_fundamental_div_mod(q, ratio);
        lemma_mod_bound(q, ratio);
        assert(ratio * block == block * ratio) by (nonlinear_arith);
    }
}

/// The first fine page of a coarse page lies in the range.
proof fn coarse_page_start(coarse: int, ram_size: int, page_size: int, fine_size: int, ratio: int)
    requires
        0 <= coarse < page_count_of(ram_size, page_size),
        ram_size > 0,
        page_size > 0,
        fine_size > 0,
        ratio >= 1,
        page_size == fine_size * ratio,
    ensures
        0 <= coarse * ratio < page_count_of(ram_size, fine_size),
{
    let n = page_count_of(ram_size, page_size);
    lemma_fundamental_div_mod(ram_size + page_size - 1, page_size);
    lemma_mod_bound(ram_size + page_size - 1, page_size);
    assert(coarse * page_size < ram_size) by (nonlinear_arith)
        requires
            0 <= coarse < n,
            page_size * n + (ram_size + page_size - 1) % page_size == ram_size + page_size - 1,
            0 <= (ram_size + page_size - 1) % page_size < page_size,
            page_size > 0,
    ;
    assert(coarse * page_size == (coarse * ratio) * fine_size && coarse * ratio >= 0)
        by (nonlinear_arith)
        requires
            page_size == fine_size * ratio,
            coarse >= 0,
            ratio >= 1,
    ;
    let offset = (coarse * ratio) * fine_size;
    assert(offset >= 0) by (nonlinear_arith)
        requires
            offset == (coarse * ratio) * fine_size,
            coarse * ratio >= 0,
            fine_size > 0,
    ;
    offset_in_pages(offset, ram_size, fine_size);
    lemma_fundamental_div_mod_converse(offset, fine_size, coarse * ratio, 0);
}

/// A page count never exceeds the byte count, and a nonempty range has a page.
pub proof fn lemma_page_count_bound(ram_size: int, page_size: int)
    requires
        ram_size > 0,
        page_size > 0,
    ensures
        1 <= page_count_of(ram_size, page_size) <= ram_size,
{
    let n = page_count_of(ram_size, page_size);
    lemma_fundamental_div_mod(ram_size + page_size - 1, page_size);
    lemma_mod_bound(ram_size + page_size - 1, page_size);
    assert(1 <= n <= ram_size) by (nonlinear_arith)
        requires
            page_size * n + (ram_size + page_size - 1) % page_size == ram_size + page_size - 1,
            0 <= (ram_size + page_size - 1) % page_size < page_size,
            ram_size > 0,
            page_size > 0,
    ;
}

/// An offset inside the range falls on one of its pages.
pub proof fn offset_in_pages(offset: int, ram_size: int, page_size: int)
    requires
        0 <= offset < ram_size,
        page_size > 0,
    ensures
        0 <= offset / page_size < page_count_of(ram_size, page_size),
{
    let p = offset / page_size;
    let n = page_count_of(ram_size, page_size);
    lemma_fundamental_div_mod(offset, page_size);
    lemma_mod_bound(offset, page_size);
    lemma_fundamental_div_mod(ram_size + page_size - 1, page_size);
    lemma_mod_bound(ram_size + page_size - 1, page_size);
    assert(0 <= p < n) by (nonlinear_arith)
        requires
            page_size * p + offset % page_size == offset,
            0 <= offset % page_size < page_size,
            page_size * n + (ram_size + page_size - 1) % page_size == ram_size + page_size - 1,
            0 <= (ram_size + page_size - 1) % page_size < page_size,
            0 <= offset < ram_size,
            page_size > 0,
    ;
}

/// The state of the rule that moves a range from coarse to fine pages.
#[verifier::ext_equal]
pub struct ControllerView {
    pub threshold: u32,
    /// Faults of each coarse block in the current window.
    pub faults: Seq<u32>,
    /// When the current window began, in nanoseconds.
    pub window_start: u64,
    pub granule: TrackingGranule,
}

/// Whether some single block had more faults than the threshold allows.
pub open spec fn some_block_hot(c: ControllerView) -> bool {
    exists|i: int| 0 <= i < c.faults.len() && #[trigger] c.faults[i] > c.threshold
}

/// Whether the current window is still running at time `now`.
pub open spec fn window_open(c: ControllerView, now: u64) -> bool {
    now - c.window_start < ADAPTIVE_WINDOW_NS
}

/// One look at the counters at time `now`: at the end of a window they start over, and a
/// range with a hot block becomes fine. Nothing makes it coarse again.
pub open spec fn ticked(c: ControllerView, now: u64) -> ControllerView {
    if window_open(c, now) {
        c
    } else {
        ControllerView {
            threshold: c.threshold,
            faults: Seq::new(c.faults.len(), |i: int| 0u32),
            window_start: now,
            granule: if some_block_hot(c) {
                TrackingGranule::Fine
            } else {
                c.granule
            },
        }
    }
}

/// One more fault on block `block`; a block that does not exist is ignored.
pub open spec fn faulted(c: ControllerView, block: int) -> ControllerView {
    if 0 <= block < c.faults.len() {
        ControllerView {
            faults: c.faults.update(block, ((c.faults[block] + 1) % 0x1_0000_0000) as u32),
            ..c
        }
    } else {
        c
    }
}

/// Counts the faults of each coarse block and decides when the range becomes fine.
#[derive(Debug)]
pub struct AdaptiveController {
    threshold: u32,
    block_faults: Vec<u32>,
    last_reset: u64,
    granule: TrackingGranule,
    clock: Clock,
}

impl View for AdaptiveController {
    type V = ControllerView;

    closed spec fn view(&self) -> ControllerView {
        ControllerView {
            threshold: self.threshold,
            faults: self.block_faults@,
            window_start: self.last_reset,
            granule: self.granule,
        }
    }
}

/// A controller that has counted nothing.
pub open spec fn fresh_controller(block_count: u64, threshold: u32, now: u64) -> ControllerView {
    ControllerView {
        threshold,
        faults: Seq::new(
            if block_count > usize::MAX {
                usize::MAX as nat
            } else {
                block_count as nat
            },
            |i: int| 0u32,
        ),
        window_start: now,
        granule: TrackingGranule::Coarse,
    }
}

impl AdaptiveController {
    /// A controller for `block_count` coarse blocks with the default threshold.
    pub fn new(block_count: u64) -> (c: Self)
        ensures
            c@ == fresh_controller(block_count, DEFAULT_STEP_DOWN_THRESHOLD, c@.window_start),
            c@.threshold == 32,
    {
        AdaptiveController::with_threshold(block_count, DEFAULT_STEP_DOWN_THRESHOLD)
    }

    /// A controller for `block_count` coarse blocks.
    pub fn with_threshold(block_count: u64, threshold: u32) -> (c: Self)
        ensures
            c@ == fresh_controller(block_count, threshold, c@.window_start),
    {
        let len: usize = if block_count > usize::MAX as u64 {
            usize::MAX
        } else {
            block_count as usize
        };
        let clock = Clock::start();
        let last_reset: u64 = clock.now_ns();
        let c = AdaptiveController {
            threshold,
            block_faults: vec![0u32; len],
            last_reset,
            granule: TrackingGranule::Coarse,
            clock,
        };
        assert(c@ =~= fresh_controller(block_count, threshold, c@.window_start));
        c
    }

    /// The active granule.
    pub fn granule(&self) -> (g: TrackingGranule)
        ensures
            g == self@.granule,
    {
        self.granule
    }

    /// Counts a fault of a coarse block.
    pub fn record_fault(&mut self, block_idx: u64)
        ensures
            final(self)@ == faulted(old(self)@, block_idx as int),
    {
        if block_idx < self.block_faults.len() as u64 {
            let idx: usize = block_idx as usize;
            let count: u32 = self.block_faults[idx];
            self.block_faults[idx] = count.wrapping_add(1);
        }
        assert(self@ =~= faulted(old(self)@, block_idx as int));
    }

    /// Looks at the counters at time `now` of the controller's clock.
    pub fn tick_at(&mut self, now: u64) -> (g: TrackingGranule)
        ensures
            final(self)@ == ticked(old(self)@, now),
            g == final(self)@.granule,
    {
        if now.saturating_sub(self.last_reset) < ADAPTIVE_WINDOW_NS {
            return self.granule;
        }
        let ghost before = self@;
        let mut max_in_window: u32 = 0;
        let mut i: usize = 0;
        while i < self.block_faults.len()
            invariant
                i <= self.block_faults@.len(),
                self.block_faults@.len() == before.faults.len(),
                self.threshold == before.threshold,
                self.granule == before.granule,
                forall|k: int| 0 <= k < i ==> self.block_faults@[k] == 0,
                forall|k: int| i <= k < before.faults.len() ==> self.block_faults@[k] == before.faults[k],
                forall|k: int| 0 <= k < i ==> before.faults[k] <= max_in_window,
                max_in_window == 0 || (exists|k: int|
                    0 <= k < i && before.faults[k] == max_in_window),
            decreases self.block_faults@.len() - i,
        {
            let count: u32 = self.block_faults[i];
            self.block_faults[i] = 0;
            if count > max_in_window {
                max_in_window = count;
                assert(before.faults[i as int] == max_in_window);
            }
            i = i + 1;
        }
        self.last_reset = now;
        if max_in_window > self.threshold && self.granule == TrackingGranule::Coarse {
            self.granule = TrackingGranule::Fine;
        }
        proof {
            assert(some_block_hot(before) == (max_in_window > before.threshold));
            assert(self@ =~= ticked(before, now));
        }
        self.granule
    }

    /// Looks at the counters now.
    pub fn tick(&mut self) -> (g: TrackingGranule)
        ensures
            exists|now: u64| final(self)@ == ticked(old(self)@, now),
            g == final(self)@.granule,
    {
        let now: u64 = self.clock.now_ns();
        self.tick_at(now)
    }
}

impl Default for AdaptiveController {
    fn default() -> (c: Self)
        ensures
            c@ == fresh_controller(1, DEFAULT_STEP_DOWN_THRESHOLD, c@.window_start),
            c@.threshold == 32,
    {
        AdaptiveController::new(1)
    }
}

/// A range of guest memory under dirty tracking: the bitmap and the rule that refines it.
#[derive(Debug)]
pub struct TrackedRegion {
    bitmap: DirtyBitmap,
    controller: AdaptiveController,
    geometry: PageGeometry,
}

/// Whether a range tracked with `page` moves to fine pages of `target`.
pub open spec fn refines(start: u64, size: u64, page: u64, target: u64) -> bool {
    target != page && config_fault(start, size, target) is None && target < page && page % target
        == 0
}

impl TrackedRegion {
    /// The bitmap of the range.
    pub closed spec fn map(&self) -> DirtyBitmap {
        self.bitmap
    }

    /// The rule that refines the bitmap.
    pub closed spec fn control(&self) -> ControllerView {
        self.controller@
    }

    /// The page sizes.
    pub closed spec fn geom(&self) -> PageGeometry {
        self.geometry
    }

    /// The bitmap is well-formed and the coarse page size is not zero.
    pub closed spec fn wf(&self) -> bool {
        self.bitmap.wf() && self.geometry.tracking_page_default > 0
    }

    /// A range under coarse tracking, with the default threshold.
    pub fn new(ram_start: u64, ram_size: u64, geometry: PageGeometry) -> (r: Result<
        Self,
        SnapshotError,
    >)
        ensures
            region_made(r, ram_start, ram_size, geometry, DEFAULT_STEP_DOWN_THRESHOLD),
            r is Ok ==> r->Ok_0.control().threshold == 32,
    {
        TrackedRegion::with_threshold(ram_start, ram_size, geometry, DEFAULT_STEP_DOWN_THRESHOLD)
    }

    /// A range under coarse tracking.
    pub fn with_threshold(
        ram_start: u64,
        ram_size: u64,
        geometry: PageGeometry,
        threshold: u32,
    ) -> (r: Result<Self, SnapshotError>)
        ensures
            region_made(r, ram_start, ram_size, geometry, threshold),
    {
        match DirtyBitmap::new(ram_start, ram_size, geometry.tracking_page_default) {
            Ok(bitmap) => {
                proof {
                    bitmap.wf_facts();
                }
                let block_count: u64 = bitmap.page_count();
                Ok(
                    TrackedRegion {
                        bitmap,
                        controller: AdaptiveController::with_threshold(block_count, threshold),
                        geometry,
                    },
                )
            },
            Err(e) => Err(e),
        }
    }

    /// The bitmap of the range.
    pub fn bitmap(&self) -> (b: &DirtyBitmap)
        ensures
            *b == self.map(),
            self.wf() ==> b.wf(),
    {
        &self.bitmap
    }

    /// The active granule.
    pub fn granule(&self) -> (g: TrackingGranule)
        ensures
            g == self.control().granule,
    {
        self.controller.granule()
    }

    /// Marks the page that holds `addr` dirty and counts a fault of its coarse block.
    /// Gives whether the page was clean.
    pub fn mark_dirty(&mut self, addr: u64) -> (r: bool)
        requires
            old(self).wf(),
        ensures
            final(self).wf(),
            final(self).geom() == old(self).geom(),
            final(self).map().wf(),
            final(self).map().same_geometry(&old(self).map()),
            r == (old(self).map().page_of(addr) is Some && !old(self).map().addr_dirty(addr)),
            forall|i: int| #[trigger]
                final(self).map().dirty(i) == (old(self).map().dirty(i) || old(
                    self,
                ).map().page_of(addr) == Some(i)),
            final(self).control() == if addr >= old(self).map().start() {
                faulted(
                    old(self).control(),
                    (addr - old(self).map().start()) / old(
                        self,
                    ).geom().tracking_page_default as int,
                )
            } else {
                old(self).control()
            },
    {
        let start: u64 = self.bitmap.ram_start();
        if addr >= start {
            let block: u64 = (addr - start) / self.geometry.tracking_page_default;
            self.controller.record_fault(block);
        }
        self.bitmap.set_dirty(addr)
    }

    /// Looks at the counters at time `now` and refines the bitmap when the range has
    /// become fine. Every address that was dirty stays dirty.
    pub fn tick_adaptive_at(&mut self, now: u64) -> (g: TrackingGranule)
        requires
            old(self).wf(),
        ensures
            region_ticked(old(self), final(self), now),
            g == final(self).control().granule,
    {
        proof {
            self.bitmap.wf_facts();
        }
        let new_granule: TrackingGranule = self.controller.tick_at(now);
        let active_size: u64 = self.bitmap.page_size();
        let target_size: u64 = new_granule.page_size(self.geometry);
        if target_size != active_size {
            match DirtyBitmap::new(self.bitmap.ram_start(), self.bitmap.ram_size(), target_size) {
                Ok(mut fine) => {
                    match self.bitmap.fold_into_finer(&mut fine) {
                        Ok(()) => {
                            proof {
                                fine.wf_facts();
                                refinement_keeps_addresses(&self.bitmap, &fine);
                            }
                            self.bitmap = fine;
                        },
                        Err(_) => {},
                    }
                },
                Err(_) => {
                    return self.controller.granule();
                },
            }
        }
        new_granule
    }

    /// Looks at the counters now and refines the bitmap when the range has become fine.
    pub fn tick_adaptive(&mut self) -> (g: TrackingGranule)
        requires
            old(self).wf(),
        ensures
            exists|now: u64| region_ticked(old(self), final(self), now),
            g == final(self).control().granule,
    {
        let now: u64 = self.controller.clock.now_ns();
        self.tick_adaptive_at(now)
    }
}

/// What making a tracked range gives.
pub open spec fn region_made(
    r: Result<TrackedRegion, SnapshotError>,
    ram_start: u64,
    ram_size: u64,
    geometry: PageGeometry,
    threshold: u32,
) -> bool {
    match r {
        Ok(t) => {
            &&& config_fault(ram_start, ram_size, geometry.tracking_page_default) is None
            &&& t.wf()
            &&& t.map().wf()
            &&& t.geom() == geometry
            &&& t.map().start() == ram_start
            &&& t.map().size() == ram_size
            &&& t.map().page() == geometry.tracking_page_default
            &&& forall|i: int| !#[trigger] t.map().dirty(i)
            &&& t.control() == fresh_controller(
                t.map().pages() as u64,
                threshold,
                t.control().window_start,
            )
        },
        Err(SnapshotError::InvalidPath(why)) => config_fault(
            ram_start,
            ram_size,
            geometry.tracking_page_default,
        ) == Some(why@),
        Err(_) => false,
    }
}

/// What a look at the counters at time `now` does to a tracked range.
pub open spec fn region_ticked(before: &TrackedRegion, after: &TrackedRegion, now: u64) -> bool {
    let target = granule_size(after.control().granule, before.geom());
    let old_map = before.map();
    let new_map = after.map();
    &&& after.wf()
    &&& new_map.wf()
    &&& after.geom() == before.geom()
    &&& after.control() == ticked(before.control(), now)
    &&& new_map.start() == old_map.start()
    &&& new_map.size() == old_map.size()
    &&& if refines(old_map.start(), old_map.size(), old_map.page(), target) {
        &&& new_map.page() == target
        &&& forall|p: int|
            0 <= p < new_map.pages() ==> #[trigger] new_map.dirty(p) == old_map.dirty(
                p / (old_map.page() / target) as int,
            )
    } else {
        new_map == old_map
    }
    &&& forall|addr: u64| #[trigger] new_map.addr_dirty(addr) == old_map.addr_dirty(addr)
}

/// Carrying dirty pages over to smaller pages keeps every address dirty or clean.
pub proof fn refinement_keeps_addresses(coarse: &DirtyBitmap, fine: &DirtyBitmap)
    requires
        coarse.wf(),
        fine.wf(),
        fold_fault(coarse, fine) is None,
        forall|p: int|
            0 <= p < fine.pages() ==> #[trigger] fine.dirty(p) == coarse.dirty(
                p / (coarse.page() / fine.page()) as int,
            ),
    ensures
        forall|addr: u64| #[trigger] fine.addr_dirty(addr) == coarse.addr_dirty(addr),
{
    coarse.wf_facts();
    fine.wf_facts();
    let ratio = (coarse.page() / fine.page()) as int;
    lemma_fundamental_div_mod(coarse.page() as int, fine.page() as int);
    assert(ratio >= 1) by (nonlinear_arith)
        requires
            coarse.page() == fine.page() * ratio,
            coarse.page() > 0,
            fine.page() > 0,
    ;
    assert forall|addr: u64| #[trigger] fine.addr_dirty(addr) == coarse.addr_dirty(addr) by {
        if fine.page_of(addr) is Some {
            let offset = addr - fine.start();
            lemma_div_denominator(offset, fine.page() as int, ratio);
            assert(fine.dirty(offset / fine.page() as int) == coarse.dirty(
                offset / fine.page() as int / ratio,
            ));
        }
    }
}

/// A range that has become fine stays fine, however its counters go on.
pub proof fn step_down_is_one_way(c: ControllerView, now: u64)
    requires
        c.granule == TrackingGranule::Fine,
    ensures
        ticked(c, now).granule == TrackingGranule::Fine,
{
}

/// Faults spread over many blocks never refine a range, however many they are in all: a
/// range without a single hot block keeps its granule.
pub proof fn spread_faults_do_not_refine(c: ControllerView, now: u64)
    requires
        forall|i: int| 0 <= i < c.faults.len() ==> #[trigger] c.faults[i] <= c.threshold,
    ensures
        ticked(c, now).granule == c.granule,
{
}

/// A look inside the window changes nothing; a second look at the same time changes
/// nothing more.
pub proof fn tick_is_idempotent(c: ControllerView, now: u64)
    ensures
        window_open(c, now) ==> ticked(c, now) == c,
        ticked(ticked(c, now), now) == ticked(c, now),
{
}

/// The page of an address is the one whose bytes it lies among; an address outside the range
/// has none.
pub proof fn pages_hold_their_addresses(b: &DirtyBitmap, addr: u64)
    requires
        b.page() > 0,
    ensures
        b.page_of(addr) is None <==> addr < b.start() || addr >= b.start() + b.size(),
        b.page_of(addr) matches Some(p) ==> b.start() + p * b.page() <= addr < b.start() + (p + 1)
            * b.page(),
{
    if let Some(p) = b.page_of(addr) {
        let off = addr - b.start();
        let page = b.page() as int;
        lemma_fundamental_div_mod(off, page);
        lemma_mod_bound(off, page);
        assert(p * page <= off < (p + 1) * page) by (nonlinear_arith)
            requires
                off == page * p + off % page,
                0 <= off % page < page,
        ;
    }
}

/// The pages of a range are just enough for its bytes.
pub proof fn pages_are_just_enough(ram_size: int, page_size: int)
    requires
        ram_size > 0,
        page_size > 0,
    ensures
        (page_count_of(ram_size, page_size) - 1) * page_size < ram_size,
        ram_size <= page_count_of(ram_size, page_size) * page_size,
{
    let n = page_count_of(ram_size, page_size);
    lemma_fundamental_div_mod(ram_size + page_size - 1, page_size);
    lemma_mod_bound(ram_size + page_size - 1, page_size);
    assert((n - 1) * page_size < ram_size && ram_size <= n * page_size) by (nonlinear_arith)
        requires
            ram_size + page_size - 1 == page_size * n + (ram_size + page_size - 1) % page_size,
            0 <= (ram_size + page_size - 1) % page_size < page_size,
    ;
}

/// Which ranges can be tracked: those that are not empty and end within the address space,
/// in pages of a power of two, with no more bits than can be held.
pub proof fn ranges_that_can_be_tracked(ram_start: u64, ram_size: u64, page_size: u64)
    ensures
        config_fault(ram_start, ram_size, page_size) is None <==> {
            &&& exists|k: nat| page_size as int == #[trigger] pow2(k)
            &&& ram_size > 0
            &&& ram_start + ram_size <= u64::MAX
            &&& (page_count_of(ram_size as int, page_size as int) + 63) / 64 <= usize::MAX
        },
        (forall|k: nat| page_size as int != #[trigger] pow2(k)) ==> config_fault(
            ram_start,
            ram_size,
            page_size,
        ) == Some("page_size must be a power of two: "@ + text::decimal(page_size as nat)),
        (exists|k: nat| page_size as int == #[trigger] pow2(k)) && ram_size == 0 ==> config_fault(
            ram_start,
            ram_size,
            page_size,
        ) == Some("dirty bitmap requires a non-empty RAM range"@),
        (exists|k: nat| page_size as int == #[trigger] pow2(k)) && ram_size > 0 && ram_start
            + ram_size > 0xFFFF_FFFF_FFFF_FFFF ==> config_fault(ram_start, ram_size, page_size)
            == Some(
            "RAM range overflows: start="@ + text::hex_prefixed(ram_start as nat) + ", size="@
                + text::hex_prefixed(ram_size as nat),
        ),
{
}

/// After a window of a tenth of a second all counters start over, and a range with a block
/// that had more faults than the threshold becomes fine; before that nothing happens.
pub proof fn hot_blocks_refine(c: ControllerView, now: u64, block: int)
    ensures
        now < c.window_start + 100_000_000 ==> ticked(c, now) == c,
        now >= c.window_start + 100_000_000 ==> {
            let t = ticked(c, now);
            &&& t.threshold == c.threshold
            &&& t.window_start == now
            &&& t.faults.len() == c.faults.len()
            &&& forall|i: int| 0 <= i < t.faults.len() ==> #[trigger] t.faults[i] == 0
            &&& t.granule != c.granule ==> exists|i: int|
                0 <= i < c.faults.len() && #[trigger] c.faults[i] > c.threshold
            &&& 0 <= block < c.faults.len() && c.faults[block] > c.threshold ==> t.granule
                == TrackingGranule::Fine
        },
{
}

/// A fault is counted once, on its own block.
pub proof fn faults_count_on_their_block(c: ControllerView, block: int, other: int)
    requires
        0 <= other < c.faults.len(),
    ensures
        ({
            let t = faulted(c, block);
            &&& t.threshold == c.threshold && t.window_start == c.window_start && t.granule
                == c.granule
            &&& t.faults.len() == c.faults.len()
            &&& other != block ==> t.faults[other] == c.faults[other]
            &&& other == block && c.faults[block] < u32::MAX ==> t.faults[block] == c.faults[block]
                + 1
        }),
{
}

/// A controller starts coarse with no faults on any of its blocks.
pub proof fn controllers_start_coarse(block_count: u64, threshold: u32, now: u64, i: int)
    requires
        block_count <= usize::MAX,
    ensures
        ({
            let c = fresh_controller(block_count, threshold, now);
            &&& c.threshold == threshold
            &&& c.window_start == now
            &&& c.granule == TrackingGranule::Coarse
            &&& c.faults.len() == block_count
            &&& 0 <= i < block_count ==> c.faults[i] == 0
        }),
{
}

/// A range moves to smaller pages exactly if they are smaller, fit into the larger ones and
/// can be tracked.
pub proof fn ranges_that_refine(start: u64, size: u64, page: u64, target: u64)
    ensures
        refines(start, size, page, target) <==> target < page && page % target == 0
            && config_fault(start, size, target) is None,
        granule_size(
            TrackingGranule::Coarse,
            PageGeometry { tracking_page_default: page, tracking_page_hot: target, ..arbitrary() },
        ) == page,
        granule_size(
            TrackingGranule::Fine,
            PageGeometry { tracking_page_default: page, tracking_page_hot: target, ..arbitrary() },
        ) == target,
{
}

/// One bitmap can be carried over to another exactly if they cover the same range and the
/// pages of the other are smaller and fit into those of the first.
pub proof fn bitmaps_that_can_be_carried_over(coarse: &DirtyBitmap, fine: &DirtyBitmap)
    ensures
        fold_fault(coarse, fine) is None <==> {
            &&& fine.start() == coarse.start()
            &&& fine.size() == coarse.size()
            &&& fine.page() < coarse.page()
            &&& coarse.page() % fine.page() == 0
        },
        fine.start() != coarse.start() || fine.size() != coarse.size() ==> fold_fault(coarse, fine)
            == Some("fold_into_finer requires identical ranges"@),
        fine.start() == coarse.start() && fine.size() == coarse.size() && fine.page()
            >= coarse.page() ==> fold_fault(coarse, fine) == Some(
            "fold_into_finer expects a strictly smaller page size"@,
        ),
{
}

/// A range is tracked from clean, in coarse pages, exactly if it can be tracked in them.
pub proof fn tracking_starts_clean_and_coarse(
    r: Result<TrackedRegion, SnapshotError>,
    ram_start: u64,
    ram_size: u64,
    geometry: PageGeometry,
    threshold: u32,
    addr: u64,
)
    requires
        region_made(r, ram_start, ram_size, geometry, threshold),
    ensures
        r is Ok <==> config_fault(ram_start, ram_size, geometry.tracking_page_default) is None,
        r is Ok ==> {
            let t = r->Ok_0;
            &&& t.map().start() == ram_start && t.map().size() == ram_size
            &&& t.map().page() == geometry.tracking_page_default
            &&& !t.map().addr_dirty(addr)
            &&& t.control().granule == TrackingGranule::Coarse
            &&& t.control().threshold == threshold
        },
{
}

/// A look at the counters never changes which addresses are dirty nor makes pages larger;
/// once the range is fine it moves to fine pages if they fit, and else keeps its own.
pub proof fn fine_ranges_get_fine_pages(before: &TrackedRegion, after: &TrackedRegion, now: u64)
    requires
        region_ticked(before, after, now),
    ensures
        ({
            let page = before.map().page();
            let fine = before.geom().tracking_page_hot;
            let fits = fine < page && page % fine == 0 && config_fault(
                before.map().start(),
                before.map().size(),
                fine,
            ) is None;
            &&& forall|addr: u64| #[trigger]
                after.map().addr_dirty(addr) == before.map().addr_dirty(addr)
            &&& after.map().start() == before.map().start()
            &&& after.map().size() == before.map().size()
            &&& after.map().page() <= page
            &&& after.control().granule == TrackingGranule::Fine && fits ==> after.map().page()
                == fine
            &&& after.control().granule == TrackingGranule::Fine && !fits ==> after.map()
                == before.map()
            &&& now < before.control().window_start + 100_000_000 ==> after.control()
                == before.control()
        }),
{
}

} // verus!
