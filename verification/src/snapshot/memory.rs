//! The memory file of a snapshot: which bytes of guest memory are written where.
//!
//! A full snapshot writes every page. A diff snapshot writes only the dirty pages, each
//! at its own offset, and leaves holes that read back as zero. What is written is a list
//! of ranges; reading the memory and writing the file is the caller's.

use vstd::arithmetic::div_mod::*;
use vstd::prelude::*;
use vstd::string::*;

use crate::snapshot::dirty::{self, DirtyBitmap};
use crate::snapshot::error::SnapshotError;
use crate::text::{self, push_decimal};

verus! {

/// The shape of a memory file.
#[derive(Clone, Copy, Debug, PartialEq, Eq, Structural)]
pub enum MemorySnapshotKind {
    Full,
    Diff,
}

/// Why memory could not be read.
#[derive(Clone, Copy, Debug, PartialEq, Eq, Structural)]
pub enum PageReadError {
    /// The offset does not fit the address space.
    OffsetTooLarge,
    /// The range wraps around.
    OffsetOverflow,
    /// The range ends beyond the memory.
    PastEnd,
}

impl PageReadError {
    /// The text of the error.
    pub fn message(&self) -> (s: &'static str)
        ensures
            s@ == match *self {
                PageReadError::OffsetTooLarge => "offset > usize::MAX"@,
                PageReadError::OffsetOverflow => "offset overflow"@,
                PageReadError::PastEnd => "read past end of memory"@,
            },
    {
        match self {
            PageReadError::OffsetTooLarge => "offset > usize::MAX",
            PageReadError::OffsetOverflow => "offset overflow",
            PageReadError::PastEnd => "read past end of memory",
        }
    }
}

/// Something that guest memory can be read from.
pub trait PageReader {
    /// Fills `buf` with the bytes at an offset from the start of memory.
    fn read_at(&self, offset_from_ram_start: u64, buf: &mut [u8]) -> Result<(), PageReadError>;
}

/// Memory held as bytes.
#[derive(Debug)]
pub struct VecPageReader {
    bytes: Vec<u8>,
}

impl View for VecPageReader {
    type V = Seq<u8>;

    closed spec fn view(&self) -> Seq<u8> {
        self.bytes@
    }
}

/// Why a range of memory cannot be read, if it cannot.
pub open spec fn read_fault(size: int, offset: int, len: int) -> Option<PageReadError> {
    if offset > usize::MAX {
        Some(PageReadError::OffsetTooLarge)
    } else if offset + len > usize::MAX {
        Some(PageReadError::OffsetOverflow)
    } else if offset + len > size {
        Some(PageReadError::PastEnd)
    } else {
        None
    }
}

impl VecPageReader {
    /// Memory made of `bytes`.
    pub fn new(bytes: Vec<u8>) -> (r: Self)
        ensures
            r@ == bytes@,
    {
        VecPageReader { bytes }
    }

    /// The bytes, to be changed.
    pub fn bytes_mut(&mut self) -> (b: &mut [u8])
        ensures
            b@ == old(self)@,
            final(self)@ == final(b)@,
    {
        self.bytes.as_mut_slice()
    }
}

impl PageReader for VecPageReader {
    fn read_at(&self, offset_from_ram_start: u64, buf: &mut [u8]) -> (r: Result<(), PageReadError>)
        ensures
            final(buf)@.len() == old(buf)@.len(),
            match r {
                Ok(()) => read_fault(
                    self@.len() as int,
                    offset_from_ram_start as int,
                    old(buf)@.len() as int,
                ) is None && final(buf)@ == self@.subrange(
                    offset_from_ram_start as int,
                    offset_from_ram_start + old(buf)@.len(),
                ),
                Err(e) => read_fault(
                    self@.len() as int,
                    offset_from_ram_start as int,
                    old(buf)@.len() as int,
                ) == Some(e) && final(buf)@ == old(buf)@,
            },
    {
        if offset_from_ram_start > usize::MAX as u64 {
            return Err(PageReadError::OffsetTooLarge);
        }
        let start: usize = offset_from_ram_start as usize;
        let n: usize = buf.len();
        let end: usize = match start.checked_add(n) {
            Some(end) => end,
            None => {
                return Err(PageReadError::OffsetOverflow);
            },
        };
        if end > self.bytes.len() {
            return Err(PageReadError::PastEnd);
        }
        let mut i: usize = 0;
        while i < n
            invariant
                i <= n,
                n == buf@.len(),
                start + n <= self.bytes@.len(),
                self.bytes@.len() <= usize::MAX,
                forall|k: int| 0 <= k < i ==> buf@[k] == self.bytes@[start + k],
            decreases n - i,
        {
            buf[i] = self.bytes[start + i];
            i = i + 1;
        }
        assert(buf@ =~= self@.subrange(start as int, start + n));
        Ok(())
    }
}

/// One write to the memory file: this many bytes of memory, at this offset of both.
#[derive(Clone, Copy, Debug, PartialEq, Eq, Structural)]
pub struct PageWrite {
    pub offset: u64,
    pub len: u64,
}

/// The write of page `k`; the last page may be cut short.
pub open spec fn write_of(k: int, ram_size: int, page_size: int) -> PageWrite {
    let offset = k * page_size;
    PageWrite {
        offset: offset as u64,
        len: if ram_size - offset < page_size {
            (ram_size - offset) as u64
        } else {
            page_size as u64
        },
    }
}

/// Whether some write covers byte `b` of the file.
pub open spec fn covers(plan: Seq<PageWrite>, b: int) -> bool {
    exists|i: int|
        0 <= i < plan.len() && (#[trigger] plan[i]).offset <= b < plan[i].offset + plan[i].len
}

/// The writes of a full snapshot; none if there is no memory.
pub open spec fn full_plan(ram_size: int, page_size: int) -> Seq<PageWrite> {
    if ram_size <= 0 {
        Seq::empty()
    } else {
        Seq::new(
            dirty::page_count_of(ram_size, page_size) as nat,
            |k: int| write_of(k, ram_size, page_size),
        )
    }
}

/// The writes of the dirty pages among the first `n`, in order. `ratio` is how many pages
/// of the file a page of the bitmap spans.
pub open spec fn diff_plan(
    bitmap: &DirtyBitmap,
    ram_size: int,
    page_size: int,
    ratio: int,
    n: int,
) -> Seq<PageWrite>
    decreases n,
{
    if n <= 0 {
        Seq::empty()
    } else {
        let before = diff_plan(bitmap, ram_size, page_size, ratio, n - 1);
        if bitmap.dirty((n - 1) / ratio) {
            before.push(write_of(n - 1, ram_size, page_size))
        } else {
            before
        }
    }
}

/// Why a bitmap does not fit the memory file, if it does not.
pub open spec fn diff_fault(bitmap: &DirtyBitmap, ram_size: u64, page_size: u64) -> Option<
    Seq<char>,
> {
    if bitmap.size() != ram_size {
        Some(
            "diff bitmap covers "@ + text::decimal(bitmap.size() as nat)
                + " bytes, memory file expects "@ + text::decimal(ram_size as nat),
        )
    } else if bitmap.page() < page_size || page_size == 0 || bitmap.page() % page_size != 0 {
        Some(
            "diff bitmap page ("@ + text::decimal(bitmap.page() as nat)
                + ") must be a multiple of memory-file page ("@ + text::decimal(page_size as nat)
                + ")"@,
        )
    } else {
        None
    }
}

/// The geometry of a memory file: how many bytes it stands for and in which pages it is
/// written.
#[derive(Clone, Copy, Debug)]
pub struct MemoryWriter {
    ram_size: u64,
    page_size: u64,
}

impl MemoryWriter {
    /// Bytes of guest memory.
    pub closed spec fn size(&self) -> u64 {
        self.ram_size
    }

    /// Bytes in a page of the file.
    pub closed spec fn page(&self) -> u64 {
        self.page_size
    }

    /// A memory file for `ram_size` bytes in pages of `page_size`.
    pub fn new(ram_size: u64, page_size: u64) -> (w: Self)
        ensures
            w.size() == ram_size,
            w.page() == page_size,
    {
        MemoryWriter { ram_size, page_size }
    }

    /// Bytes of guest memory.
    pub fn ram_size(&self) -> (n: u64)
        ensures
            n == self.size(),
    {
        self.ram_size
    }

    /// Bytes in a page of the file.
    pub fn page_size(&self) -> (n: u64)
        ensures
            n == self.page(),
    {
        self.page_size
    }

    /// The writes of a full snapshot.
    pub fn write_full(&self) -> (plan: Vec<PageWrite>)
        requires
            self.size() > 0 ==> self.page() > 0,
        ensures
            plan@ == full_plan(self.size() as int, self.page() as int),
    {
        let mut plan: Vec<PageWrite> = Vec::new();
        if self.ram_size == 0 {
            return plan;
        }
        let mut offset: u64 = 0;
        let ghost mut k: int = 0;
        let ghost size = self.ram_size as int;
        let ghost page = self.page_size as int;
        let ghost count = dirty::page_count_of(size, page);
        proof {
            dirty::lemma_page_count_bound(size, page);
        }
        while offset < self.ram_size
            invariant
                0 < size == self.ram_size,
                page == self.page_size,
                page > 0,
                count == dirty::page_count_of(size, page),
                0 <= k <= count,
                offset <= size,
                offset < size ==> offset == k * page,
                offset == size ==> k == count,
                plan@.len() == k,
                forall|i: int| 0 <= i < k ==> plan@[i] == write_of(i, size, page),
            decreases size - offset,
        {
            let left: u64 = self.ram_size - offset;
            let chunk: u64 = if left < self.page_size {
                left
            } else {
                self.page_size
            };
            proof {
                page_at_offset(k, size, page);
            }
            plan.push(PageWrite { offset, len: chunk });
            offset = offset + chunk;
            proof {
                k = k + 1;
            }
        }
        assert(plan@ =~= full_plan(size, page));
        plan
    }

    /// The writes of a diff snapshot: the dirty pages of `bitmap`, in order. Refuses a
    /// bitmap of another size, or one whose pages are not whole pages of the file.
    pub fn write_diff(&self, bitmap: &DirtyBitmap) -> (r: Result<Vec<PageWrite>, SnapshotError>)
        requires
            bitmap.wf(),
        ensures
            match r {
                Ok(plan) => diff_fault(bitmap, self.size(), self.page()) is None && plan@
                    == diff_plan(
                    bitmap,
                    self.size() as int,
                    self.page() as int,
                    (bitmap.page() / self.page()) as int,
                    dirty::page_count_of(self.size() as int, self.page() as int),
                ),
                Err(SnapshotError::InvalidPath(why)) => diff_fault(
                    bitmap,
                    self.size(),
                    self.page(),
                ) == Some(why@),
                Err(_) => false,
            },
    {
        if bitmap.ram_size() != self.ram_size {
            let mut why = String::new();
            why.append("diff bitmap covers ");
            push_decimal(&mut why, bitmap.ram_size());
            why.append(" bytes, memory file expects ");
            push_decimal(&mut why, self.ram_size);
            assert(why@ =~= diff_fault(bitmap, self.size(), self.page())->0);
            return Err(SnapshotError::InvalidPath(why));
        }
        let bitmap_page: u64 = bitmap.page_size();
        let target_page: u64 = self.page_size;
        if bitmap_page < target_page || target_page == 0 || bitmap_page % target_page != 0 {
            let mut why = String::new();
            why.append("diff bitmap page (");
            push_decimal(&mut why, bitmap_page);
            why.append(") must be a multiple of memory-file page (");
            push_decimal(&mut why, target_page);
            why.append(")");
            assert(why@ =~= diff_fault(bitmap, self.size(), self.page())->0);
            return Err(SnapshotError::InvalidPath(why));
        }
        let ratio: u64 = bitmap_page / target_page;
        let ghost size = self.ram_size as int;
        let ghost page = self.page_size as int;
        let ghost count = dirty::page_count_of(size, page);
        proof {
            bitmap.wf_facts();
            lemma_fundamental_div_mod(bitmap_page as int, target_page as int);
            assert(ratio >= 1) by (nonlinear_arith)
                requires
                    bitmap_page == target_page * ratio,
                    bitmap_page >= 1,
            ;
            dirty::lemma_page_count_bound(size, page);
        }
        let mut plan: Vec<PageWrite> = Vec::new();
        let mut offset: u64 = 0;
        let mut sub: u64 = 0;
        let mut block: u64 = 0;
        let ghost mut k: int = 0;
        while offset < self.ram_size
            invariant
                bitmap.wf(),
                size == self.ram_size,
                page == self.page_size,
                page > 0,
                target_page == self.page_size,
                ratio >= 1,
                count == dirty::page_count_of(size, page),
                0 <= k <= count,
                offset <= size,
                offset < size ==> offset == k * page,
                offset == size ==> k == count,
                offset < size ==> k == block * ratio + sub,
                sub < ratio,
                block <= k,
                plan@ == diff_plan(bitmap, size, page, ratio as int, k),
            decreases size - offset,
        {
            let left: u64 = self.ram_size - offset;
            let chunk: u64 = if left < target_page {
                left
            } else {
                target_page
            };
            proof {
                page_at_offset(k, size, page);
                lemma_fundamental_div_mod_converse(k, ratio as int, block as int, sub as int);
                dirty::lemma_page_count_bound(size, page);
            }
            if bitmap.is_dirty_by_index(block) {
                plan.push(PageWrite { offset, len: chunk });
            }
            offset = offset + chunk;
            proof {
                k = k + 1;
            }
            if sub + 1 < ratio {
                sub = sub + 1;
            } else {
                assert((block + 1) * ratio == block * ratio + ratio) by (nonlinear_arith);
                block = block + 1;
                sub = 0;
            }
        }
        Ok(plan)
    }
}

/// The page that starts at `k * page` when that is inside memory, and where the next one
/// starts.
proof fn page_at_offset(k: int, size: int, page: int)
    requires
        0 <= k,
        k * page < size,
        page > 0,
    ensures
        k < dirty::page_count_of(size, page),
        (k + 1) * page == k * page + page,
        size - k * page <= page ==> k + 1 == dirty::page_count_of(size, page),
        0 <= k * page,
{
    let n = dirty::page_count_of(size, page);
    lemma_fundamental_div_mod(size + page - 1, page);
    lemma_mod_bound(size + page - 1, page);
    assert((k + 1) * page == k * page + page) by (nonlinear_arith);
    assert(0 <= k * page) by (nonlinear_arith)
        requires
            0 <= k,
            page > 0,
    ;
    assert(k < n && (size - k * page <= page ==> k + 1 == n)) by (nonlinear_arith)
        requires
            page * n + (size + page - 1) % page == size + page - 1,
            0 <= (size + page - 1) % page < page,
            k * page < size,
            0 <= k,
            page > 0,
    ;
}

/// A full snapshot covers every byte of memory and nothing else.
pub proof fn full_plan_covers_memory(ram_size: u64, page_size: u64, b: int)
    requires
        page_size > 0,
        0 <= b,
    ensures
        covers(full_plan(ram_size as int, page_size as int), b) <==> b < ram_size,
{
    let size = ram_size as int;
    let page = page_size as int;
    let plan = full_plan(size, page);
    let n = dirty::page_count_of(size, page);
    if b < size {
        dirty::offset_in_pages(b, size, page);
        let k = b / page;
        lemma_fundamental_div_mod(b, page);
        lemma_mod_bound(b, page);
        assert(page * k == k * page) by (nonlinear_arith);
        page_at_offset(k, size, page);
        assert(plan[k] == write_of(k, size, page));
        assert(plan[k].offset <= b < plan[k].offset + plan[k].len);
    }
    if covers(plan, b) {
        let i = choose|i: int|
            0 <= i < plan.len() && (#[trigger] plan[i]).offset <= b < plan[i].offset + plan[i].len;
        write_is_inside(i, size, page);
    }
}

/// The write of a page that exists lies inside memory.
proof fn write_is_inside(k: int, size: int, page: int)
    requires
        0 <= k < dirty::page_count_of(size, page),
        0 <= size <= u64::MAX,
        0 < page <= u64::MAX,
    ensures
        write_of(k, size, page).offset == k * page,
        k * page < size,
        0 < write_of(k, size, page).len <= page,
        k * page + write_of(k, size, page).len <= size,
{
    let n = dirty::page_count_of(size, page);
    lemma_fundamental_div_mod(size + page - 1, page);
    lemma_mod_bound(size + page - 1, page);
    assert(0 <= k * page < size) by (nonlinear_arith)
        requires
            page * n + (size + page - 1) % page == size + page - 1,
            0 <= (size + page - 1) % page < page,
            0 <= k < n,
            page > 0,
    ;
}

/// The writes of a diff snapshot are those of the dirty pages among the first `n`.
proof fn diff_plan_members(
    bitmap: &DirtyBitmap,
    size: int,
    page: int,
    ratio: int,
    n: int,
    w: PageWrite,
)
    requires
        0 <= n,
    ensures
        diff_plan(bitmap, size, page, ratio, n).contains(w) <==> exists|k: int|
            0 <= k < n && bitmap.dirty(k / ratio) && w == #[trigger] write_of(k, size, page),
    decreases n,
{
    if n > 0 {
        diff_plan_members(bitmap, size, page, ratio, n - 1, w);
        let before = diff_plan(bitmap, size, page, ratio, n - 1);
        let after = diff_plan(bitmap, size, page, ratio, n);
        let last = write_of(n - 1, size, page);
        if after.contains(w) {
            let i = choose|i: int| 0 <= i < after.len() && after[i] == w;
            if i < before.len() {
                assert(before[i] == w);
                assert(before.contains(w));
            } else {
                assert(w == last && bitmap.dirty((n - 1) / ratio));
            }
        }
        if exists|k: int| 0 <= k < n && bitmap.dirty(k / ratio) && w == #[trigger] write_of(k, size, page) {
            let k = choose|k: int|
                0 <= k < n && bitmap.dirty(k / ratio) && w == #[trigger] write_of(k, size, page);
            if k < n - 1 {
                assert(before.contains(w));
                let i = choose|i: int| 0 <= i < before.len() && before[i] == w;
                assert(after[i] == w);
            } else {
                assert(after[before.len() as int] == w);
            }
        }
    }
}

/// A diff snapshot covers exactly the bytes of dirty pages.
pub proof fn diff_plan_covers_dirty_bytes(
    bitmap: &DirtyBitmap,
    ram_size: u64,
    page_size: u64,
    b: int,
)
    requires
        bitmap.wf(),
        diff_fault(bitmap, ram_size, page_size) is None,
        0 <= b < ram_size,
    ensures
        covers(
            diff_plan(
                bitmap,
                ram_size as int,
                page_size as int,
                (bitmap.page() / page_size) as int,
                dirty::page_count_of(ram_size as int, page_size as int),
            ),
            b,
        ) <==> bitmap.dirty(b / bitmap.page() as int),
{
    let size = ram_size as int;
    let page = page_size as int;
    let ratio = (bitmap.page() / page_size) as int;
    let n = dirty::page_count_of(size, page);
    let plan = diff_plan(bitmap, size, page, ratio, n);
    bitmap.wf_facts();
    lemma_fundamental_div_mod(bitmap.page() as int, page);
    assert(ratio >= 1) by (nonlinear_arith)
        requires
            bitmap.page() == page * ratio,
            bitmap.page() >= 1,
            page >= 1,
    ;
    dirty::offset_in_pages(b, size, page);
    let k = b / page;
    lemma_fundamental_div_mod(b, page);
    lemma_mod_bound(b, page);
    assert(page * k == k * page) by (nonlinear_arith);
    lemma_div_denominator(b, page, ratio);
    assert(k / ratio == b / bitmap.page() as int);
    write_is_inside(k, size, page);
    let w = write_of(k, size, page);
    assert(w.offset <= b < w.offset + w.len);
    diff_plan_members(bitmap, size, page, ratio, n, w);
    if bitmap.dirty(b / bitmap.page() as int) {
        assert(plan.contains(w));
        let i = choose|i: int| 0 <= i < plan.len() && plan[i] == w;
        assert(plan[i].offset <= b < plan[i].offset + plan[i].len);
    }
    if covers(plan, b) {
        let i = choose|i: int|
            0 <= i < plan.len() && (#[trigger] plan[i]).offset <= b < plan[i].offset + plan[i].len;
        let v = plan[i];
        assert(plan.contains(v));
        diff_plan_members(bitmap, size, page, ratio, n, v);
        let j = choose|j: int|
            0 <= j < n && bitmap.dirty(j / ratio) && v == #[trigger] write_of(j, size, page);
        write_is_inside(j, size, page);
        lemma_fundamental_div_mod_converse(b, page, j, b - j * page);
        assert(j == k);
    }
}

/// The writes of a full snapshot follow each other without a gap, whole pages all of them
/// but perhaps the last.
pub proof fn full_plan_is_gapless(ram_size: u64, page_size: u64, i: int)
    requires
        page_size > 0,
        0 <= i < full_plan(ram_size as int, page_size as int).len(),
    ensures
        ({
            let plan = full_plan(ram_size as int, page_size as int);
            &&& plan[i].offset == i * page_size
            &&& 0 < plan[i].len <= page_size
            &&& i + 1 < plan.len() ==> plan[i].len == page_size && plan[i + 1].offset
                == plan[i].offset + plan[i].len
            &&& i + 1 == plan.len() ==> plan[i].offset + plan[i].len == ram_size
        }),
{
    let size = ram_size as int;
    let page = page_size as int;
    let n = dirty::page_count_of(size, page);
    write_is_inside(i, size, page);
    lemma_fundamental_div_mod(size + page - 1, page);
    lemma_mod_bound(size + page - 1, page);
    if i + 1 < n {
        write_is_inside(i + 1, size, page);
        assert((i + 1) * page == i * page + page) by (nonlinear_arith);
    } else {
        assert(size - i * page <= page) by (nonlinear_arith)
            requires
                page * n + (size + page - 1) % page == size + page - 1,
                0 <= (size + page - 1) % page < page,
                i + 1 == n,
                page > 0,
        ;
    }
}

proof fn diff_plan_below(bitmap: &DirtyBitmap, size: int, page: int, ratio: int, n: int, i: int)
    requires
        0 <= i < diff_plan(bitmap, size, page, ratio, n).len(),
        0 <= n <= dirty::page_count_of(size, page),
        0 <= size <= u64::MAX,
        0 < page <= u64::MAX,
    ensures
        diff_plan(bitmap, size, page, ratio, n)[i].offset + page <= n * page,
    decreases n,
{
    let before = diff_plan(bitmap, size, page, ratio, n - 1);
    assert((n - 1) * page + page == n * page) by (nonlinear_arith);
    write_is_inside(n - 1, size, page);
    if i < before.len() {
        diff_plan_below(bitmap, size, page, ratio, n - 1, i);
    }
}

/// The writes of a snapshot of the changes are in rising order, each at the start of a page,
/// and no two overlap.
pub proof fn diff_plan_rises(
    bitmap: &DirtyBitmap,
    ram_size: u64,
    page_size: u64,
    n: int,
    i: int,
    j: int,
)
    requires
        page_size > 0,
        bitmap.page() >= page_size,
        0 <= n <= dirty::page_count_of(ram_size as int, page_size as int),
        0 <= i < j < diff_plan(
            bitmap,
            ram_size as int,
            page_size as int,
            (bitmap.page() / page_size) as int,
            n,
        ).len(),
    ensures
        ({
            let plan = diff_plan(
                bitmap,
                ram_size as int,
                page_size as int,
                (bitmap.page() / page_size) as int,
                n,
            );
            &&& plan[i].offset + page_size <= plan[j].offset
            &&& 0 < plan[i].len <= page_size
        }),
    decreases n,
{
    let size = ram_size as int;
    let page = page_size as int;
    let ratio = (bitmap.page() / page_size) as int;
    let before = diff_plan(bitmap, size, page, ratio, n - 1);
    write_is_inside(n - 1, size, page);
    if j < before.len() {
        diff_plan_rises(bitmap, ram_size, page_size, n - 1, i, j);
    } else {
        diff_plan_below(bitmap, size, page, ratio, n - 1, i);
        diff_plan_members(bitmap, size, page, ratio, n - 1, before[i]);
        assert(before.contains(before[i]));
        let k = choose|k: int|
            0 <= k < n - 1 && bitmap.dirty(k / ratio) && before[i] == #[trigger] write_of(
                k,
                size,
                page,
            );
        write_is_inside(k, size, page);
    }
}

/// A bitmap fits a memory file exactly if it covers as many bytes and its pages are whole
/// pages of the file.
pub proof fn bitmaps_that_fit(bitmap: &DirtyBitmap, ram_size: u64, page_size: u64)
    requires
        bitmap.page() > 0,
    ensures
        diff_fault(bitmap, ram_size, page_size) is None <==> bitmap.size() == ram_size && page_size
            > 0 && bitmap.page() % page_size == 0,
{
    if page_size > 0 && bitmap.page() % page_size == 0 && bitmap.page() < page_size {
        lemma_small_mod(bitmap.page() as nat, page_size as nat);
    }
}

/// A page can be read if its last byte, which must have a number, is within memory.
pub proof fn pages_that_can_be_read(size: int, offset: int, len: int)
    requires
        0 <= size <= u64::MAX,
        0 <= offset,
        0 <= len,
        offset + len <= usize::MAX,
    ensures
        read_fault(size, offset, len) is None <==> offset + len <= size,
{
}

} // verus!
