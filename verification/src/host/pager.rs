//! The pager: memory of a restored guest is fetched page by page as it is touched.

use std::collections::BTreeMap;
use vstd::prelude::*;
use vstd::slice::slice_to_vec;
use vstd::string::*;

use crate::maps::{self, entries_of, put};
use crate::text::{self, push_decimal, push_hex_prefixed};
use crate::wire::{self, push_bytes, read_le64, to_le64};

verus! {

/// How often the pager looks whether it is still in charge, unless set otherwise, in
/// milliseconds.
pub const DEFAULT_POLL_INTERVAL_MS: u64 = 1000;

/// How the pager is set up.
#[derive(Clone, Debug)]
pub struct PagerConfig {
    pub poll_interval_ms: u64,
    /// What is fetched before the first vCPU runs.
    pub prewarm: PrewarmList,
}

impl Default for PagerConfig {
    fn default() -> (c: Self)
        ensures
            c.poll_interval_ms == DEFAULT_POLL_INTERVAL_MS,
            c.poll_interval_ms == 1000,
            c.prewarm.pages@.len() == 0,
    {
        PagerConfig {
            poll_interval_ms: DEFAULT_POLL_INTERVAL_MS,
            prewarm: PrewarmList { pages: Vec::new() },
        }
    }
}

/// Addresses whose pages are fetched before the first vCPU runs.
#[derive(Clone, Debug)]
pub struct PrewarmList {
    pub pages: Vec<u64>,
}

impl PrewarmList {
    /// The pages that a boot touches first.
    pub fn from_boot_critical(kernel_text_ipa: u64, vcpu0_stack_ipa: u64, fdt_ipa: u64) -> (l: Self)
        ensures
            l.pages@ == seq![kernel_text_ipa, vcpu0_stack_ipa, fdt_ipa],
    {
        let pages: Vec<u64> = vec![kernel_text_ipa, vcpu0_stack_ipa, fdt_ipa];
        assert(pages@ =~= seq![kernel_text_ipa, vcpu0_stack_ipa, fdt_ipa]);
        PrewarmList { pages }
    }
}

impl Default for PrewarmList {
    fn default() -> (l: Self)
        ensures
            l.pages@.len() == 0,
    {
        PrewarmList { pages: Vec::new() }
    }
}

/// A page that is asked for.
#[derive(Clone, Copy, Debug, PartialEq, Eq, Structural)]
pub struct PageRequest {
    pub ipa: u64,
    pub page_size: u64,
}

/// Why a page could not be fetched.
#[derive(Debug)]
pub enum PageSourceError {
    /// Less than a page was there.
    Short { got: u64, expected: u64 },
    /// The source cannot be used, or not for this page.
    Open(String),
    Io(std::io::Error),
}

/// The message of an error, where `detail` is the text of the operating-system error that
/// it carries, if it carries one.
pub open spec fn source_message(e: PageSourceError, detail: Seq<char>) -> Seq<char> {
    match e {
        PageSourceError::Short { got, expected } => "page source returned a short read: "@
            + text::decimal(got as nat) + " bytes, expected "@ + text::decimal(expected as nat),
        PageSourceError::Open(why) => "page source open: "@ + why@,
        PageSourceError::Io(_) => "page source I/O: "@ + detail,
    }
}

impl PageSourceError {
    /// The message of the error, with `detail` for the text of the operating-system error
    /// that it carries.
    pub fn message_with(&self, detail: &str) -> (s: String)
        ensures
            s@ == source_message(*self, detail@),
    {
        let mut s = String::new();
        match self {
            PageSourceError::Short { got, expected } => {
                s.append("page source returned a short read: ");
                push_decimal(&mut s, *got);
                s.append(" bytes, expected ");
                push_decimal(&mut s, *expected);
            },
            PageSourceError::Open(why) => {
                s.append("page source open: ");
                s.append(why.as_str());
            },
            PageSourceError::Io(_) => {
                s.append("page source I/O: ");
                s.append(detail);
            },
        }
        assert(s@ =~= source_message(*self, detail@));
        s
    }
}

impl From<std::io::Error> for PageSourceError {
    fn from(err: std::io::Error) -> (e: Self) {
        PageSourceError::Io(err)
    }
}

impl vstd::std_specs::convert::FromSpecImpl<std::io::Error> for PageSourceError {
    open spec fn obeys_from_spec() -> bool {
        true
    }

    open spec fn from_spec(err: std::io::Error) -> Self {
        PageSourceError::Io(err)
    }
}

/// Where pages come from.
pub trait PageSource {
    /// The bytes of a page.
    fn fetch(&self, req: &PageRequest) -> Result<Vec<u8>, PageSourceError>;
}

/// The start of the page that holds `at`.
pub open spec fn page_start(at: u64, page_size: u64) -> u64 {
    (at - at % page_size) as u64
}

fn aligned(at: u64, page_size: u64) -> (a: u64)
    requires
        page_size > 0,
    ensures
        a == page_start(at, page_size),
        a <= at < a + page_size,
        a % page_size == 0,
{
    proof {
        let x = at as int;
        let d = page_size as int;
        vstd::arithmetic::div_mod::lemma_mod_bound(x, d);
        vstd::arithmetic::div_mod::lemma_fundamental_div_mod(x, d);
        vstd::arithmetic::div_mod::lemma_mod_multiples_basic(x / d, d);
        assert(x - x % d == (x / d) * d) by (nonlinear_arith)
            requires
                x == d * (x / d) + x % d,
        ;
        assert(x % d <= x) by (nonlinear_arith)
            requires
                x == d * (x / d) + x % d,
                d > 0,
                x >= 0,
        {
            assert(x / d >= 0);
        }
    }
    at - at % page_size
}

/// A file that holds memory from `ram_start` on.
#[derive(Clone, Copy, Debug, PartialEq, Eq, Structural)]
pub struct FilePageSource {
    pub ram_start: u64,
}

/// What is said of an address below the start of memory.
pub open spec fn below_text(ipa: u64, ram_start: u64) -> Seq<char> {
    "ipa "@ + text::hex_prefixed(ipa as nat) + " below ram_start "@ + text::hex_prefixed(
        ram_start as nat,
    )
}

impl FilePageSource {
    /// Where in the file a page is read.
    pub fn offset_of(&self, req: &PageRequest) -> (r: Result<u64, PageSourceError>)
        requires
            req.ipa >= self.ram_start ==> req.page_size > 0,
        ensures
            match r {
                Ok(at) => req.ipa >= self.ram_start && at == page_start(
                    (req.ipa - self.ram_start) as u64,
                    req.page_size,
                ),
                Err(PageSourceError::Open(why)) => req.ipa < self.ram_start && why@ == below_text(
                    req.ipa,
                    self.ram_start,
                ),
                Err(_) => false,
            },
    {
        if req.ipa < self.ram_start {
            let mut why = String::from_str("ipa ");
            push_hex_prefixed(&mut why, req.ipa);
            why.append(" below ram_start ");
            push_hex_prefixed(&mut why, self.ram_start);
            assert(why@ =~= below_text(req.ipa, self.ram_start));
            return Err(PageSourceError::Open(why));
        }
        Ok(aligned(req.ipa - self.ram_start, req.page_size))
    }

    /// Accepts a page of which `got` bytes were read, if it is whole.
    pub fn accept(&self, req: &PageRequest, got: usize) -> (r: Result<(), PageSourceError>)
        ensures
            match r {
                Ok(()) => got >= req.page_size,
                Err(PageSourceError::Short { got: g, expected }) => got < req.page_size && g == got
                    && expected == req.page_size,
                Err(_) => false,
            },
    {
        if (got as u64) < req.page_size {
            return Err(PageSourceError::Short { got: got as u64, expected: req.page_size });
        }
        Ok(())
    }
}

/// Pages that a server hands out over a stream. A request is the address and the size of
/// the page, eight bytes each, least significant first; the answer repeats them and gives
/// the bytes of the page.
#[derive(Clone, Copy, Debug, PartialEq, Eq, Structural)]
pub struct UffdPageSource {}

/// The bytes of a request.
pub open spec fn request_bytes(req: PageRequest) -> Seq<u8> {
    wire::le64_bytes(req.ipa) + wire::le64_bytes(req.page_size)
}

/// What is said of an answer to another request.
pub open spec fn echo_text(req: PageRequest, ipa: u64, size: u64) -> Seq<char> {
    "Uffd protocol violation: expected ipa="@ + text::hex_prefixed(req.ipa as nat) + " size="@
        + text::decimal(req.page_size as nat) + " got ipa="@ + text::hex_prefixed(ipa as nat)
        + " size="@ + text::decimal(size as nat)
}

impl UffdPageSource {
    /// The bytes of a request.
    pub fn request(req: &PageRequest) -> (v: Vec<u8>)
        ensures
            v@ == request_bytes(*req),
    {
        let ipa: [u8; 8] = to_le64(req.ipa);
        let size: [u8; 8] = to_le64(req.page_size);
        let mut v: Vec<u8> = Vec::new();
        push_bytes(&mut v, ipa.as_slice());
        push_bytes(&mut v, size.as_slice());
        assert(v@ =~= request_bytes(*req));
        v
    }

    /// Takes the sixteen bytes before the page. Gives how many bytes the page has.
    pub fn check_echo(req: &PageRequest, hdr: &[u8; 16]) -> (r: Result<usize, PageSourceError>)
        ensures
            match r {
                Ok(n) => wire::le64(hdr@, 0) == req.ipa && wire::le64(hdr@, 8) == req.page_size && n
                    == req.page_size,
                Err(PageSourceError::Open(why)) => {
                    ||| (wire::le64(hdr@, 0) != req.ipa || wire::le64(hdr@, 8) != req.page_size)
                        && why@ == echo_text(
                        *req,
                        wire::le64(hdr@, 0) as u64,
                        wire::le64(hdr@, 8) as u64,
                    )
                    ||| wire::le64(hdr@, 0) == req.ipa && wire::le64(hdr@, 8) == req.page_size
                        && req.page_size > usize::MAX && why@ == "page_size > usize::MAX"@
                },
                Err(_) => false,
            },
    {
        let echo_ipa: u64 = read_le64(hdr.as_slice(), 0);
        let echo_size: u64 = read_le64(hdr.as_slice(), 8);
        if echo_ipa != req.ipa || echo_size != req.page_size {
            let mut why = String::from_str("Uffd protocol violation: expected ipa=");
            push_hex_prefixed(&mut why, req.ipa);
            why.append(" size=");
            push_decimal(&mut why, req.page_size);
            why.append(" got ipa=");
            push_hex_prefixed(&mut why, echo_ipa);
            why.append(" size=");
            push_decimal(&mut why, echo_size);
            assert(why@ =~= echo_text(*req, echo_ipa, echo_size));
            return Err(PageSourceError::Open(why));
        }
        if req.page_size > usize::MAX as u64 {
            return Err(PageSourceError::Open(String::from_str("page_size > usize::MAX")));
        }
        Ok(req.page_size as usize)
    }
}

/// A number is read alike within a sequence and from its part.
proof fn read_within(v: Seq<u8>, at: int, part: Seq<u8>)
    requires
        0 <= at,
        at + 8 <= v.len(),
        v.subrange(at, at + 8) == part,
    ensures
        wire::le64(v, at) == wire::le64(part, 0),
{
    assert(part[0] == v[at] && part[1] == v[at + 1] && part[2] == v[at + 2] && part[3] == v[at + 3]);
    assert(part[4] == v[at + 4] && part[5] == v[at + 5] && part[6] == v[at + 6] && part[7] == v[at
        + 7]);
}

/// An answer that repeats the request is accepted.
pub proof fn echo_of_a_request_is_right(req: PageRequest)
    ensures
        wire::le64(request_bytes(req), 0) == req.ipa,
        wire::le64(request_bytes(req), 8) == req.page_size,
{
    let v = request_bytes(req);
    let ipa = wire::le64_bytes(req.ipa);
    let size = wire::le64_bytes(req.page_size);
    assert(wire::le64(v, 0) == req.ipa) by {
        wire::le64_of_bytes(req.ipa);
        assert(v.subrange(0, 8) =~= ipa);
        read_within(v, 0, ipa);
    }
    assert(wire::le64(v, 8) == req.page_size) by {
        wire::le64_of_bytes(req.page_size);
        assert(v.subrange(8, 16) =~= size);
        read_within(v, 8, size);
    }
}

/// Counts of what the pager did. They wrap.
#[derive(Clone, Copy, Debug, PartialEq, Eq, Structural)]
pub struct PagerStats {
    pub faults: u64,
    pub prewarmed: u64,
    pub port_reinstalls: u64,
    pub forwarded_exceptions: u64,
}

/// The counts at one time.
#[derive(Clone, Copy, Debug, PartialEq, Eq, Structural)]
pub struct PagerStatsSnapshot {
    pub faults: u64,
    pub prewarmed: u64,
    pub port_reinstalls: u64,
    pub forwarded_exceptions: u64,
}

/// All counts are zero.
pub open spec fn no_stats() -> PagerStats {
    PagerStats { faults: 0, prewarmed: 0, port_reinstalls: 0, forwarded_exceptions: 0 }
}

impl Default for PagerStats {
    fn default() -> (s: Self)
        ensures
            s == no_stats(),
    {
        PagerStats { faults: 0, prewarmed: 0, port_reinstalls: 0, forwarded_exceptions: 0 }
    }
}

impl PagerStats {
    /// The counts now.
    pub fn snapshot(&self) -> (s: PagerStatsSnapshot)
        ensures
            s.faults == self.faults,
            s.prewarmed == self.prewarmed,
            s.port_reinstalls == self.port_reinstalls,
            s.forwarded_exceptions == self.forwarded_exceptions,
    {
        PagerStatsSnapshot {
            faults: self.faults,
            prewarmed: self.prewarmed,
            port_reinstalls: self.port_reinstalls,
            forwarded_exceptions: self.forwarded_exceptions,
        }
    }
}

/// A count, `n` steps on.
pub open spec fn counted(c: u64, n: int) -> u64 {
    ((c + n) % 0x1_0000_0000_0000_0000) as u64
}

fn next_count(c: u64) -> (d: u64)
    ensures
        d == counted(c, 1),
{
    if c == u64::MAX {
        0
    } else {
        c + 1
    }
}

/// Why a page could not be served.
#[derive(Debug)]
pub enum PagerError {
    /// The address lies in no region.
    OutOfRegion { ipa: u64 },
    Source(PageSourceError),
    Mach(String),
    /// The server could not be started.
    Spawn(std::io::Error),
}

/// The message of an error, where `detail` is the text of the operating-system error that
/// it carries, if it carries one.
pub open spec fn pager_message(e: PagerError, detail: Seq<char>) -> Seq<char> {
    match e {
        PagerError::OutOfRegion { ipa } => "postcopy region missing: ipa="@ + text::hex_prefixed(
            ipa as nat,
        ),
        PagerError::Source(s) => "page source: "@ + source_message(s, detail),
        PagerError::Mach(why) => "mach error: "@ + why@,
        PagerError::Spawn(_) => "pager server thread spawn: "@ + detail,
    }
}

impl PagerError {
    /// The message of the error, with `detail` for the text of the operating-system error
    /// that it carries.
    pub fn message_with(&self, detail: &str) -> (s: String)
        ensures
            s@ == pager_message(*self, detail@),
    {
        let mut s = String::new();
        match self {
            PagerError::OutOfRegion { ipa } => {
                s.append("postcopy region missing: ipa=");
                push_hex_prefixed(&mut s, *ipa);
            },
            PagerError::Source(e) => {
                s.append("page source: ");
                s.append(e.message_with(detail).as_str());
            },
            PagerError::Mach(why) => {
                s.append("mach error: ");
                s.append(why.as_str());
            },
            PagerError::Spawn(_) => {
                s.append("pager server thread spawn: ");
                s.append(detail);
            },
        }
        assert(s@ =~= pager_message(*self, detail@));
        s
    }
}

/// Whether an address lies in the region of `size` bytes from `base` on; a region ends
/// with the address space at the latest.
pub open spec fn in_region(base: u64, size: u64, ipa: u64) -> bool {
    base <= ipa && ipa < (if base + size > u64::MAX {
        u64::MAX as int
    } else {
        base + size
    })
}

/// Whether an address lies in one of the regions.
pub open spec fn in_regions(regions: Map<u64, u64>, ipa: u64) -> bool {
    exists|base: u64| #[trigger] regions.contains_key(base) && in_region(base, regions[base], ipa)
}

fn region_contains(base: u64, size: u64, ipa: u64) -> (b: bool)
    ensures
        b == in_region(base, size, ipa),
{
    let end: u64 = match base.checked_add(size) {
        Some(end) => end,
        None => u64::MAX,
    };
    ipa >= base && ipa < end
}

/// The pager: the regions that it serves, and where it gets their pages from.
pub struct Pager<S: PageSource> {
    source: S,
    config: PagerConfig,
    /// Sizes of the regions by their base.
    regions: BTreeMap<u64, u64>,
    stats: PagerStats,
    shutdown: bool,
}

/// The size of a page of the host.
pub fn host_page_size() -> (n: u64)
    ensures
        n == 16384,
{
    16384
}

impl<S: PageSource> Pager<S> {
    /// Where pages come from.
    pub closed spec fn pages_from(&self) -> S {
        self.source
    }

    /// What is fetched first.
    pub closed spec fn prewarm_list(&self) -> Seq<u64> {
        self.config.prewarm.pages@
    }

    /// How often it looks whether it is still in charge, in milliseconds.
    pub closed spec fn interval(&self) -> u64 {
        self.config.poll_interval_ms
    }

    /// Sizes of the regions by their base.
    pub closed spec fn regions(&self) -> Map<u64, u64> {
        self.regions@
    }

    /// What it did so far.
    pub closed spec fn counts(&self) -> PagerStats {
        self.stats
    }

    /// Whether it was asked to end.
    pub closed spec fn ending(&self) -> bool {
        self.shutdown
    }

    /// All but the counts is as it was.
    pub open spec fn same_setup(&self, before: &Self) -> bool {
        self.pages_from() == before.pages_from() && self.prewarm_list() == before.prewarm_list()
            && self.interval() == before.interval() && self.regions() == before.regions()
            && self.ending() == before.ending()
    }

    /// A pager without regions.
    pub fn new(source: S, config: PagerConfig) -> (p: Self)
        ensures
            p.pages_from() == source,
            p.prewarm_list() == config.prewarm.pages@,
            p.interval() == config.poll_interval_ms,
            p.regions() == Map::<u64, u64>::empty(),
            p.counts() == no_stats(),
            !p.ending(),
    {
        Pager {
            source,
            config,
            regions: BTreeMap::new(),
            stats: PagerStats::default(),
            shutdown: false,
        }
    }

    /// Serves the region of `size` bytes from `base` on, in place of one with that base.
    pub fn register_region(&mut self, base: u64, size: u64)
        ensures
            final(self).regions() == old(self).regions().insert(base, size),
            final(self).pages_from() == old(self).pages_from(),
            final(self).prewarm_list() == old(self).prewarm_list(),
            final(self).interval() == old(self).interval(),
            final(self).counts() == old(self).counts(),
            final(self).ending() == old(self).ending(),
    {
        put(&mut self.regions, base, size);
    }

    /// Whether an address lies in one of the regions.
    pub fn contains_ipa(&self, ipa: u64) -> (b: bool)
        ensures
            b == in_regions(self.regions(), ipa),
    {
        let entries: Vec<(u64, u64)> = entries_of(&self.regions);
        let mut i: usize = 0;
        while i < entries.len()
            invariant
                i <= entries@.len(),
                maps::in_key_order(entries@, self.regions@),
                forall|k: int|
                    0 <= k < i ==> !in_region((#[trigger] entries@[k]).0, entries@[k].1, ipa),
            decreases entries@.len() - i,
        {
            if region_contains(entries[i].0, entries[i].1, ipa) {
                assert(self.regions@.contains_key(entries@[i as int].0));
                return true;
            }
            i = i + 1;
        }
        proof {
            if in_regions(self.regions@, ipa) {
                let base = choose|base: u64| #[trigger]
                    self.regions@.contains_key(base) && in_region(base, self.regions@[base], ipa);
                let k = choose|k: int| 0 <= k < entries@.len() && (#[trigger] entries@[k]).0 == base;
                assert(!in_region(entries@[k].0, entries@[k].1, ipa));
            }
        }
        false
    }

    /// Fetches the page that holds `ipa`, if it lies in one of the regions.
    pub fn serve_fault(&mut self, ipa: u64, page_size: u64) -> (r: Result<Vec<u8>, PagerError>)
        requires
            in_regions(old(self).regions(), ipa) ==> page_size > 0,
        ensures
            final(self).same_setup(old(self)),
            match r {
                Ok(bytes) => {
                    &&& in_regions(old(self).regions(), ipa)
                    &&& fetched(
                        old(self).pages_from(),
                        ipa,
                        page_size,
                        Ok::<Vec<u8>, PageSourceError>(bytes),
                    )
                    &&& final(self).counts() == (PagerStats {
                        faults: counted(old(self).counts().faults, 1),
                        ..old(self).counts()
                    })
                },
                Err(PagerError::OutOfRegion { ipa: at }) => at == ipa && !in_regions(
                    old(self).regions(),
                    ipa,
                ) && final(self).counts() == old(self).counts(),
                Err(PagerError::Source(e)) => {
                    &&& in_regions(old(self).regions(), ipa)
                    &&& fetched(
                        old(self).pages_from(),
                        ipa,
                        page_size,
                        Err::<Vec<u8>, PageSourceError>(e),
                    )
                    &&& final(self).counts() == old(self).counts()
                },
                Err(_) => false,
            },
    {
        if !self.contains_ipa(ipa) {
            return Err(PagerError::OutOfRegion { ipa });
        }
        let req = PageRequest { ipa: aligned(ipa, page_size), page_size };
        match self.source.fetch(&req) {
            Ok(bytes) => {
                self.stats.faults = next_count(self.stats.faults);
                Ok(bytes)
            },
            Err(e) => Err(PagerError::Source(e)),
        }
    }

    /// Fetches the pages that are wanted before the first vCPU runs. The first that cannot
    /// be fetched ends it.
    #[verifier::rlimit(60)]
    pub fn prewarm(&mut self) -> (r: Result<(), PagerError>)
        ensures
            final(self).same_setup(old(self)),
            exists|n: int|
                {
                    &&& 0 <= n <= old(self).prewarm_list().len()
                    &&& #[trigger] final(self).counts() == counts_after(old(self).counts(), n)
                    &&& forall|k: int|
                        0 <= k < n ==> in_regions(
                            old(self).regions(),
                            #[trigger] old(self).prewarm_list()[k],
                        ) && page_given(old(self).pages_from(), old(self).prewarm_list()[k])
                    &&& match r {
                        Ok(()) => n == old(self).prewarm_list().len(),
                        Err(PagerError::OutOfRegion { ipa }) => n < old(self).prewarm_list().len()
                            && ipa == old(self).prewarm_list()[n] && !in_regions(
                            old(self).regions(),
                            ipa,
                        ),
                        Err(PagerError::Source(e)) => n < old(self).prewarm_list().len()
                            && in_regions(old(self).regions(), old(self).prewarm_list()[n])
                            && fetched(
                            old(self).pages_from(),
                            old(self).prewarm_list()[n],
                            16384,
                            Err::<Vec<u8>, PageSourceError>(e),
                        ),
                        Err(_) => false,
                    }
                },
    {
        let pages: Vec<u64> = slice_to_vec(self.config.prewarm.pages.as_slice());
        let ghost list = pages@;
        let mut i: usize = 0;
        assert(self.counts() == counts_after(old(self).counts(), 0));
        while i < pages.len()
            invariant
                i <= pages@.len(),
                pages@ == list,
                list == old(self).prewarm_list(),
                self.same_setup(old(self)),
                self.counts() == counts_after(old(self).counts(), i as int),
                forall|k: int|
                    0 <= k < i ==> in_regions(old(self).regions(), #[trigger] list[k])
                        && page_given(old(self).pages_from(), list[k]),
            decreases pages@.len() - i,
        {
            match self.serve_fault(pages[i], host_page_size()) {
                Ok(bytes) => {
                    assert(fetched(
                        old(self).pages_from(),
                        pages@[i as int],
                        16384,
                        Ok::<Vec<u8>, PageSourceError>(bytes),
                    ));
                },
                Err(e) => {
                    assert(self.counts() == counts_after(old(self).counts(), i as int));
                    return Err(e);
                },
            }
            self.stats.prewarmed = next_count(self.stats.prewarmed);
            assert(self.counts() == counts_after(old(self).counts(), i + 1));
            i = i + 1;
        }
        Ok(())
    }

    /// What it did so far.
    pub fn stats(&self) -> (s: PagerStatsSnapshot)
        ensures
            s.faults == self.counts().faults,
            s.prewarmed == self.counts().prewarmed,
            s.port_reinstalls == self.counts().port_reinstalls,
            s.forwarded_exceptions == self.counts().forwarded_exceptions,
    {
        self.stats.snapshot()
    }

    /// Asks it to end.
    pub fn request_shutdown(&mut self)
        ensures
            final(self).ending(),
            final(self).pages_from() == old(self).pages_from(),
            final(self).prewarm_list() == old(self).prewarm_list(),
            final(self).interval() == old(self).interval(),
            final(self).regions() == old(self).regions(),
            final(self).counts() == old(self).counts(),
    {
        self.shutdown = true;
    }

    /// Whether it was asked to end.
    pub fn is_shutting_down(&self) -> (b: bool)
        ensures
            b == self.ending(),
    {
        self.shutdown
    }

    /// How often it looks whether it is still in charge, in milliseconds.
    pub fn poll_interval_ms(&self) -> (n: u64)
        ensures
            n == self.interval(),
    {
        self.config.poll_interval_ms
    }

    /// Counts that it took charge again.
    pub fn record_port_reinstall(&mut self)
        ensures
            final(self).same_setup(old(self)),
            final(self).counts() == (PagerStats {
                port_reinstalls: counted(old(self).counts().port_reinstalls, 1),
                ..old(self).counts()
            }),
    {
        self.stats.port_reinstalls = next_count(self.stats.port_reinstalls);
    }

    /// Counts a fault that it passed on.
    pub fn record_forwarded(&mut self)
        ensures
            final(self).same_setup(old(self)),
            final(self).counts() == (PagerStats {
                forwarded_exceptions: counted(old(self).counts().forwarded_exceptions, 1),
                ..old(self).counts()
            }),
    {
        self.stats.forwarded_exceptions = next_count(self.stats.forwarded_exceptions);
    }
}

/// The source gave `r` for the page that holds `ipa`.
pub open spec fn fetched<S: PageSource>(
    source: S,
    ipa: u64,
    page_size: u64,
    r: Result<Vec<u8>, PageSourceError>,
) -> bool {
    call_ensures(
        S::fetch,
        (&source, &PageRequest { ipa: page_start(ipa, page_size), page_size }),
        r,
    )
}

/// The source gave bytes for the page of the host that holds `ipa`.
pub open spec fn page_given<S: PageSource>(source: S, ipa: u64) -> bool {
    exists|bytes: Vec<u8>| #[trigger]
        fetched(source, ipa, 16384, Ok::<Vec<u8>, PageSourceError>(bytes))
}

/// The counts after `n` pages were fetched ahead.
pub open spec fn counts_after(c: PagerStats, n: int) -> PagerStats {
    PagerStats { faults: counted(c.faults, n), prewarmed: counted(c.prewarmed, n), ..c }
}

/// Who handles a class of faults: which classes, and whom they go to.
#[derive(Clone, Copy, Debug, PartialEq, Eq, Structural)]
pub struct ExceptionPort {
    pub mask: u32,
    pub handler: u32,
}

/// Whether a port of another handler has a class of `mask`.
pub open spec fn taken_over(p: ExceptionPort, mask: u32, ours: u32) -> bool {
    p.mask & mask != 0 && p.handler != ours
}

/// Whether someone else took over faults of the classes in `mask`, so that the pager has
/// to take charge again.
pub fn has_drifted(ports: &[ExceptionPort], mask: u32, ours: u32) -> (b: bool)
    ensures
        b == exists|i: int| 0 <= i < ports@.len() && taken_over(#[trigger] ports@[i], mask, ours),
{
    let mut i: usize = 0;
    while i < ports.len()
        invariant
            i <= ports@.len(),
            forall|k: int| 0 <= k < i ==> !taken_over(#[trigger] ports@[k], mask, ours),
        decreases ports@.len() - i,
    {
        let p: ExceptionPort = ports[i];
        if p.mask & mask != 0 && p.handler != ours {
            assert(taken_over(ports@[i as int], mask, ours));
            return true;
        }
        i = i + 1;
    }
    false
}

/// How long a fault is waited for, in milliseconds.
pub fn receive_timeout_ms(poll_interval_ms: u64) -> (n: u32)
    ensures
        n == if poll_interval_ms > u32::MAX {
            u32::MAX
        } else {
            poll_interval_ms as u32
        },
{
    if poll_interval_ms > u32::MAX as u64 {
        u32::MAX
    } else {
        poll_interval_ms as u32
    }
}

/// Registering a region never takes an address out of another one.
pub proof fn regions_only_grow(regions: Map<u64, u64>, base: u64, size: u64, ipa: u64)
    requires
        in_regions(regions, ipa),
        !regions.contains_key(base),
    ensures
        in_regions(regions.insert(base, size), ipa),
{
    let b = choose|b: u64| #[trigger] regions.contains_key(b) && in_region(b, regions[b], ipa);
    assert(regions.insert(base, size).contains_key(b));
}

/// An address in a registered region is served.
pub proof fn registered_region_is_served(regions: Map<u64, u64>, base: u64, size: u64, ipa: u64)
    requires
        in_region(base, size, ipa),
    ensures
        in_regions(regions.insert(base, size), ipa),
{
    assert(regions.insert(base, size).contains_key(base));
}

/// A page starts at a multiple of its size, and what is looked for lies in it.
pub proof fn pages_start_at_multiples(at: u64, page_size: u64)
    requires
        page_size > 0,
    ensures
        page_start(at, page_size) % page_size == 0,
        page_start(at, page_size) <= at < page_start(at, page_size) + page_size,
{
    let x = at as int;
    let d = page_size as int;
    vstd::arithmetic::div_mod::lemma_mod_bound(x, d);
    vstd::arithmetic::div_mod::lemma_fundamental_div_mod(x, d);
    vstd::arithmetic::div_mod::lemma_mod_multiples_basic(x / d, d);
    assert(x - x % d == (x / d) * d) by (nonlinear_arith)
        requires
            x == d * (x / d) + x % d,
    ;
    assert(x % d <= x) by (nonlinear_arith)
        requires
            x == d * (x / d) + x % d,
            d > 0,
            x >= 0,
    {
        assert(x / d >= 0);
    }
}

/// An address is served exactly if it lies in one of the regions: from its base up to, not
/// including, its end.
pub proof fn served_addresses(regions: Map<u64, u64>, ipa: u64)
    requires
        forall|base: u64| #[trigger]
            regions.contains_key(base) ==> base + regions[base] <= u64::MAX,
    ensures
        in_regions(regions, ipa) <==> exists|base: u64| #[trigger]
            regions.contains_key(base) && base <= ipa < base + regions[base],
{
    if in_regions(regions, ipa) {
        let b = choose|b: u64| #[trigger] regions.contains_key(b) && in_region(b, regions[b], ipa);
        assert(regions.contains_key(b) && b <= ipa < b + regions[b]);
    }
    if exists|base: u64| #[trigger]
        regions.contains_key(base) && base <= ipa < base + regions[base] {
        let b = choose|b: u64| #[trigger] regions.contains_key(b) && b <= ipa < b + regions[b];
        assert(regions.contains_key(b) && in_region(b, regions[b], ipa));
    }
}

/// A region that would go over the end of the address space ends with it, short of the very
/// last address.
pub proof fn regions_end_with_the_address_space(base: u64, size: u64, ipa: u64)
    requires
        base + size > u64::MAX,
    ensures
        in_region(base, size, ipa) <==> base <= ipa && ipa != 0xFFFF_FFFF_FFFF_FFFF,
{
}

/// Counts go up one at a time and start over at the end.
pub proof fn counts_go_up(c: u64, n: int)
    requires
        0 <= n,
        c + n <= u64::MAX,
    ensures
        counted(c, n) == c + n,
        counted(0xFFFF_FFFF_FFFF_FFFF, 1) == 0,
{
}

/// A request is sixteen bytes: those of the address and then those of the size of the page.
pub proof fn requests_are_address_and_size(req: PageRequest)
    ensures
        request_bytes(req).len() == 16,
        request_bytes(req).take(8) == wire::le64_bytes(req.ipa),
        request_bytes(req).skip(8) == wire::le64_bytes(req.page_size),
{
    assert(request_bytes(req).take(8) =~= wire::le64_bytes(req.ipa));
    assert(request_bytes(req).skip(8) =~= wire::le64_bytes(req.page_size));
}

/// Someone else took over exactly if a port that is not the pager's own has a class of
/// faults in common with it.
pub proof fn foreign_ports_take_over(p: ExceptionPort, mask: u32, ours: u32)
    ensures
        taken_over(p, mask, ours) ==> p.handler != ours,
        p.handler != ours && p.mask & mask != 0 ==> taken_over(p, mask, ours),
        p.mask & mask == 0 ==> !taken_over(p, mask, ours),
{
}

/// A page that is fetched ahead counts as a fault and as fetched ahead; the other counts
/// stay.
pub proof fn pages_fetched_ahead_count_twice(c: PagerStats, n: int)
    requires
        0 <= n,
        c.faults + n <= u64::MAX,
        c.prewarmed + n <= u64::MAX,
    ensures
        counts_after(c, n).faults == c.faults + n,
        counts_after(c, n).prewarmed == c.prewarmed + n,
        counts_after(c, n).port_reinstalls == c.port_reinstalls,
        counts_after(c, n).forwarded_exceptions == c.forwarded_exceptions,
        no_stats().faults == 0 && no_stats().prewarmed == 0 && no_stats().port_reinstalls == 0
            && no_stats().forwarded_exceptions == 0,
{
}

} // verus!
