//! An interface of the framework: how it is asked for, what its answer makes of it, and
//! how its traffic is counted.

use vstd::prelude::*;
use vstd::string::*;

use crate::net::sys::{self, VmnetReturn, VMNET_SUCCESS};
use crate::text::{self, chars_of, push_decimal};

verus! {

/// Most frames that are read or written at a time.
pub const BATCH: usize = 32;

/// The frame size that is taken when the framework names none that fits.
pub const DEFAULT_MTU: u32 = 1500;

/// The packet size that is taken when the framework names none that fits.
pub const DEFAULT_MAX_PACKET_SIZE: u32 = 1518;

/// What passed an interface since it was started.
#[derive(Clone, Copy, Debug, PartialEq, Eq, Structural)]
pub struct IfaceStats {
    pub rx_bytes: u64,
    pub tx_bytes: u64,
    pub rx_frames: u64,
    pub tx_frames: u64,
}

impl Default for IfaceStats {
    fn default() -> (s: Self)
        ensures
            s == (IfaceStats { rx_bytes: 0, tx_bytes: 0, rx_frames: 0, tx_frames: 0 }),
    {
        IfaceStats { rx_bytes: 0, tx_bytes: 0, rx_frames: 0, tx_frames: 0 }
    }
}

/// What can go wrong with an interface.
#[derive(Debug)]
#[non_exhaustive]
pub enum InnerError {
    /// No queue for its callbacks could be made.
    DispatchQueue(std::io::Error),
    StartFailed { code: VmnetReturn },
    StopFailed { code: VmnetReturn },
    ReadFailed { code: VmnetReturn },
    WriteFailed { code: VmnetReturn },
    /// The framework did not answer in time.
    StartTimeout { timeout_ms: u64 },
    /// The framework's answer lacks a field.
    MissingField { field: &'static str },
}

/// The message of an error, where `detail` is the text of the operating-system error that
/// it carries, if it carries one.
pub open spec fn inner_message(e: InnerError, detail: Seq<char>) -> Seq<char> {
    match e {
        InnerError::DispatchQueue(_) => "dispatch queue allocation failed: "@ + detail,
        InnerError::StartFailed { code } => "vmnet_start_interface failed: code="@ + sys::name_of(
            code,
        ),
        InnerError::StopFailed { code } => "vmnet_stop_interface failed: code="@ + sys::name_of(
            code,
        ),
        InnerError::ReadFailed { code } => "vmnet_read failed: code="@ + sys::name_of(code),
        InnerError::WriteFailed { code } => "vmnet_write failed: code="@ + sys::name_of(code),
        InnerError::StartTimeout { timeout_ms } => "vmnet_start_interface timed out after "@
            + text::decimal(timeout_ms as nat) + " ms"@,
        InnerError::MissingField { field } => {
            "vmnet returned an incomplete parameter dictionary: missing "@ + field@
        },
    }
}

fn joined(start: &str, end: &str) -> (s: String)
    ensures
        s@ == start@ + end@,
{
    let mut s = String::from_str(start);
    s.append(end);
    s
}

impl InnerError {
    /// The message of the error, with `detail` for the text of the operating-system error
    /// that it carries.
    pub fn message_with(&self, detail: &str) -> (s: String)
        ensures
            s@ == inner_message(*self, detail@),
    {
        match self {
            InnerError::DispatchQueue(_) => joined("dispatch queue allocation failed: ", detail),
            InnerError::StartFailed { code } => joined(
                "vmnet_start_interface failed: code=",
                code.name(),
            ),
            InnerError::StopFailed { code } => joined(
                "vmnet_stop_interface failed: code=",
                code.name(),
            ),
            InnerError::ReadFailed { code } => joined("vmnet_read failed: code=", code.name()),
            InnerError::WriteFailed { code } => joined("vmnet_write failed: code=", code.name()),
            InnerError::StartTimeout { timeout_ms } => {
                let mut s = String::from_str("vmnet_start_interface timed out after ");
                push_decimal(&mut s, *timeout_ms);
                s.append(" ms");
                s
            },
            InnerError::MissingField { field } => joined(
                "vmnet returned an incomplete parameter dictionary: missing ",
                field,
            ),
        }
    }
}

/// How an interface is asked for.
#[derive(Clone, Debug)]
pub struct StartParams {
    pub iface_id: String,
    /// The number of the operating mode.
    pub mode: u64,
    pub bridged_iface_name: Option<String>,
    pub mtu: Option<u32>,
    pub start_timeout_ms: u64,
    pub enable_isolation: bool,
}

/// What is said to the framework of an interface that is asked for.
#[derive(Clone, Debug, PartialEq, Eq)]
pub enum DescriptorEntry {
    OperationMode(u64),
    InterfaceId([u8; 16]),
    Mtu(u64),
    SharedInterfaceName(String),
    EnableIsolation(bool),
}

/// The bytes of the name-based UUID, by SHA-1, of a name among the object identifiers.
pub uninterp spec fn oid_uuid(name: Seq<u8>) -> Seq<u8>;

/// `uuid::Uuid::new_v5`, with the namespace of object identifiers, gives the sixteen bytes
/// of a UUID that depend on the name alone. They carry version five and the variant of
/// RFC 4122.
#[verifier::external_body]
fn uuid_v5(name: &[u8]) -> (b: [u8; 16])
    ensures
        b@ == oid_uuid(name@),
        b@.len() == 16,
        b@[6] / 16 == 5,
        b@[8] / 64 == 2,
{
    *uuid::Uuid::new_v5(&uuid::Uuid::NAMESPACE_OID, name).as_bytes()
}

/// The identity of an interface for the framework: a name-based UUID of its name.
pub fn iface_uuid_for(iface_id: &str) -> (b: [u8; 16])
    ensures
        b@ == oid_uuid(vstd::utf8::encode_utf8(iface_id@)),
        b@[6] / 16 == 5,
        b@[8] / 64 == 2,
{
    uuid_v5(iface_id.as_bytes())
}

/// Whether the entries ask for the interface as `p` says: the mode and the identity, the
/// frame size and the interface of the host if they are given, and whether guests are kept
/// apart, in this order.
pub open spec fn describes(d: Seq<DescriptorEntry>, p: StartParams) -> bool {
    let mtu_len: int = if p.mtu is Some {
        1
    } else {
        0
    };
    let name_len: int = if p.bridged_iface_name is Some {
        1
    } else {
        0
    };
    &&& d.len() == 3 + mtu_len + name_len
    &&& d[0] == DescriptorEntry::OperationMode(p.mode)
    &&& d[1] matches DescriptorEntry::InterfaceId(id) && id@ == oid_uuid(
        vstd::utf8::encode_utf8(p.iface_id@),
    )
    &&& p.mtu matches Some(mtu) ==> d[2] == DescriptorEntry::Mtu(mtu as u64)
    &&& p.bridged_iface_name matches Some(name) ==> (d[2 + mtu_len]
        matches DescriptorEntry::SharedInterfaceName(n) && n@ == name@)
    &&& d[2 + mtu_len + name_len] == DescriptorEntry::EnableIsolation(p.enable_isolation)
}

/// What is said to the framework of the interface that `p` asks for.
pub fn build_descriptor(p: &StartParams) -> (d: Vec<DescriptorEntry>)
    ensures
        describes(d@, *p),
{
    let mut d: Vec<DescriptorEntry> = Vec::new();
    d.push(DescriptorEntry::OperationMode(p.mode));
    d.push(DescriptorEntry::InterfaceId(iface_uuid_for(p.iface_id.as_str())));
    if let Some(mtu) = p.mtu {
        d.push(DescriptorEntry::Mtu(mtu as u64));
    }
    if let Some(name) = &p.bridged_iface_name {
        d.push(DescriptorEntry::SharedInterfaceName(name.clone()));
    }
    d.push(DescriptorEntry::EnableIsolation(p.enable_isolation));
    d
}

/// The label of the queue for the callbacks of an interface.
pub fn queue_label(iface_id: &str) -> (s: String)
    ensures
        s@ == "squib-net."@ + iface_id@,
{
    joined("squib-net.", iface_id)
}

/// How long the framework's answer is waited for, in nanoseconds; `None` for ever.
pub fn wait_budget_ns(start_timeout_ms: u64) -> (r: Option<u64>)
    ensures
        match r {
            None => start_timeout_ms == 0,
            Some(ns) => start_timeout_ms > 0 && ns == (if start_timeout_ms * 1_000_000 > u64::MAX {
                u64::MAX as int
            } else {
                start_timeout_ms * 1_000_000
            }),
        },
{
    if start_timeout_ms == 0 {
        None
    } else {
        match start_timeout_ms.checked_mul(1_000_000) {
            Some(ns) => Some(ns),
            None => Some(u64::MAX),
        }
    }
}

/// What the framework says of an interface that it started.
#[derive(Debug)]
pub struct StartReply {
    pub mtu: u64,
    pub max_packet_size: u64,
    /// Its address on the host's side, as text.
    pub mac: Option<String>,
}

/// What became of asking for an interface.
#[derive(Debug)]
pub enum StartOutcome {
    /// The framework refused at once.
    NoHandle,
    /// It did not answer in time.
    TimedOut,
    /// It answered without saying anything.
    NoCallback,
    /// It answered.
    Answered { status: VmnetReturn, reply: Option<StartReply> },
}

/// The value of a digit of base sixteen.
pub open spec fn hex_digit(c: char) -> Option<nat> {
    if '0' <= c <= '9' {
        Some((c as u32 - '0' as u32) as nat)
    } else if 'a' <= c <= 'f' {
        Some((c as u32 - 'a' as u32 + 10) as nat)
    } else if 'A' <= c <= 'F' {
        Some((c as u32 - 'A' as u32 + 10) as nat)
    } else {
        None
    }
}

/// The value of digits of base sixteen.
pub open spec fn hex_value(s: Seq<char>) -> Option<nat>
    decreases s.len(),
{
    if s.len() == 0 {
        Some(0)
    } else {
        match (hex_value(s.drop_last()), hex_digit(s.last())) {
            (Some(v), Some(d)) => Some(v * 16 + d),
            _ => None,
        }
    }
}

/// The byte that `s` writes in base sixteen: digits, at least one, after an optional plus
/// sign.
pub open spec fn hex_byte(s: Seq<char>) -> Option<nat> {
    let digits = if s.len() > 0 && s[0] == '+' {
        s.drop_first()
    } else {
        s
    };
    if digits.len() == 0 {
        None
    } else {
        match hex_value(digits) {
            Some(v) if v <= 255 => Some(v),
            _ => None,
        }
    }
}

/// The first colon of `s` from a place on; its length if there is none.
pub open spec fn colon_at(s: Seq<char>, from: int) -> int
    decreases s.len() - from,
{
    if from >= s.len() || s[from] == ':' {
        from
    } else {
        colon_at(s, from + 1)
    }
}

/// The parts of `s` between colons, from a place on.
pub open spec fn parts_from(s: Seq<char>, from: int) -> Seq<Seq<char>>
    decreases s.len() - from,
{
    let i = colon_at(s, from);
    if i >= s.len() || i < from {
        seq![s.subrange(from, s.len() as int)]
    } else {
        seq![s.subrange(from, i)] + parts_from(s, i + 1)
    }
}

/// The address that `s` writes: six bytes in base sixteen between colons.
pub open spec fn mac_of(s: Seq<char>) -> Option<Seq<u8>> {
    let parts = parts_from(s, 0);
    if parts.len() == 6 && (forall|i: int| 0 <= i < 6 ==> hex_byte(#[trigger] parts[i]) is Some) {
        Some(Seq::new(6, |i: int| hex_byte(parts[i])->0 as u8))
    } else {
        None
    }
}

fn digit_of(c: char) -> (r: Option<u32>)
    ensures
        match r {
            Some(d) => hex_digit(c) == Some(d as nat) && d < 16,
            None => hex_digit(c) is None,
        },
{
    if '0' <= c && c <= '9' {
        Some(c as u32 - '0' as u32)
    } else if 'a' <= c && c <= 'f' {
        Some(c as u32 - 'a' as u32 + 10)
    } else if 'A' <= c && c <= 'F' {
        Some(c as u32 - 'A' as u32 + 10)
    } else {
        None
    }
}

proof fn hex_value_grows(s: Seq<char>, n: int)
    requires
        0 <= n <= s.len(),
    ensures
        hex_value(s) is Some ==> hex_value(s.take(n)) is Some && hex_value(s.take(n))->0
            <= hex_value(s)->0,
    decreases s.len() - n,
{
    if n == s.len() {
        assert(s.take(n) =~= s);
    } else {
        hex_value_grows(s, n + 1);
        assert(s.take(n + 1).drop_last() =~= s.take(n));
    }
}

fn byte_of(s: &[char]) -> (r: Option<u8>)
    ensures
        match r {
            Some(b) => hex_byte(s@) == Some(b as nat),
            None => hex_byte(s@) is None,
        },
{
    let digits: &[char] = if s.len() > 0 && s[0] == '+' {
        vstd::slice::slice_subrange(s, 1, s.len())
    } else {
        s
    };
    assert(s@.len() > 0 && s@[0] == '+' ==> digits@ =~= s@.drop_first());
    if digits.len() == 0 {
        return None;
    }
    let mut v: u32 = 0;
    let mut i: usize = 0;
    assert(digits@.take(0) =~= Seq::empty());
    while i < digits.len()
        invariant
            i <= digits@.len(),
            0 < digits@.len(),
            s@.len() > 0 && s@[0] == '+' ==> digits@ == s@.drop_first(),
            !(s@.len() > 0 && s@[0] == '+') ==> digits@ == s@,
            hex_value(digits@.take(i as int)) == Some(v as nat),
            v <= 255,
        decreases digits@.len() - i,
    {
        proof {
            assert(digits@.take(i + 1).drop_last() =~= digits@.take(i as int));
            hex_value_grows(digits@, i + 1);
        }
        match digit_of(digits[i]) {
            Some(d) => {
                v = v * 16 + d;
            },
            None => return None,
        }
        if v > 255 {
            return None;
        }
        i = i + 1;
    }
    assert(digits@.take(i as int) =~= digits@);
    Some(v as u8)
}

fn next_colon(s: &[char], from: usize) -> (i: usize)
    requires
        from <= s@.len(),
    ensures
        i == colon_at(s@, from as int),
        from <= i <= s@.len(),
        i < s@.len() ==> s@[i as int] == ':',
{
    let mut i: usize = from;
    while i < s.len() && s[i] != ':'
        invariant
            from <= i <= s@.len(),
            colon_at(s@, from as int) == colon_at(s@, i as int),
        decreases s@.len() - i,
    {
        i = i + 1;
    }
    i
}

/// Reads an address such as `06:00:ac:10:00:02`.
pub fn parse_mac_string(raw: &str) -> (r: Option<[u8; 6]>)
    ensures
        match r {
            Some(mac) => mac_of(raw@) == Some(mac@),
            None => mac_of(raw@) is None,
        },
{
    let chars: Vec<char> = chars_of(raw);
    let s: &[char] = chars.as_slice();
    let ghost parts = parts_from(s@, 0);
    let mut out: [u8; 6] = [0u8; 6];
    let mut start: usize = 0;
    let mut n: usize = 0;
    let mut last: bool = false;
    while !last
        invariant
            s@ == raw@,
            parts == parts_from(s@, 0),
            n <= 6,
            !last ==> start <= s@.len() && parts == parts.take(n as int) + parts_from(
                s@,
                start as int,
            ),
            last ==> parts.len() == n,
            n <= parts.len(),
            forall|k: int|
                0 <= k < n ==> hex_byte(#[trigger] parts[k]) == Some(out@[k] as nat),
        decreases s@.len() - start + if last {
            0int
        } else {
            1int
        },
    {
        let end: usize = next_colon(s, start);
        let ghost tail = parts_from(s@, start as int);
        proof {
            assert(tail[0] == s@.subrange(start as int, end as int));
            assert(parts[n as int] == tail[0]);
        }
        if n == 6 {
            assert(parts.len() > 6);
            return None;
        }
        match byte_of(vstd::slice::slice_subrange(s, start, end)) {
            Some(b) => {
                out[n] = b;
            },
            None => {
                assert(hex_byte(parts[n as int]) is None);
                return None;
            },
        }
        n = n + 1;
        if end == s.len() {
            assert(tail.len() == 1);
            last = true;
        } else {
            start = end + 1;
            assert(parts =~= parts.take(n as int) + parts_from(s@, start as int));
        }
    }
    if n != 6 {
        return None;
    }
    assert(out@ =~= mac_of(raw@)->0);
    Some(out)
}

/// Why asking for an interface failed, if it did.
pub open spec fn start_fault(outcome: StartOutcome, timeout_ms: u64) -> Option<InnerError> {
    let failed = Some(InnerError::StartFailed { code: VmnetReturn::Failure });
    match outcome {
        StartOutcome::NoHandle => failed,
        StartOutcome::TimedOut => Some(InnerError::StartTimeout { timeout_ms }),
        StartOutcome::NoCallback => failed,
        StartOutcome::Answered { status, reply } => if status != VmnetReturn::Success {
            Some(InnerError::StartFailed { code: status })
        } else {
            match reply {
                None => failed,
                Some(r) => match r.mac {
                    None => Some(InnerError::MissingField { field: "vmnet_mac_address_key" }),
                    Some(mac) => if mac_of(mac@) is None {
                        Some(InnerError::MissingField { field: "vmnet_mac_address_key (parse)" })
                    } else {
                        None
                    },
                },
            }
        },
    }
}

/// A number as a size, or the usual size if it is too large.
pub open spec fn size_or(n: u64, usual: u32) -> u32 {
    if n <= u32::MAX {
        n as u32
    } else {
        usual
    }
}

/// The frame size that an answer gives; the usual one if it gives none, which reads as
/// zero, or one that is too large.
pub open spec fn frame_size(n: u64) -> u32 {
    if n == 0 {
        DEFAULT_MTU
    } else {
        size_or(n, DEFAULT_MTU)
    }
}

/// The sum of the first `n` numbers.
pub open spec fn total(sizes: Seq<usize>, n: int) -> int
    decreases n,
{
    if n <= 0 {
        0
    } else {
        total(sizes, n - 1) + sizes[n - 1]
    }
}

/// A count that stops at its largest value.
pub open spec fn capped(n: int) -> u64 {
    if n > u64::MAX {
        u64::MAX
    } else {
        n as u64
    }
}

/// How many of `n` frames passed when the framework reports `count`.
pub open spec fn delivered(count: i32, n: int) -> int {
    if count < 0 {
        0
    } else if count > n {
        n
    } else {
        count as int
    }
}

fn plus(a: u64, b: u64) -> (c: u64)
    ensures
        c == capped(a + b),
{
    match a.checked_add(b) {
        Some(c) => c,
        None => u64::MAX,
    }
}

fn capped_total(sizes: &[usize], n: usize) -> (t: u64)
    requires
        n <= sizes@.len(),
    ensures
        t == capped(total(sizes@, n as int)),
{
    let mut t: u64 = 0;
    let mut i: usize = 0;
    while i < n
        invariant
            i <= n <= sizes@.len(),
            t == capped(total(sizes@, i as int)),
            total(sizes@, i as int) >= 0,
        decreases n - i,
    {
        t = plus(t, sizes[i] as u64);
        i = i + 1;
    }
    t
}

fn passed(count: i32, n: usize) -> (k: usize)
    ensures
        k == delivered(count, n as int),
{
    if count < 0 {
        0
    } else if count as u64 > n as u64 {
        n
    } else {
        count as usize
    }
}

/// An interface that was started.
#[derive(Debug)]
pub struct Inner {
    live: bool,
    mtu: u32,
    max_packet_size: u32,
    mac: [u8; 6],
    stats: IfaceStats,
}

/// What is known of an interface.
pub struct InnerState {
    /// Whether it was not yet stopped.
    pub live: bool,
    pub mtu: u32,
    pub max_packet_size: u32,
    pub mac: Seq<u8>,
    pub stats: IfaceStats,
}

impl View for Inner {
    type V = InnerState;

    closed spec fn view(&self) -> InnerState {
        InnerState {
            live: self.live,
            mtu: self.mtu,
            max_packet_size: self.max_packet_size,
            mac: self.mac@,
            stats: self.stats,
        }
    }
}

impl Inner {
    /// Makes an interface of what became of asking for it.
    pub fn start(params: &StartParams, outcome: StartOutcome) -> (r: Result<Self, InnerError>)
        ensures
            match r {
                Err(e) => start_fault(outcome, params.start_timeout_ms) == Some(e),
                Ok(i) => {
                    &&& start_fault(outcome, params.start_timeout_ms) is None
                    &&& outcome matches StartOutcome::Answered { reply: Some(reply), .. } && {
                        &&& i@.mtu == frame_size(reply.mtu)
                        &&& i@.max_packet_size == size_or(
                            reply.max_packet_size,
                            DEFAULT_MAX_PACKET_SIZE,
                        )
                        &&& reply.mac matches Some(mac) && mac_of(mac@) == Some(i@.mac)
                    }
                    &&& i@.live
                    &&& i@.stats == (IfaceStats {
                        rx_bytes: 0,
                        tx_bytes: 0,
                        rx_frames: 0,
                        tx_frames: 0,
                    })
                },
            },
    {
        let (status, reply) = match outcome {
            StartOutcome::NoHandle => return Err(
                InnerError::StartFailed { code: VmnetReturn::Failure },
            ),
            StartOutcome::TimedOut => return Err(
                InnerError::StartTimeout { timeout_ms: params.start_timeout_ms },
            ),
            StartOutcome::NoCallback => return Err(
                InnerError::StartFailed { code: VmnetReturn::Failure },
            ),
            StartOutcome::Answered { status, reply } => (status, reply),
        };
        if status != VmnetReturn::Success {
            return Err(InnerError::StartFailed { code: status });
        }
        let reply: StartReply = match reply {
            Some(reply) => reply,
            None => return Err(InnerError::StartFailed { code: VmnetReturn::Failure }),
        };
        let mtu: u32 = if reply.mtu != 0 && reply.mtu <= u32::MAX as u64 {
            reply.mtu as u32
        } else {
            DEFAULT_MTU
        };
        let max_packet_size: u32 = if reply.max_packet_size <= u32::MAX as u64 {
            reply.max_packet_size as u32
        } else {
            DEFAULT_MAX_PACKET_SIZE
        };
        match reply.mac {
            None => Err(InnerError::MissingField { field: "vmnet_mac_address_key" }),
            Some(text) => match parse_mac_string(text.as_str()) {
                None => Err(InnerError::MissingField { field: "vmnet_mac_address_key (parse)" }),
                Some(mac) => Ok(
                    Inner { live: true, mtu, max_packet_size, mac, stats: IfaceStats::default() },
                ),
            },
        }
    }

    /// Whether the framework has to be asked to stop the interface.
    pub fn is_live(&self) -> (b: bool)
        ensures
            b == self@.live,
    {
        self.live
    }

    /// Stops the interface, with the framework's answer to that. It is stopped whatever
    /// the answer. One that is stopped already stays so, and the answer does not count.
    pub fn stop(&mut self, rc: u32) -> (r: Result<(), InnerError>)
        ensures
            final(self)@ == (InnerState { live: false, ..old(self)@ }),
            match r {
                Ok(()) => !old(self)@.live || rc == VMNET_SUCCESS,
                Err(e) => old(self)@.live && rc != VMNET_SUCCESS && e == (InnerError::StopFailed {
                    code: sys::answer_of(rc),
                }),
            },
    {
        let was_live: bool = self.live;
        self.live = false;
        if was_live && rc != VMNET_SUCCESS {
            return Err(InnerError::StopFailed { code: VmnetReturn::from_raw(rc) });
        }
        Ok(())
    }

    /// How many frames are asked for at once, with room for `frames` frames and their
    /// sizes; none once it was stopped.
    pub fn read_batch(&self, frames: usize, sizes: usize) -> (n: usize)
        ensures
            n == if !self@.live {
                0
            } else if frames <= sizes && frames <= BATCH {
                frames
            } else if sizes <= BATCH {
                sizes
            } else {
                BATCH
            },
            self@.live && frames >= 32 && sizes >= 32 ==> n == 32,
    {
        if !self.live {
            0
        } else if frames <= sizes && frames <= BATCH {
            frames
        } else if sizes <= BATCH {
            sizes
        } else {
            BATCH
        }
    }

    /// How many of `frames` frames are written at once; none once it was stopped.
    pub fn write_batch(&self, frames: usize) -> (n: usize)
        ensures
            n == if !self@.live {
                0
            } else if frames <= BATCH {
                frames
            } else {
                BATCH
            },
            self@.live && frames >= 32 ==> n == 32,
    {
        if !self.live {
            0
        } else if frames <= BATCH {
            frames
        } else {
            BATCH
        }
    }

    /// Takes the framework's answer to a read of `n` frames: its number, how many frames
    /// it says it gave, and their sizes. Gives how many frames there are, and counts them.
    pub fn read_into_sized(&mut self, n: usize, rc: u32, count: i32, sizes: &[usize]) -> (r: Result<
        usize,
        InnerError,
    >)
        requires
            n <= sizes@.len(),
        ensures
            match r {
                Ok(k) => {
                    &&& rc == VMNET_SUCCESS
                    &&& k == delivered(count, n as int)
                    &&& final(self)@ == (InnerState {
                        stats: IfaceStats {
                            rx_bytes: capped(
                                old(self)@.stats.rx_bytes + capped(total(sizes@, k as int)),
                            ),
                            rx_frames: capped(old(self)@.stats.rx_frames + k),
                            ..old(self)@.stats
                        },
                        ..old(self)@
                    })
                },
                Err(e) => {
                    &&& rc != VMNET_SUCCESS
                    &&& final(self)@ == old(self)@
                    &&& e == (InnerError::ReadFailed { code: sys::answer_of(rc) })
                },
            },
    {
        if rc != VMNET_SUCCESS {
            return Err(InnerError::ReadFailed { code: VmnetReturn::from_raw(rc) });
        }
        let k: usize = passed(count, n);
        let bytes: u64 = capped_total(sizes, k);
        self.stats.rx_bytes = plus(self.stats.rx_bytes, bytes);
        self.stats.rx_frames = plus(self.stats.rx_frames, k as u64);
        Ok(k)
    }

    /// Takes the framework's answer to a write of `n` frames: its number and how many
    /// frames it says it took; `sizes` are those of the frames. Gives how many frames were
    /// written, and counts them.
    pub fn write_frames(&mut self, n: usize, rc: u32, count: i32, sizes: &[usize]) -> (r: Result<
        usize,
        InnerError,
    >)
        requires
            n <= sizes@.len(),
        ensures
            match r {
                Ok(k) => {
                    &&& rc == VMNET_SUCCESS
                    &&& k == delivered(count, n as int)
                    &&& final(self)@ == (InnerState {
                        stats: IfaceStats {
                            tx_bytes: capped(
                                old(self)@.stats.tx_bytes + capped(total(sizes@, k as int)),
                            ),
                            tx_frames: capped(old(self)@.stats.tx_frames + k),
                            ..old(self)@.stats
                        },
                        ..old(self)@
                    })
                },
                Err(e) => {
                    &&& rc != VMNET_SUCCESS
                    &&& final(self)@ == old(self)@
                    &&& e == (InnerError::WriteFailed { code: sys::answer_of(rc) })
                },
            },
    {
        if rc != VMNET_SUCCESS {
            return Err(InnerError::WriteFailed { code: VmnetReturn::from_raw(rc) });
        }
        let k: usize = passed(count, n);
        let bytes: u64 = capped_total(sizes, k);
        self.stats.tx_bytes = plus(self.stats.tx_bytes, bytes);
        self.stats.tx_frames = plus(self.stats.tx_frames, k as u64);
        Ok(k)
    }

    /// The frame size.
    pub fn mtu(&self) -> (n: u32)
        ensures
            n == self@.mtu,
    {
        self.mtu
    }

    /// The packet size.
    pub fn max_packet_size(&self) -> (n: u32)
        ensures
            n == self@.max_packet_size,
    {
        self.max_packet_size
    }

    /// Its address on the host's side.
    pub fn host_mac(&self) -> (m: [u8; 6])
        ensures
            m@ == self@.mac,
    {
        self.mac
    }

    /// What passed it so far.
    pub fn stats_snapshot(&self) -> (s: IfaceStats)
        ensures
            s == self@.stats,
    {
        self.stats
    }
}

/// Counts never go down, and stop at their largest value.
pub proof fn counts_only_grow(a: u64, n: int)
    requires
        n >= 0,
    ensures
        a <= capped(a + n),
        capped(a + n) <= a + n,
{
}

/// Whether the character stands for the digit of base sixteen, in either case.
pub open spec fn writes_digit(c: char, d: int) -> bool {
    ||| 0 <= d <= 9 && c as int == 48 + d
    ||| 10 <= d <= 15 && (c as int == 87 + d || c as int == 55 + d)
}

/// The value of two digits of base sixteen.
proof fn two_digits(s: Seq<char>, high: int, low: int)
    requires
        s.len() == 2,
        writes_digit(s[0], high),
        writes_digit(s[1], low),
    ensures
        hex_byte(s) == Some((16 * high + low) as nat),
{
    reveal_with_fuel(hex_value, 3);
    assert(s.drop_last().drop_last().len() == 0);
}

proof fn part_of_two(s: Seq<char>, at: int)
    requires
        0 <= at,
        at + 2 <= s.len(),
        s[at] != ':',
        s[at + 1] != ':',
        at + 2 < s.len() ==> s[at + 2] == ':',
    ensures
        at + 2 == s.len() ==> parts_from(s, at) == seq![s.subrange(at, at + 2)],
        at + 2 < s.len() ==> parts_from(s, at) == seq![s.subrange(at, at + 2)] + parts_from(
            s,
            at + 3,
        ),
{
    reveal_with_fuel(colon_at, 4);
    assert(colon_at(s, at) == at + 2);
}

/// Six bytes of two digits each between colons are read as that address.
pub proof fn addresses_are_read(s: Seq<char>, digits: Seq<int>, mac: Seq<u8>)
    requires
        s.len() == 17,
        digits.len() == 12,
        mac.len() == 6,
        forall|i: int| 0 <= i < 5 ==> #[trigger] s[3 * i + 2] == ':',
        forall|i: int|
            0 <= i < 6 ==> writes_digit(#[trigger] s[3 * i], digits[2 * i]) && writes_digit(
                s[3 * i + 1],
                digits[2 * i + 1],
            ),
        forall|i: int|
            0 <= i < 6 ==> #[trigger] mac[i] == 16 * digits[2 * i] + digits[2 * i + 1],
    ensures
        mac_of(s) == Some(mac),
{
    let parts = parts_from(s, 0);
    assert(s[3 * 0int] == s[0] && s[3 * 1int] == s[3] && s[3 * 2int] == s[6] && s[3 * 3int] == s[9] && s[3 * 4int]
        == s[12] && s[3 * 5int] == s[15]);
    assert(s[3 * 0int + 2] == ':' && s[3 * 1int + 2] == ':' && s[3 * 2int + 2] == ':' && s[3 * 3int + 2] == ':'
        && s[3 * 4int + 2] == ':');
    part_of_two(s, 0);
    part_of_two(s, 3);
    part_of_two(s, 6);
    part_of_two(s, 9);
    part_of_two(s, 12);
    part_of_two(s, 15);
    assert(parts =~= seq![
        s.subrange(0, 2),
        s.subrange(3, 5),
        s.subrange(6, 8),
        s.subrange(9, 11),
        s.subrange(12, 14),
        s.subrange(15, 17),
    ]);
    assert forall|i: int| 0 <= i < 6 implies hex_byte(#[trigger] parts[i]) == Some(
        mac[i] as nat,
    ) by {
        assert(parts[i] =~= s.subrange(3 * i, 3 * i + 2));
        assert(writes_digit(s[3 * i], digits[2 * i]));
        two_digits(parts[i], digits[2 * i], digits[2 * i + 1]);
        assert(mac[i] == 16 * digits[2 * i] + digits[2 * i + 1]);
    }
    assert(mac_of(s)->0 =~= mac);
}

/// How many colons stand in `s` from a place on.
pub open spec fn colons(s: Seq<char>, from: int) -> nat
    decreases s.len() - from,
{
    if from < 0 || from >= s.len() {
        0
    } else if s[from] == ':' {
        1 + colons(s, from + 1)
    } else {
        colons(s, from + 1)
    }
}

proof fn colons_part(s: Seq<char>, from: int)
    requires
        0 <= from <= s.len(),
    ensures
        parts_from(s, from).len() == 1 + colons(s, from),
    decreases s.len() - from,
{
    if from < s.len() {
        colons_part(s, from + 1);
        if s[from] != ':' {
            assert(colon_at(s, from) == colon_at(s, from + 1));
            colon_is_ahead(s, from + 1);
            let i = colon_at(s, from);
            if i >= s.len() {
                assert(parts_from(s, from).len() == 1);
                assert(parts_from(s, from + 1).len() == 1);
            } else {
                assert(parts_from(s, from).len() == 1 + parts_from(s, i + 1).len());
                assert(parts_from(s, from + 1).len() == 1 + parts_from(s, i + 1).len());
            }
        }
    }
}

proof fn colon_is_ahead(s: Seq<char>, from: int)
    requires
        0 <= from <= s.len(),
    ensures
        from <= colon_at(s, from) <= s.len(),
    decreases s.len() - from,
{
    if from < s.len() && s[from] != ':' {
        colon_is_ahead(s, from + 1);
    }
}

/// A text with more or fewer than five colons is no address.
pub proof fn addresses_have_five_colons(s: Seq<char>)
    ensures
        mac_of(s) is Some ==> colons(s, 0) == 5,
{
    colons_part(s, 0);
}

/// A byte has at least one digit, may stand behind a plus sign, and is at most 255. A
/// character that is no digit makes it none.
pub proof fn bytes_in_base_sixteen(s: Seq<char>, c: char, d: int)
    ensures
        hex_byte(Seq::empty()) is None,
        writes_digit(c, d) ==> hex_byte(seq![c]) == Some(d as nat),
        s.len() > 0 && s[0] != '+' ==> hex_byte(seq!['+'] + s) == hex_byte(s),
        hex_byte(s) matches Some(v) ==> v <= 255,
        hex_digit(c) is None && hex_value(s) is Some ==> hex_value(s.push(c)) is None,
        writes_digit(c, d) && hex_value(s) is Some ==> hex_value(s.push(c)) == Some(
            (16 * hex_value(s)->0 + d) as nat,
        ),
        hex_digit(c) is Some <==> exists|e: int| writes_digit(c, e),
{
    reveal_with_fuel(hex_value, 2);
    assert((seq!['+'] + s).drop_first() =~= s);
    assert(s.push(c).drop_last() =~= s);
    assert(seq![c].drop_last() =~= Seq::<char>::empty());
    if hex_digit(c) is Some {
        assert(writes_digit(c, hex_digit(c)->0 as int));
    }
}

/// An interface comes of the answer of success with an address that can be read, and of
/// nothing else; each other outcome has its own error.
pub proof fn interfaces_come_of_success(outcome: StartOutcome, timeout_ms: u64)
    ensures
        start_fault(outcome, timeout_ms) is None <==> (outcome matches StartOutcome::Answered {
            status,
            reply,
        } && status == VmnetReturn::Success && reply is Some && reply->0.mac is Some && mac_of(
            reply->0.mac->0@,
        ) is Some),
        outcome is TimedOut ==> start_fault(outcome, timeout_ms) == Some(
            InnerError::StartTimeout { timeout_ms },
        ),
        outcome is NoHandle || outcome is NoCallback ==> start_fault(outcome, timeout_ms) == Some(
            InnerError::StartFailed { code: VmnetReturn::Failure },
        ),
        outcome matches StartOutcome::Answered { status, reply } ==> {
            &&& status != VmnetReturn::Success ==> start_fault(outcome, timeout_ms) == Some(
                InnerError::StartFailed { code: status },
            )
            &&& status == VmnetReturn::Success && reply is None ==> start_fault(outcome, timeout_ms)
                == Some(InnerError::StartFailed { code: VmnetReturn::Failure })
            &&& status == VmnetReturn::Success && reply is Some && start_fault(outcome, timeout_ms)
                is Some ==> start_fault(outcome, timeout_ms)->0 is MissingField
        },
{
}

/// Sizes are taken as they are given where they can be; a frame size of zero counts as not
/// given. The usual sizes are 1500 and 1518 bytes.
pub proof fn sizes_are_taken_as_given(n: u64)
    ensures
        1 <= n <= 0xFFFF_FFFF ==> frame_size(n) == n,
        n == 0 || n > 0xFFFF_FFFF ==> frame_size(n) == 1500,
        n <= 0xFFFF_FFFF ==> size_or(n, DEFAULT_MAX_PACKET_SIZE) == n,
        n > 0xFFFF_FFFF ==> size_or(n, DEFAULT_MAX_PACKET_SIZE) == 1518,
{
}

/// Of `n` frames as many passed as are reported, but not fewer than none nor more than all.
pub proof fn passed_frames_are_within_bounds(count: i32, n: int)
    requires
        n >= 0,
    ensures
        0 <= delivered(count, n) <= n,
        0 <= count <= n ==> delivered(count, n) == count,
        count > n ==> delivered(count, n) == n,
{
}

/// Each frame adds its own size to the bytes that passed.
pub proof fn bytes_add_up(sizes: Seq<usize>, n: int)
    requires
        0 <= n < sizes.len(),
    ensures
        total(sizes, 0) == 0,
        total(sizes, n + 1) - total(sizes, n) == sizes[n],
{
}

/// The framework is told of the mode, the identity and whether guests are kept apart in any
/// case, of the frame size and of an interface of the host exactly if they are given, and of
/// nothing else.
pub proof fn requests_say_what_is_given(d: Seq<DescriptorEntry>, p: StartParams)
    requires
        describes(d, p),
    ensures
        d.len() >= 3,
        d.first() == DescriptorEntry::OperationMode(p.mode),
        d[1] is InterfaceId && d[1]->InterfaceId_0@ == oid_uuid(
            vstd::utf8::encode_utf8(p.iface_id@),
        ),
        d.last() == DescriptorEntry::EnableIsolation(p.enable_isolation),
        p.mtu is None && p.bridged_iface_name is None <==> d.len() == 3,
        p.mtu is Some && p.bridged_iface_name is Some <==> d.len() == 5,
        p.mtu is Some ==> d[2] is Mtu && d[2]->Mtu_0 == p.mtu->0,
        p.bridged_iface_name is Some ==> d[d.len() - 2] is SharedInterfaceName && d[d.len()
            - 2]->SharedInterfaceName_0@ == p.bridged_iface_name->0@,
{
}

} // verus!
