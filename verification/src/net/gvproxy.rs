//! The helper process for networking in user space: what it may be started with, how
//! frames are laid out on its stream, and the queues on both sides.

use vstd::prelude::*;
use vstd::slice::slice_to_vec;
use vstd::string::*;

use crate::net::backend::{self, Frame};
use crate::text::{self, push_decimal};
use crate::wire::{self, push_bytes, read_be32, to_be32};

verus! {

/// Longest path of the helper, in bytes.
pub const PATH_MAX: usize = 1024;

/// Most extra arguments.
pub const MAX_EXTRA_ARGS: usize = 32;

/// Longest extra argument, in bytes.
pub const MAX_ARG_BYTES: usize = 512;

/// Longest frame that is taken from the helper, unless set otherwise.
pub const DEFAULT_MAX_FRAME_BYTES: usize = 65_536;

/// Most frames that wait for the guest.
pub const RX_QUEUE_CAP: usize = 256;

/// Most frames that wait for the helper.
pub const TX_QUEUE_CAP: usize = 256;

/// What can go wrong with the helper.
#[derive(Debug)]
#[non_exhaustive]
pub enum GvproxyError {
    SocketPair(std::io::Error),
    /// It could not be started; `path` is shown as text.
    Spawn { path: String, source: std::io::Error },
    InvalidBinaryPath { reason: &'static str },
    InvalidExtraArg { index: usize, reason: &'static str },
    Io(std::io::Error),
    FrameTooLarge { got: usize, cap: usize },
}

/// The message of an error, where `detail` is the text of the operating-system error that
/// it carries, if it carries one.
pub open spec fn gvproxy_message(e: GvproxyError, detail: Seq<char>) -> Seq<char> {
    match e {
        GvproxyError::SocketPair(_) => "socketpair failed: "@ + detail,
        GvproxyError::Spawn { path, .. } => "spawn gvproxy "@ + path@ + ": "@ + detail,
        GvproxyError::InvalidBinaryPath { reason } => "invalid gvproxy binary_path: "@ + reason@,
        GvproxyError::InvalidExtraArg { index, reason } => "invalid gvproxy extra arg #"@
            + text::decimal(index as nat) + ": "@ + reason@,
        GvproxyError::Io(_) => "gvproxy io error: "@ + detail,
        GvproxyError::FrameTooLarge { got, cap } => "gvproxy frame too large: "@ + text::decimal(
            got as nat,
        ) + " > "@ + text::decimal(cap as nat),
    }
}

impl GvproxyError {
    /// The message of the error, with `detail` for the text of the operating-system error
    /// that it carries.
    pub fn message_with(&self, detail: &str) -> (s: String)
        ensures
            s@ == gvproxy_message(*self, detail@),
    {
        let mut s = String::new();
        match self {
            GvproxyError::SocketPair(_) => {
                s.append("socketpair failed: ");
                s.append(detail);
            },
            GvproxyError::Spawn { path, .. } => {
                s.append("spawn gvproxy ");
                s.append(path.as_str());
                s.append(": ");
                s.append(detail);
            },
            GvproxyError::InvalidBinaryPath { reason } => {
                s.append("invalid gvproxy binary_path: ");
                s.append(reason);
            },
            GvproxyError::InvalidExtraArg { index, reason } => {
                s.append("invalid gvproxy extra arg #");
                push_decimal(&mut s, *index as u64);
                s.append(": ");
                s.append(reason);
            },
            GvproxyError::Io(_) => {
                s.append("gvproxy io error: ");
                s.append(detail);
            },
            GvproxyError::FrameTooLarge { got, cap } => {
                s.append("gvproxy frame too large: ");
                push_decimal(&mut s, *got as u64);
                s.append(" > ");
                push_decimal(&mut s, *cap as u64);
            },
        }
        assert(s@ =~= gvproxy_message(*self, detail@));
        s
    }
}

/// How the helper is started.
#[derive(Clone, Debug)]
pub struct GvproxyParams {
    /// The path of the helper, as bytes.
    pub binary_path: Vec<u8>,
    pub extra_args: Vec<String>,
    /// Longest frame that is taken from it.
    pub max_frame_bytes: usize,
}

impl GvproxyParams {
    /// The usual settings for the helper at `binary_path`.
    pub fn new(binary_path: &str) -> (p: Self)
        ensures
            p.binary_path@ == vstd::utf8::encode_utf8(binary_path@),
            p.extra_args@.len() == 0,
            p.max_frame_bytes == DEFAULT_MAX_FRAME_BYTES,
            p.max_frame_bytes == 65536,
    {
        GvproxyParams {
            binary_path: slice_to_vec(binary_path.as_bytes()),
            extra_args: Vec::new(),
            max_frame_bytes: DEFAULT_MAX_FRAME_BYTES,
        }
    }
}

/// What the filesystem says of a path.
#[derive(Clone, Copy, Debug, PartialEq, Eq, Structural)]
pub enum PathStat {
    /// It could not be looked at.
    Unreadable,
    /// A file.
    RegularFile,
    /// Something else.
    Other,
}

/// Why the path of the helper is refused by its looks, if it is.
pub open spec fn path_fault(path: Seq<u8>) -> Option<Seq<char>> {
    if path.len() == 0 {
        Some("must not be empty"@)
    } else if path.contains(0u8) {
        Some("must not contain NUL bytes"@)
    } else if path.len() > PATH_MAX {
        Some("exceeds PATH_MAX (1024 bytes)"@)
    } else {
        None
    }
}

/// Why the path of the helper is refused, if it is.
pub open spec fn binary_fault(path: Seq<u8>, stat: PathStat) -> Option<Seq<char>> {
    if path_fault(path) is Some {
        path_fault(path)
    } else {
        match stat {
            PathStat::Unreadable => Some("could not stat binary path"@),
            PathStat::Other => Some("not a regular file"@),
            PathStat::RegularFile => None,
        }
    }
}

fn has_zero(bytes: &[u8]) -> (b: bool)
    ensures
        b == bytes@.contains(0u8),
{
    let mut i: usize = 0;
    while i < bytes.len()
        invariant
            i <= bytes@.len(),
            forall|k: int| 0 <= k < i ==> #[trigger] bytes@[k] != 0,
        decreases bytes@.len() - i,
    {
        if bytes[i] == 0 {
            assert(bytes@.contains(bytes@[i as int]));
            return true;
        }
        i = i + 1;
    }
    false
}

/// Checks the path of the helper by its looks. What the filesystem says of it need be
/// asked only if this succeeds.
pub fn check_path(path: &[u8]) -> (r: Result<(), GvproxyError>)
    ensures
        match r {
            Ok(()) => path_fault(path@) is None,
            Err(GvproxyError::InvalidBinaryPath { reason }) => path_fault(path@) == Some(reason@),
            Err(_) => false,
        },
{
    if path.len() == 0 {
        return Err(GvproxyError::InvalidBinaryPath { reason: "must not be empty" });
    }
    if has_zero(path) {
        return Err(GvproxyError::InvalidBinaryPath { reason: "must not contain NUL bytes" });
    }
    if path.len() > PATH_MAX {
        return Err(GvproxyError::InvalidBinaryPath { reason: "exceeds PATH_MAX (1024 bytes)" });
    }
    Ok(())
}

/// Checks the path of the helper, with what the filesystem says of it.
pub fn validate_binary_path(path: &[u8], stat: PathStat) -> (r: Result<(), GvproxyError>)
    ensures
        match r {
            Ok(()) => binary_fault(path@, stat) is None,
            Err(GvproxyError::InvalidBinaryPath { reason }) => binary_fault(path@, stat) == Some(
                reason@,
            ),
            Err(_) => false,
        },
{
    match check_path(path) {
        Ok(()) => {},
        Err(e) => return Err(e),
    }
    match stat {
        PathStat::Unreadable => Err(
            GvproxyError::InvalidBinaryPath { reason: "could not stat binary path" },
        ),
        PathStat::Other => Err(GvproxyError::InvalidBinaryPath { reason: "not a regular file" }),
        PathStat::RegularFile => Ok(()),
    }
}

/// Why an argument is refused, if it is.
pub open spec fn arg_fault(arg: Seq<char>) -> Option<Seq<char>> {
    let bytes = vstd::utf8::encode_utf8(arg);
    if bytes.len() > MAX_ARG_BYTES {
        Some("exceeds 512 bytes"@)
    } else if bytes.contains(0u8) {
        Some("contains NUL byte"@)
    } else {
        None
    }
}

/// The first argument that is refused, and why; the count of arguments counts first.
pub open spec fn args_fault(args: Seq<String>) -> Option<(int, Seq<char>)> {
    if args.len() > MAX_EXTRA_ARGS {
        Some((MAX_EXTRA_ARGS as int, "more than 32 extra args"@))
    } else {
        args_fault_from(args, 0)
    }
}

/// The first argument from a place on that is refused, and why.
pub open spec fn args_fault_from(args: Seq<String>, from: int) -> Option<(int, Seq<char>)>
    decreases args.len() - from,
{
    if from >= args.len() {
        None
    } else {
        match arg_fault(args[from]@) {
            Some(why) => Some((from, why)),
            None => args_fault_from(args, from + 1),
        }
    }
}

/// Checks the extra arguments.
pub fn validate_extra_args(args: &[String]) -> (r: Result<(), GvproxyError>)
    ensures
        match r {
            Ok(()) => args_fault(args@) is None,
            Err(GvproxyError::InvalidExtraArg { index, reason }) => args_fault(args@) == Some(
                (index as int, reason@),
            ),
            Err(_) => false,
        },
{
    if args.len() > MAX_EXTRA_ARGS {
        return Err(
            GvproxyError::InvalidExtraArg { index: 32, reason: "more than 32 extra args" },
        );
    }
    let mut i: usize = 0;
    while i < args.len()
        invariant
            i <= args@.len() <= MAX_EXTRA_ARGS,
            args_fault(args@) == args_fault_from(args@, i as int),
        decreases args@.len() - i,
    {
        let bytes: &[u8] = args[i].as_str().as_bytes();
        if bytes.len() > MAX_ARG_BYTES {
            return Err(GvproxyError::InvalidExtraArg { index: i, reason: "exceeds 512 bytes" });
        }
        if has_zero(bytes) {
            return Err(GvproxyError::InvalidExtraArg { index: i, reason: "contains NUL byte" });
        }
        i = i + 1;
    }
    Ok(())
}

/// What follows from the length that stands before a frame.
#[derive(Clone, Copy, Debug, PartialEq, Eq, Structural)]
pub enum HeaderStep {
    /// The frame is too long: the stream is given up.
    Close,
    /// The frame is empty: the next length follows.
    Skip,
    /// That many bytes of frame follow.
    Body(usize),
}

/// What follows from a length.
pub open spec fn step_of(len: int, max_frame_bytes: int) -> HeaderStep {
    if len > max_frame_bytes {
        HeaderStep::Close
    } else if len == 0 {
        HeaderStep::Skip
    } else {
        HeaderStep::Body(len as usize)
    }
}

/// Takes the four bytes that stand before a frame.
pub fn read_header(hdr: &[u8; 4], max_frame_bytes: usize) -> (s: HeaderStep)
    ensures
        s == step_of(wire::be32(hdr@, 0), max_frame_bytes as int),
{
    let len: u32 = read_be32(hdr.as_slice(), 0);
    if len as u64 > max_frame_bytes as u64 {
        HeaderStep::Close
    } else if len == 0 {
        HeaderStep::Skip
    } else {
        HeaderStep::Body(len as usize)
    }
}

/// A frame on the stream: its length in four bytes, most significant first, and its
/// bytes.
pub open spec fn framed(bytes: Seq<u8>) -> Seq<u8> {
    wire::be32_bytes(if bytes.len() > u32::MAX {
        u32::MAX
    } else {
        bytes.len() as u32
    }) + bytes
}

/// Lays out a frame for the stream.
pub fn write_frame(frame: &Frame) -> (v: Vec<u8>)
    ensures
        v@ == framed(frame.bytes@),
{
    let n: usize = frame.bytes.len();
    let len: u32 = if n as u64 > u32::MAX as u64 {
        u32::MAX
    } else {
        n as u32
    };
    let hdr: [u8; 4] = to_be32(len);
    let mut v: Vec<u8> = Vec::new();
    push_bytes(&mut v, hdr.as_slice());
    push_bytes(&mut v, frame.bytes.as_slice());
    assert(v@ =~= framed(frame.bytes@));
    v
}

/// A frame that was laid out is taken as it was, if it is not longer than allowed.
pub proof fn frame_round_trip(bytes: Seq<u8>, max_frame_bytes: usize)
    requires
        0 < bytes.len() <= max_frame_bytes,
        bytes.len() <= u32::MAX,
    ensures
        step_of(wire::be32(framed(bytes), 0), max_frame_bytes as int) == HeaderStep::Body(
            bytes.len() as usize,
        ),
        framed(bytes).skip(4) == bytes,
{
    let hdr = wire::be32_bytes(bytes.len() as u32);
    wire::be32_of_bytes(bytes.len() as u32);
    assert(wire::be32(framed(bytes), 0) == wire::be32(hdr, 0));
    assert(framed(bytes).skip(4) =~= bytes);
}

/// The queues between a guest and the helper.
#[derive(Debug)]
pub struct GvproxyBackend {
    rx_buffer: Vec<Frame>,
    tx_queue: Vec<Frame>,
}

/// A queue after one more frame came in: at its limit the oldest frame gives way.
pub open spec fn after_arrival(queue: Seq<Frame>, frame: Frame) -> Seq<Frame> {
    if queue.len() >= RX_QUEUE_CAP {
        queue.skip(1).push(frame)
    } else {
        queue.push(frame)
    }
}

impl GvproxyBackend {
    /// The frames that wait for the guest.
    pub closed spec fn received(&self) -> Seq<Frame> {
        self.rx_buffer@
    }

    /// The frames that wait for the helper.
    pub closed spec fn outgoing(&self) -> Seq<Frame> {
        self.tx_queue@
    }

    /// Neither queue is over its limit.
    pub open spec fn wf(&self) -> bool {
        self.received().len() <= RX_QUEUE_CAP && self.outgoing().len() <= TX_QUEUE_CAP
    }

    /// Empty queues.
    pub fn new() -> (b: Self)
        ensures
            b.wf(),
            b.received() == Seq::<Frame>::empty(),
            b.outgoing() == Seq::<Frame>::empty(),
    {
        GvproxyBackend { rx_buffer: Vec::new(), tx_queue: Vec::new() }
    }

    /// Takes a frame that came from the helper.
    pub fn frame_received(&mut self, frame: Frame)
        requires
            old(self).wf(),
        ensures
            final(self).wf(),
            final(self).received() == after_arrival(old(self).received(), frame),
            final(self).outgoing() == old(self).outgoing(),
    {
        let ghost before = self.rx_buffer@;
        if self.rx_buffer.len() >= RX_QUEUE_CAP {
            let _oldest: Frame = self.rx_buffer.remove(0);
            assert(self.rx_buffer@ =~= before.skip(1));
        }
        self.rx_buffer.push(frame);
    }

    /// The next frame for the helper, the oldest first.
    pub fn next_outgoing(&mut self) -> (r: Option<Frame>)
        requires
            old(self).wf(),
        ensures
            final(self).wf(),
            final(self).received() == old(self).received(),
            match r {
                Some(f) => old(self).outgoing().len() > 0 && f == old(self).outgoing()[0]
                    && final(self).outgoing() == old(self).outgoing().skip(1),
                None => old(self).outgoing().len() == 0 && final(self).outgoing() == old(
                    self,
                ).outgoing(),
            },
    {
        let ghost before = self.tx_queue@;
        if self.tx_queue.len() == 0 {
            return None;
        }
        let f: Frame = self.tx_queue.remove(0);
        assert(self.tx_queue@ =~= before.skip(1));
        Some(f)
    }

    /// Takes a frame that the guest sent; at the limit it is dropped.
    pub fn send(&mut self, frame: Frame)
        requires
            old(self).wf(),
        ensures
            final(self).wf(),
            final(self).received() == old(self).received(),
            final(self).outgoing() == if old(self).outgoing().len() >= TX_QUEUE_CAP {
                old(self).outgoing()
            } else {
                old(self).outgoing().push(frame)
            },
            old(self).outgoing().len() < 256 <==> final(self).outgoing().len() > old(
                self,
            ).outgoing().len(),
    {
        if self.tx_queue.len() < TX_QUEUE_CAP {
            self.tx_queue.push(frame);
        }
    }

    /// Hands the guest all frames that wait for it.
    pub fn recv(&mut self) -> (v: Vec<Frame>)
        requires
            old(self).wf(),
        ensures
            final(self).wf(),
            v@ == old(self).received(),
            final(self).received() == Seq::<Frame>::empty(),
            final(self).outgoing() == old(self).outgoing(),
    {
        let mut v: Vec<Frame> = Vec::new();
        v.append(&mut self.rx_buffer);
        v
    }
}

impl Default for GvproxyBackend {
    fn default() -> (b: Self)
        ensures
            b.wf(),
            b.received() == Seq::<Frame>::empty(),
            b.outgoing() == Seq::<Frame>::empty(),
    {
        GvproxyBackend::new()
    }
}

/// The queue for the guest never grows over its limit, and holds the newest frame.
pub proof fn arrival_keeps_the_limit(queue: Seq<Frame>, frame: Frame)
    requires
        queue.len() <= RX_QUEUE_CAP,
    ensures
        after_arrival(queue, frame).len() <= RX_QUEUE_CAP,
        after_arrival(queue, frame).last() == frame,
{
}

/// Which paths are accepted: of one to 1024 bytes, none of them zero, that lead to a file.
pub proof fn paths_that_are_accepted(path: Seq<u8>, stat: PathStat)
    ensures
        binary_fault(path, stat) is None <==> {
            &&& 1 <= path.len() <= 1024
            &&& forall|i: int| 0 <= i < path.len() ==> #[trigger] path[i] != 0
            &&& stat == PathStat::RegularFile
        },
        path.len() == 0 ==> path_fault(path) == Some("must not be empty"@),
        path.contains(0u8) ==> path_fault(path) == Some("must not contain NUL bytes"@),
        path.len() > 1024 && !path.contains(0u8) ==> path_fault(path) == Some(
            "exceeds PATH_MAX (1024 bytes)"@,
        ),
        path_fault(path) is None && stat == PathStat::Unreadable ==> binary_fault(path, stat)
            == Some("could not stat binary path"@),
        path_fault(path) is None && stat == PathStat::Other ==> binary_fault(path, stat) == Some(
            "not a regular file"@,
        ),
{
    if !path.contains(0u8) {
        assert forall|i: int| 0 <= i < path.len() implies #[trigger] path[i] != 0 by {
            assert(path.contains(path[i]));
        }
    }
}

/// Which argument is accepted: one of at most 512 bytes, none of them zero.
pub open spec fn acceptable(arg: Seq<char>) -> bool {
    let bytes = vstd::utf8::encode_utf8(arg);
    bytes.len() <= 512 && forall|i: int| 0 <= i < bytes.len() ==> #[trigger] bytes[i] != 0
}

proof fn argument_is_judged(arg: Seq<char>)
    ensures
        arg_fault(arg) is None <==> acceptable(arg),
        arg_fault(arg) is Some ==> arg_fault(arg) == Some(
            if vstd::utf8::encode_utf8(arg).len() > 512 {
                "exceeds 512 bytes"@
            } else {
                "contains NUL byte"@
            },
        ),
{
    let bytes = vstd::utf8::encode_utf8(arg);
    if !bytes.contains(0u8) {
        assert forall|i: int| 0 <= i < bytes.len() implies #[trigger] bytes[i] != 0 by {
            assert(bytes.contains(bytes[i]));
        }
    }
}

proof fn arguments_from(args: Seq<String>, from: int)
    requires
        0 <= from <= args.len(),
    ensures
        args_fault_from(args, from) is None <==> forall|i: int|
            from <= i < args.len() ==> acceptable(#[trigger] args[i]@),
        args_fault_from(args, from) matches Some((i, why)) ==> {
            &&& from <= i < args.len()
            &&& arg_fault(args[i]@) == Some(why)
            &&& forall|k: int| from <= k < i ==> acceptable(#[trigger] args[k]@)
        },
    decreases args.len() - from,
{
    if from < args.len() {
        argument_is_judged(args[from]@);
        arguments_from(args, from + 1);
    }
}

/// Which arguments are accepted: at most 32 of them, each of at most 512 bytes without a
/// zero. Too many count first; else the first that is refused is named, and why.
pub proof fn arguments_that_are_accepted(args: Seq<String>)
    ensures
        args_fault(args) is None <==> args.len() <= 32 && forall|i: int|
            0 <= i < args.len() ==> acceptable(#[trigger] args[i]@),
        args.len() > 32 ==> args_fault(args) == Some((32int, "more than 32 extra args"@)),
        args.len() <= 32 && args_fault(args) is Some ==> ({
            let (i, why) = args_fault(args)->0;
            &&& 0 <= i < args.len()
            &&& !acceptable(args[i]@)
            &&& forall|k: int| 0 <= k < i ==> acceptable(#[trigger] args[k]@)
            &&& why == if vstd::utf8::encode_utf8(args[i]@).len() > 512 {
                "exceeds 512 bytes"@
            } else {
                "contains NUL byte"@
            }
        }),
{
    arguments_from(args, 0);
    if args.len() <= 32 && args_fault(args) is Some {
        argument_is_judged(args[(args_fault(args)->0).0]@);
    }
}

/// On the stream a frame stands behind its length, in four bytes, the highest first.
pub proof fn frames_stand_behind_their_length(bytes: Seq<u8>)
    requires
        bytes.len() <= u32::MAX,
    ensures
        framed(bytes).len() == bytes.len() + 4,
        16_777_216 * framed(bytes)[0] + 65536 * framed(bytes)[1] + 256 * framed(bytes)[2] + framed(
            bytes,
        )[3] == bytes.len(),
        forall|i: int| 0 <= i < bytes.len() ==> #[trigger] bytes[i] == framed(bytes)[i + 4],
{
    wire::be32_of_bytes(bytes.len() as u32);
}

/// What follows a length: its bytes if it is allowed, the next length if it is zero, and
/// the end of the stream if it is more than is allowed.
pub proof fn lengths_are_followed(len: int, max: int)
    requires
        0 <= len <= usize::MAX,
    ensures
        0 < len <= max ==> (step_of(len, max) matches HeaderStep::Body(n) && n == len),
        len == 0 && max >= 0 ==> step_of(len, max) == HeaderStep::Skip,
        len > max ==> step_of(len, max) == HeaderStep::Close,
{
}

/// A frame that arrives comes last behind the frames that waited, in their order; of 256
/// that wait the oldest gives way.
pub proof fn arrivals_keep_their_order(queue: Seq<Frame>, frame: Frame)
    ensures
        ({
            let q = after_arrival(queue, frame);
            &&& q.len() > 0 && q.last() == frame
            &&& queue.len() < 256 ==> q.len() == queue.len() + 1 && forall|i: int|
                0 <= i < queue.len() ==> #[trigger] q[i] == queue[i]
            &&& queue.len() >= 256 ==> q.len() == queue.len() && forall|i: int|
                0 <= i < queue.len() - 1 ==> #[trigger] q[i] == queue[i + 1]
        }),
{
}

} // verus!
