//! The queues between a guest's network device and the host's network.

use vstd::prelude::*;

use crate::net::gvproxy::GvproxyBackend;
use crate::net::sys::iface_impl::BATCH;

verus! {

/// How many frames are gathered before they are written.
pub const TX_BATCH_DEPTH: usize = 32;

/// How many frames are read at a time.
pub const RX_BATCH_DEPTH: usize = 32;

/// A frame on the network.
#[derive(Debug)]
pub struct Frame {
    pub bytes: Vec<u8>,
}

impl Frame {
    /// A frame made of `bytes`.
    pub fn from_bytes(bytes: Vec<u8>) -> (f: Self)
        ensures
            f.bytes == bytes,
    {
        Frame { bytes }
    }

    /// A frame made of a copy of `bytes`.
    pub fn from_slice(bytes: &[u8]) -> (f: Self)
        ensures
            f.bytes@ == bytes@,
    {
        Frame { bytes: vstd::slice::slice_to_vec(bytes) }
    }
}

/// Frames for an interface of the framework.
#[derive(Debug)]
pub struct VmnetHostBackend {
    tx_queue: Vec<Frame>,
}

impl VmnetHostBackend {
    /// The frames that wait to be written.
    pub closed spec fn pending(&self) -> Seq<Frame> {
        self.tx_queue@
    }

    /// Fewer frames wait than are gathered.
    pub open spec fn wf(&self) -> bool {
        self.pending().len() < TX_BATCH_DEPTH
    }

    /// No frames wait.
    pub fn new() -> (b: Self)
        ensures
            b.wf(),
            b.pending() == Seq::<Frame>::empty(),
    {
        VmnetHostBackend { tx_queue: Vec::new() }
    }

    /// Takes the frames that wait, to be written at once.
    pub fn flush_tx(&mut self) -> (v: Vec<Frame>)
        requires
            old(self).wf(),
        ensures
            final(self).wf(),
            v@ == old(self).pending(),
            v@.len() <= BATCH,
            final(self).pending() == Seq::<Frame>::empty(),
    {
        let mut v: Vec<Frame> = Vec::new();
        v.append(&mut self.tx_queue);
        v
    }

    /// Takes a frame that the guest sent. Once enough are gathered, gives them all to be
    /// written at once.
    pub fn send(&mut self, frame: Frame) -> (r: Option<Vec<Frame>>)
        requires
            old(self).wf(),
        ensures
            final(self).wf(),
            match r {
                Some(v) => v@ == old(self).pending().push(frame) && v@.len() == TX_BATCH_DEPTH
                    && v@.len() <= BATCH && final(self).pending() == Seq::<Frame>::empty(),
                None => final(self).pending() == old(self).pending().push(frame),
            },
            r is Some <==> old(self).pending().len() == 31,
    {
        self.tx_queue.push(frame);
        if self.tx_queue.len() < TX_BATCH_DEPTH {
            return None;
        }
        let mut v: Vec<Frame> = Vec::new();
        v.append(&mut self.tx_queue);
        Some(v)
    }
}

impl Default for VmnetHostBackend {
    fn default() -> (b: Self)
        ensures
            b.wf(),
            b.pending() == Seq::<Frame>::empty(),
    {
        VmnetHostBackend::new()
    }
}

/// The room that is made for a frame to be read: its size, but at least the usual one,
/// and a little more.
pub fn rx_buffer_len(mtu: u32) -> (n: usize)
    ensures
        n == (if mtu < 1500 {
            1500int
        } else {
            mtu as int
        }) + 32 || n == usize::MAX && mtu + 32 > usize::MAX,
{
    let size: usize = if mtu < 1500 {
        1500
    } else {
        mtu as usize
    };
    match size.checked_add(32) {
        Some(n) => n,
        None => usize::MAX,
    }
}

/// The first `n` frames that were read: each buffer, cut to the size that was reported
/// for it.
pub open spec fn cut(buffer: Seq<u8>, size: usize) -> Seq<u8> {
    if size < buffer.len() {
        buffer.take(size as int)
    } else {
        buffer
    }
}

/// Makes frames of the first `n` buffers that were read.
pub fn collect_frames(storage: Vec<Vec<u8>>, sizes: &[usize], n: usize) -> (v: Vec<Frame>)
    requires
        n <= storage@.len(),
        n <= sizes@.len(),
    ensures
        v@.len() == n,
        forall|i: int|
            0 <= i < n ==> (#[trigger] v@[i]).bytes@ == cut(storage@[i]@, sizes@[i]),
{
    let mut v: Vec<Frame> = Vec::new();
    let mut i: usize = 0;
    while i < n
        invariant
            i <= n <= storage@.len(),
            n <= sizes@.len(),
            v@.len() == i,
            forall|k: int|
                0 <= k < i ==> (#[trigger] v@[k]).bytes@ == cut(storage@[k]@, sizes@[k]),
        decreases n - i,
    {
        let buf: &Vec<u8> = &storage[i];
        let len: usize = if sizes[i] < buf.len() {
            sizes[i]
        } else {
            buf.len()
        };
        let bytes: Vec<u8> = vstd::slice::slice_to_vec(
            vstd::slice::slice_subrange(buf.as_slice(), 0, len),
        );
        assert(bytes@ =~= cut(storage@[i as int]@, sizes@[i as int]));
        v.push(Frame { bytes });
        i = i + 1;
    }
    v
}

/// Frames that come back to the guest that sent them.
#[derive(Debug)]
pub struct LoopbackHostBackend {
    queue: Vec<Frame>,
}

impl LoopbackHostBackend {
    /// The frames on their way.
    pub closed spec fn pending(&self) -> Seq<Frame> {
        self.queue@
    }

    /// No frames are on their way.
    pub fn new() -> (b: Self)
        ensures
            b.pending() == Seq::<Frame>::empty(),
    {
        LoopbackHostBackend { queue: Vec::new() }
    }

    /// Takes a frame.
    pub fn send(&mut self, frame: Frame)
        ensures
            final(self).pending() == old(self).pending().push(frame),
    {
        self.queue.push(frame);
    }

    /// Gives all frames back, in the order in which they were sent.
    pub fn recv(&mut self) -> (v: Vec<Frame>)
        ensures
            v@ == old(self).pending(),
            final(self).pending() == Seq::<Frame>::empty(),
    {
        let mut v: Vec<Frame> = Vec::new();
        v.append(&mut self.queue);
        v
    }
}

impl Default for LoopbackHostBackend {
    fn default() -> (b: Self)
        ensures
            b.pending() == Seq::<Frame>::empty(),
    {
        LoopbackHostBackend::new()
    }
}

/// The network behind a guest's device.
#[derive(Debug)]
#[non_exhaustive]
pub enum NetHostBackend {
    Vmnet(VmnetHostBackend),
    Gvproxy(GvproxyBackend),
    Loopback(LoopbackHostBackend),
}

/// Where the frames for the guest are.
#[derive(Debug)]
pub enum Received {
    /// Here.
    Frames(Vec<Frame>),
    /// On the interface, which is to be written to first.
    OnInterface { write_first: Vec<Frame> },
}

impl NetHostBackend {
    /// The queues are within their limits.
    pub open spec fn wf(&self) -> bool {
        match self {
            NetHostBackend::Vmnet(b) => b.wf(),
            NetHostBackend::Gvproxy(b) => b.wf(),
            NetHostBackend::Loopback(_) => true,
        }
    }

    /// Takes a frame that the guest sent. Gives frames that are now to be written to an
    /// interface of the framework, if there are any.
    pub fn send(&mut self, frame: Frame) -> (r: Option<Vec<Frame>>)
        requires
            old(self).wf(),
        ensures
            final(self).wf(),
            match (*old(self), *final(self)) {
                (NetHostBackend::Vmnet(a), NetHostBackend::Vmnet(b)) => match r {
                    Some(v) => v@ == a.pending().push(frame) && v@.len() == TX_BATCH_DEPTH
                        && b.pending() == Seq::<Frame>::empty(),
                    None => b.pending() == a.pending().push(frame),
                },
                (NetHostBackend::Gvproxy(a), NetHostBackend::Gvproxy(b)) => r is None
                    && b.received() == a.received() && b.outgoing() == (if a.outgoing().len()
                    >= crate::net::gvproxy::TX_QUEUE_CAP {
                    a.outgoing()
                } else {
                    a.outgoing().push(frame)
                }),
                (NetHostBackend::Loopback(a), NetHostBackend::Loopback(b)) => r is None
                    && b.pending() == a.pending().push(frame),
                _ => false,
            },
    {
        match self {
            NetHostBackend::Vmnet(b) => b.send(frame),
            NetHostBackend::Gvproxy(b) => {
                b.send(frame);
                None
            },
            NetHostBackend::Loopback(b) => {
                b.send(frame);
                None
            },
        }
    }

    /// Says where the frames for the guest are. Those of an interface of the framework are
    /// to be read from it, once the frames that wait for it were written.
    pub fn recv(&mut self) -> (r: Received)
        requires
            old(self).wf(),
        ensures
            final(self).wf(),
            match (*old(self), *final(self), r) {
                (
                    NetHostBackend::Vmnet(a),
                    NetHostBackend::Vmnet(b),
                    Received::OnInterface { write_first },
                ) => write_first@ == a.pending() && b.pending() == Seq::<Frame>::empty(),
                (
                    NetHostBackend::Gvproxy(a),
                    NetHostBackend::Gvproxy(b),
                    Received::Frames(v),
                ) => v@ == a.received() && b.received() == Seq::<Frame>::empty() && b.outgoing()
                    == a.outgoing(),
                (
                    NetHostBackend::Loopback(a),
                    NetHostBackend::Loopback(b),
                    Received::Frames(v),
                ) => v@ == a.pending() && b.pending() == Seq::<Frame>::empty(),
                _ => false,
            },
    {
        match self {
            NetHostBackend::Vmnet(b) => Received::OnInterface { write_first: b.flush_tx() },
            NetHostBackend::Gvproxy(b) => Received::Frames(b.recv()),
            NetHostBackend::Loopback(b) => Received::Frames(b.recv()),
        }
    }
}

/// What was sent and not yet written is written in the order in which it was sent, and
/// nothing is lost between: the frames of a write and those that wait make up all that
/// was sent.
pub proof fn gathered_frames_are_complete(
    before: Seq<Frame>,
    frame: Frame,
    written: Option<Seq<Frame>>,
    after: Seq<Frame>,
)
    requires
        match written {
            Some(v) => v == before.push(frame) && after == Seq::<Frame>::empty(),
            None => after == before.push(frame),
        },
    ensures
        (match written {
            Some(v) => v,
            None => Seq::empty(),
        }) + after == before.push(frame),
{
    assert(before.push(frame) + Seq::<Frame>::empty() =~= before.push(frame));
    assert(Seq::<Frame>::empty() + before.push(frame) =~= before.push(frame));
}

/// A buffer is cut to the size that was reported for it; a size over its own changes
/// nothing.
pub proof fn buffers_are_cut(buffer: Seq<u8>, size: usize)
    ensures
        size <= buffer.len() ==> cut(buffer, size).len() == size,
        size > buffer.len() ==> cut(buffer, size).len() == buffer.len(),
        forall|i: int|
            0 <= i < cut(buffer, size).len() ==> #[trigger] cut(buffer, size)[i] == buffer[i],
{
}

} // verus!
