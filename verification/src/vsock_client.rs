//! The course of one host client of a vsock stream, from its `CONNECT` line to its end.
//!
//! A client is driven by events: what was read, written or waited for. Each event gives
//! the next thing to do. The bytes that go the other way, from the guest to the client,
//! are handed over by the muxer as the guest's packets come in.

use vstd::prelude::*;
use vstd::string::*;

use crate::vsock_muxer::{
    self, open_reply, read_chunk, MuxerView, Preamble, PreambleStep, UdsVsockMuxer, RW_CHUNK_BYTES,
};

verus! {

/// How long the guest has to accept a stream.
pub const ACCEPT_TIMEOUT_MS: u64 = 5000;

/// How far a client is.
#[derive(Clone, Copy, Debug, PartialEq, Eq, Structural)]
pub enum ClientPhase {
    /// Its first line is read.
    Preamble,
    /// The guest was asked to accept the stream.
    Opening,
    /// The client is told that the stream is open.
    Acknowledging,
    /// The client is told that the stream was refused.
    Refusing,
    /// Bytes of the client are read.
    Reading,
    /// The guest can take no more bytes for now.
    OutOfCredit,
    /// Nothing more happens.
    Ended,
}

/// What happened.
#[derive(Debug)]
pub enum ClientEvent {
    /// A byte of the first line was read.
    Byte(u8),
    /// Bytes for the guest were read.
    Data(Vec<u8>),
    /// The client closed its side.
    Closed,
    /// Reading from the client failed.
    ReadFailed,
    /// The guest accepted the stream in time.
    Accepted,
    /// The guest did not accept the stream, or not in time.
    NotAccepted,
    /// The line for the client was written.
    Written,
    /// Writing to the client failed.
    WriteFailed,
    /// The guest said something of what it can take.
    CreditChanged,
}

/// What to do next.
#[derive(Debug)]
pub enum ClientAction {
    /// Read one byte.
    ReadByte,
    /// Wait for the guest to accept the stream.
    AwaitAcceptance,
    /// Write a line to the client.
    WriteLine(String),
    /// Read as many bytes at most.
    ReadData(usize),
    /// Wait until the guest says something of what it can take.
    AwaitCredit,
    /// All is done.
    Finish,
    /// The client did not keep to its part.
    Fail(&'static str),
    /// End with the failure of the last read or write.
    FailIo,
    /// Nothing: the event was not waited for.
    Ignore,
}

/// An event by its contents.
#[verifier::ext_equal]
pub enum EventView {
    Byte(u8),
    Data(Seq<u8>),
    Closed,
    ReadFailed,
    Accepted,
    NotAccepted,
    Written,
    WriteFailed,
    CreditChanged,
}

impl View for ClientEvent {
    type V = EventView;

    open spec fn view(&self) -> EventView {
        match self {
            ClientEvent::Byte(b) => EventView::Byte(*b),
            ClientEvent::Data(d) => EventView::Data(d@),
            ClientEvent::Closed => EventView::Closed,
            ClientEvent::ReadFailed => EventView::ReadFailed,
            ClientEvent::Accepted => EventView::Accepted,
            ClientEvent::NotAccepted => EventView::NotAccepted,
            ClientEvent::Written => EventView::Written,
            ClientEvent::WriteFailed => EventView::WriteFailed,
            ClientEvent::CreditChanged => EventView::CreditChanged,
        }
    }
}

/// An action by its contents.
#[verifier::ext_equal]
pub enum ActionView {
    ReadByte,
    AwaitAcceptance,
    WriteLine(Seq<char>),
    ReadData(int),
    AwaitCredit,
    Finish,
    Fail(Seq<char>),
    FailIo,
    Ignore,
}

impl View for ClientAction {
    type V = ActionView;

    open spec fn view(&self) -> ActionView {
        match self {
            ClientAction::ReadByte => ActionView::ReadByte,
            ClientAction::AwaitAcceptance => ActionView::AwaitAcceptance,
            ClientAction::WriteLine(line) => ActionView::WriteLine(line@),
            ClientAction::ReadData(n) => ActionView::ReadData(*n as int),
            ClientAction::AwaitCredit => ActionView::AwaitCredit,
            ClientAction::Finish => ActionView::Finish,
            ClientAction::Fail(why) => ActionView::Fail(why@),
            ClientAction::FailIo => ActionView::FailIo,
            ClientAction::Ignore => ActionView::Ignore,
        }
    }
}

/// A client by its contents.
#[verifier::ext_equal]
pub struct ClientView {
    pub guest_port: u32,
    /// The port that was taken for it, once it is past its first line.
    pub host_port: u32,
    pub phase: ClientPhase,
    /// What was read of its first line.
    pub line: Seq<u8>,
}

/// A client in another phase.
pub open spec fn in_phase(c: ClientView, phase: ClientPhase) -> ClientView {
    ClientView { phase, ..c }
}

/// What a client does that can read: nothing once its stream is closed or gone, wait while
/// the guest can take no byte, and else read what the guest can take.
pub open spec fn read_next(c: ClientView, m: MuxerView) -> (ClientView, ActionView) {
    let key = vsock_muxer::stream_key(c.host_port, c.guest_port);
    if !vsock_muxer::is_live(m, key) {
        (in_phase(c, ClientPhase::Ended), ActionView::Finish)
    } else if vsock_muxer::credit(m.connections[key]) == 0 {
        (in_phase(c, ClientPhase::OutOfCredit), ActionView::AwaitCredit)
    } else {
        (
            in_phase(c, ClientPhase::Reading),
            ActionView::ReadData(
                vsock_muxer::chunk_of(vsock_muxer::credit(m.connections[key])),
            ),
        )
    }
}

/// The client after a byte of its first line, the muxer, and what to do.
pub open spec fn line_step(c: ClientView, m: MuxerView, byte: u8) -> (
    ClientView,
    MuxerView,
    ActionView,
) {
    let line = c.line.push(byte);
    match vsock_muxer::preamble_step(line) {
        PreambleStep::More => (ClientView { line, ..c }, m, ActionView::ReadByte),
        PreambleStep::Done => (
            ClientView {
                line,
                host_port: m.next_host_port,
                phase: ClientPhase::Opening,
                ..c
            },
            vsock_muxer::opened(m, c.guest_port),
            ActionView::AwaitAcceptance,
        ),
        PreambleStep::TooLong => (
            ClientView { line, phase: ClientPhase::Ended, ..c },
            m,
            ActionView::Fail("CONNECT line too long"@),
        ),
    }
}

/// The client after an event, the muxer, and what to do next.
pub open spec fn client_step(c: ClientView, m: MuxerView, event: EventView) -> (
    ClientView,
    MuxerView,
    ActionView,
) {
    let key = vsock_muxer::stream_key(c.host_port, c.guest_port);
    match (c.phase, event) {
        (ClientPhase::Preamble, EventView::Byte(b)) => line_step(c, m, b),
        (ClientPhase::Preamble, EventView::Closed) => (
            in_phase(c, ClientPhase::Ended),
            m,
            ActionView::Fail("host closed during CONNECT preamble"@),
        ),
        (ClientPhase::Preamble, EventView::ReadFailed) => (
            in_phase(c, ClientPhase::Ended),
            m,
            ActionView::FailIo,
        ),
        (ClientPhase::Opening, EventView::Accepted) => (
            in_phase(c, ClientPhase::Acknowledging),
            m,
            ActionView::WriteLine(vsock_muxer::open_line(c.host_port, c.guest_port, true)),
        ),
        (ClientPhase::Opening, EventView::NotAccepted) => (
            in_phase(c, ClientPhase::Refusing),
            m,
            ActionView::WriteLine(vsock_muxer::open_line(c.host_port, c.guest_port, false)),
        ),
        (ClientPhase::Refusing, EventView::Written)
        | (ClientPhase::Refusing, EventView::WriteFailed) => (
            in_phase(c, ClientPhase::Ended),
            vsock_muxer::closed_stream(m, c.host_port, c.guest_port),
            ActionView::Finish,
        ),
        (ClientPhase::Acknowledging, EventView::Written)
        | (ClientPhase::OutOfCredit, EventView::CreditChanged) => {
            let (next, action) = read_next(c, m);
            (next, m, action)
        },
        (ClientPhase::Acknowledging, EventView::WriteFailed) => (
            in_phase(c, ClientPhase::Ended),
            m,
            ActionView::FailIo,
        ),
        (ClientPhase::Reading, EventView::Data(payload)) => if vsock_muxer::is_live(m, key) {
            let sent = vsock_muxer::data_sent(m, c.host_port, c.guest_port, payload);
            let (next, action) = read_next(c, sent);
            (next, sent, action)
        } else {
            (in_phase(c, ClientPhase::Ended), m, ActionView::Finish)
        },
        (ClientPhase::Reading, EventView::Closed)
        | (ClientPhase::Reading, EventView::ReadFailed) => (
            in_phase(c, ClientPhase::Ended),
            vsock_muxer::shut_down(m, c.host_port, c.guest_port),
            ActionView::Finish,
        ),
        _ => (c, m, ActionView::Ignore),
    }
}

/// A host client of a stream to one port of the guest.
#[derive(Debug)]
pub struct HostClient {
    guest_port: u32,
    host_port: u32,
    phase: ClientPhase,
    preamble: Preamble,
}

impl View for HostClient {
    type V = ClientView;

    closed spec fn view(&self) -> ClientView {
        ClientView {
            guest_port: self.guest_port,
            host_port: self.host_port,
            phase: self.phase,
            line: self.preamble@,
        }
    }
}

impl HostClient {
    /// A client that was just accepted. The first thing to do is to read a byte.
    pub fn new(guest_port: u32) -> (c: Self)
        ensures
            c@.guest_port == guest_port,
            c@.phase == ClientPhase::Preamble,
            c@.line == Seq::<u8>::empty(),
    {
        HostClient {
            guest_port,
            host_port: 0,
            phase: ClientPhase::Preamble,
            preamble: Preamble::new(),
        }
    }

    /// How far the client is.
    pub fn phase(&self) -> (p: ClientPhase)
        ensures
            p == self@.phase,
    {
        self.phase
    }

    /// The port that was taken for the client.
    pub fn host_port(&self) -> (p: u32)
        ensures
            p == self@.host_port,
    {
        self.host_port
    }

    /// Reads on, waits for credit or ends, as the guest's credit allows.
    fn read_on(&mut self, muxer: &UdsVsockMuxer) -> (a: ClientAction)
        ensures
            (final(self)@, a@) == read_next(old(self)@, muxer@),
    {
        match muxer.credit_bytes(self.host_port, self.guest_port) {
            None => {
                self.phase = ClientPhase::Ended;
                ClientAction::Finish
            },
            Some(window) => if window == 0 {
                self.phase = ClientPhase::OutOfCredit;
                ClientAction::AwaitCredit
            } else {
                self.phase = ClientPhase::Reading;
                ClientAction::ReadData(read_chunk(window))
            },
        }
    }

    /// Takes a byte of the first line.
    fn line_byte(&mut self, muxer: &mut UdsVsockMuxer, byte: u8) -> (a: ClientAction)
        requires
            old(self)@.phase == ClientPhase::Preamble,
        ensures
            (final(self)@, final(muxer)@, a@) == line_step(old(self)@, old(muxer)@, byte),
    {
        match self.preamble.push(byte) {
            PreambleStep::More => ClientAction::ReadByte,
            PreambleStep::Done => {
                self.host_port = muxer.open_stream(self.guest_port);
                self.phase = ClientPhase::Opening;
                ClientAction::AwaitAcceptance
            },
            PreambleStep::TooLong => {
                self.phase = ClientPhase::Ended;
                ClientAction::Fail("CONNECT line too long")
            },
        }
    }

    /// Takes what happened, and says what to do next.
    pub fn step(&mut self, muxer: &mut UdsVsockMuxer, event: ClientEvent) -> (a: ClientAction)
        requires
            event matches ClientEvent::Data(payload) ==> payload@.len() <= RW_CHUNK_BYTES,
        ensures
            (final(self)@, final(muxer)@, a@) == client_step(old(self)@, old(muxer)@, event@),
    {
        match (self.phase, event) {
            (ClientPhase::Preamble, ClientEvent::Byte(b)) => self.line_byte(muxer, b),
            (ClientPhase::Preamble, ClientEvent::Closed) => {
                self.phase = ClientPhase::Ended;
                ClientAction::Fail("host closed during CONNECT preamble")
            },
            (ClientPhase::Preamble, ClientEvent::ReadFailed)
            | (ClientPhase::Acknowledging, ClientEvent::WriteFailed) => {
                self.phase = ClientPhase::Ended;
                ClientAction::FailIo
            },
            (ClientPhase::Opening, ClientEvent::Accepted) => {
                self.phase = ClientPhase::Acknowledging;
                ClientAction::WriteLine(open_reply(self.host_port, self.guest_port, true))
            },
            (ClientPhase::Opening, ClientEvent::NotAccepted) => {
                self.phase = ClientPhase::Refusing;
                ClientAction::WriteLine(open_reply(self.host_port, self.guest_port, false))
            },
            (ClientPhase::Refusing, ClientEvent::Written)
            | (ClientPhase::Refusing, ClientEvent::WriteFailed) => {
                self.phase = ClientPhase::Ended;
                muxer.refuse(self.host_port, self.guest_port);
                ClientAction::Finish
            },
            (ClientPhase::Acknowledging, ClientEvent::Written)
            | (ClientPhase::OutOfCredit, ClientEvent::CreditChanged) => self.read_on(muxer),
            (ClientPhase::Reading, ClientEvent::Data(payload)) => {
                if muxer.client_data(self.host_port, self.guest_port, payload) {
                    self.read_on(muxer)
                } else {
                    self.phase = ClientPhase::Ended;
                    ClientAction::Finish
                }
            },
            (ClientPhase::Reading, ClientEvent::Closed)
            | (ClientPhase::Reading, ClientEvent::ReadFailed) => {
                self.phase = ClientPhase::Ended;
                muxer.client_closed(self.host_port, self.guest_port);
                ClientAction::Finish
            },
            _ => ClientAction::Ignore,
        }
    }
}

/// A client never reads more than the guest can take, nor more than one packet carries.
pub proof fn reads_fit_the_window(c: ClientView, m: MuxerView, event: EventView)
    ensures
        ({
            let (next, after, action) = client_step(c, m, event);
            let key = vsock_muxer::stream_key(next.host_port, next.guest_port);
            action matches ActionView::ReadData(n) ==> {
                &&& 1 <= n <= RW_CHUNK_BYTES
                &&& vsock_muxer::is_live(after, key)
                &&& n <= vsock_muxer::credit(after.connections[key])
            }
        }),
{
}

/// A client that has ended does nothing more.
pub proof fn ended_is_final(c: ClientView, m: MuxerView, event: EventView)
    requires
        c.phase == ClientPhase::Ended,
    ensures
        client_step(c, m, event) == (c, m, ActionView::Ignore),
{
}

/// What a client does to the muxer touches its own stream only, and takes no queued packet
/// back.
pub proof fn clients_are_apart(c: ClientView, m: MuxerView, event: EventView, other: u64)
    requires
        other != vsock_muxer::stream_key(c.host_port, c.guest_port),
        other != vsock_muxer::stream_key(m.next_host_port, c.guest_port),
    ensures
        ({
            let after = client_step(c, m, event).1;
            &&& after.connections.contains_key(other) == m.connections.contains_key(other)
            &&& m.connections.contains_key(other) ==> after.connections[other]
                == m.connections[other]
            &&& m.rx.is_prefix_of(after.rx)
            &&& after.guest_cid == m.guest_cid
        }),
{
}

/// What a client sends on a live stream is queued for the guest, whole and at the end.
pub proof fn data_reaches_the_guest(c: ClientView, m: MuxerView, payload: Seq<u8>)
    requires
        c.phase == ClientPhase::Reading,
        vsock_muxer::is_live(m, vsock_muxer::stream_key(c.host_port, c.guest_port)),
    ensures
        ({
            let after = client_step(c, m, EventView::Data(payload)).1;
            &&& after.rx.len() == m.rx.len() + 1
            &&& after.rx.last().payload == payload
            &&& after.rx.last().hdr.src_port == c.host_port
            &&& after.rx.last().hdr.dst_port == c.guest_port
        }),
{
}

/// A client whose stream the guest does not accept is told so, and its stream is forgotten
/// whether or not it could be told.
pub proof fn refusal_is_told_and_forgotten(c: ClientView, m: MuxerView, told: bool)
    requires
        c.phase == ClientPhase::Opening,
    ensures
        ({
            let (c1, m1, a1) = client_step(c, m, EventView::NotAccepted);
            let (c2, m2, a2) = client_step(
                c1,
                m1,
                if told {
                    EventView::Written
                } else {
                    EventView::WriteFailed
                },
            );
            &&& a1 == ActionView::WriteLine(
                vsock_muxer::open_line(c.host_port, c.guest_port, false),
            )
            &&& a2 == ActionView::Finish
            &&& c2.phase == ClientPhase::Ended
            &&& !m2.connections.contains_key(
                vsock_muxer::stream_key(c.host_port, c.guest_port),
            )
        }),
{
}

/// A client opens a stream once its first line is whole, reads on while it is not, and is
/// given up if it closes, fails or never ends the line.
pub proof fn first_lines_open_streams(c: ClientView, m: MuxerView, byte: u8)
    requires
        c.phase == ClientPhase::Preamble,
    ensures
        byte == 10 ==> ({
            let (next, after, action) = client_step(c, m, EventView::Byte(byte));
            &&& next.phase == ClientPhase::Opening
            &&& next.host_port == m.next_host_port
            &&& next.guest_port == c.guest_port
            &&& after == vsock_muxer::opened(m, c.guest_port)
            &&& action == ActionView::AwaitAcceptance
        }),
        byte != 10 ==> ({
            let (next, after, action) = client_step(c, m, EventView::Byte(byte));
            &&& after == m
            &&& next.line == c.line.push(byte)
            &&& action == ActionView::ReadByte && next.phase == ClientPhase::Preamble || action
                is Fail && next.phase == ClientPhase::Ended
        }),
        ({
            let (next, after, action) = client_step(c, m, EventView::Closed);
            next.phase == ClientPhase::Ended && after == m && action is Fail
        }),
        ({
            let (next, after, action) = client_step(c, m, EventView::ReadFailed);
            next.phase == ClientPhase::Ended && after == m && action == ActionView::FailIo
        }),
{
}

/// Once the guest accepted, the client is told so and then reads; if it cannot be told, it
/// ends.
pub proof fn accepted_clients_are_told_and_read(c: ClientView, m: MuxerView)
    ensures
        c.phase == ClientPhase::Opening ==> ({
            let (next, after, action) = client_step(c, m, EventView::Accepted);
            &&& next == (ClientView { phase: ClientPhase::Acknowledging, ..c })
            &&& after == m
            &&& action == ActionView::WriteLine(
                vsock_muxer::open_line(c.host_port, c.guest_port, true),
            )
        }),
        c.phase == ClientPhase::Acknowledging ==> ({
            let (next, after, action) = client_step(c, m, EventView::WriteFailed);
            next.phase == ClientPhase::Ended && after == m && action == ActionView::FailIo
        }),
        c.phase == ClientPhase::Acknowledging ==> client_step(c, m, EventView::Written).0.phase
            != ClientPhase::Acknowledging,
{
}

/// A client that can go on reads as many bytes as the guest can take, a packet's worth at
/// most; it waits if the guest can take none, and ends if its stream is gone.
pub proof fn clients_read_what_the_guest_can_take(c: ClientView, m: MuxerView, event: EventView)
    requires
        c.phase == ClientPhase::Acknowledging && event == EventView::Written || c.phase
            == ClientPhase::OutOfCredit && event == EventView::CreditChanged,
    ensures
        ({
            let key = vsock_muxer::stream_key(c.host_port, c.guest_port);
            let (next, after, action) = client_step(c, m, event);
            let live = m.connections.contains_key(key) && !m.connections[key].closed;
            let room = vsock_muxer::credit(m.connections[key]);
            &&& after == m
            &&& next.host_port == c.host_port && next.guest_port == c.guest_port
            &&& !live ==> next.phase == ClientPhase::Ended && action == ActionView::Finish
            &&& live && room == 0 ==> next.phase == ClientPhase::OutOfCredit && action
                == ActionView::AwaitCredit
            &&& live && 0 < room <= 4096 ==> next.phase == ClientPhase::Reading && action
                == ActionView::ReadData(room)
            &&& live && room > 4096 ==> next.phase == ClientPhase::Reading && action
                == ActionView::ReadData(4096)
        }),
{
}

/// What a client sends on a stream that is gone goes nowhere and ends it.
pub proof fn data_on_a_gone_stream_end_the_client(c: ClientView, m: MuxerView, payload: Seq<u8>)
    requires
        c.phase == ClientPhase::Reading,
        ({
            let key = vsock_muxer::stream_key(c.host_port, c.guest_port);
            !m.connections.contains_key(key) || m.connections[key].closed
        }),
    ensures
        ({
            let (next, after, action) = client_step(c, m, EventView::Data(payload));
            next.phase == ClientPhase::Ended && after == m && action == ActionView::Finish
        }),
{
}

/// A client that closes, or cannot be read, ends, and its stream with it.
pub proof fn closing_clients_end_their_stream(c: ClientView, m: MuxerView, event: EventView)
    requires
        c.phase == ClientPhase::Reading,
        event == EventView::Closed || event == EventView::ReadFailed,
    ensures
        ({
            let key = vsock_muxer::stream_key(c.host_port, c.guest_port);
            let (next, after, action) = client_step(c, m, event);
            &&& next.phase == ClientPhase::Ended
            &&& action == ActionView::Finish
            &&& !after.connections.contains_key(key)
            &&& after.rx.len() == m.rx.len() + 1
            &&& after.rx.last().hdr.op == vsock_muxer::VsockOp::Shutdown
        }),
{
}

/// What is not waited for changes nothing.
pub proof fn other_events_are_ignored(c: ClientView, m: MuxerView, event: EventView)
    ensures
        match c.phase {
            ClientPhase::Preamble => !(event is Byte || event is Closed || event is ReadFailed),
            ClientPhase::Opening => !(event is Accepted || event is NotAccepted),
            ClientPhase::Acknowledging => !(event is Written || event is WriteFailed),
            ClientPhase::Refusing => !(event is Written || event is WriteFailed),
            ClientPhase::Reading => !(event is Data || event is Closed || event is ReadFailed),
            ClientPhase::OutOfCredit => !(event is CreditChanged),
            ClientPhase::Ended => true,
        } <==> client_step(c, m, event).2 == ActionView::Ignore,
        client_step(c, m, event).2 == ActionView::Ignore ==> client_step(c, m, event).0 == c
            && client_step(c, m, event).1 == m,
{
}

} // verus!
