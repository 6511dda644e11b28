//! The PL011 serial port, as far as a guest's driver uses it.

use std::collections::VecDeque;
use vstd::prelude::*;

use crate::text::{self, utf8_lossy};
use crate::wire::{self, to_le32};

verus! {

/// Bytes of the window of its registers.
pub const PL011_MMIO_REGION_BYTES: u64 = 0x1000;

/// Flag: nothing waits to be sent. Sending is immediate, so it is always set.
pub const FR_TX_EMPTY: u32 = 0x80;

/// Flag: nothing was received.
pub const FR_RX_EMPTY: u32 = 0x10;

/// The receive interrupt, in the mask and in the status.
pub const INT_RX: u32 = 0x10;

/// Where the bytes that a guest sends go.
///
/// The log of them stands in contracts only, so an implementation that is not verified can
/// leave it out. One that keeps its default body cannot meet the contract of `write_byte`, and
/// nothing is proved of what is sent to it.
pub trait Pl011Sink {
    /// The bytes that it was given.
    open spec fn given(&self) -> Seq<u8> {
        Seq::empty()
    }

    /// Takes one byte.
    fn write_byte(&mut self, byte: u8)
        ensures
            final(self).given() == old(self).given().push(byte),
    ;
}

/// A sink that drops every byte.
pub struct DiscardSink {
    given: Ghost<Seq<u8>>,
}

impl DiscardSink {
    /// A sink that was given nothing.
    pub fn new() -> (s: Self)
        ensures
            s.given() == Seq::<u8>::empty(),
    {
        DiscardSink { given: Ghost(Seq::empty()) }
    }
}

impl Default for DiscardSink {
    fn default() -> (s: Self)
        ensures
            s.given() == Seq::<u8>::empty(),
    {
        DiscardSink::new()
    }
}

impl Pl011Sink for DiscardSink {
    closed spec fn given(&self) -> Seq<u8> {
        self.given@
    }

    fn write_byte(&mut self, byte: u8) {
        self.given = Ghost(self.given@.push(byte));
    }
}

/// A sink that keeps every byte.
#[derive(Debug)]
pub struct CapturedSink {
    buffer: Vec<u8>,
}

impl CapturedSink {
    /// A sink that was given nothing.
    pub fn new() -> (s: Self)
        ensures
            s.given() == Seq::<u8>::empty(),
    {
        CapturedSink { buffer: Vec::new() }
    }

    /// The bytes so far.
    pub fn snapshot(&self) -> (v: Vec<u8>)
        ensures
            v@ == self.given(),
    {
        vstd::slice::slice_to_vec(self.buffer.as_slice())
    }

    /// The bytes so far as text; what is no UTF-8 is replaced.
    pub fn as_string_lossy(&self) -> (s: String)
        ensures
            s@ == text::lossy_text(self.given()),
            vstd::utf8::valid_utf8(self.given()) ==> s@ == vstd::utf8::decode_utf8(self.given()),
    {
        utf8_lossy(self.buffer.as_slice())
    }
}

impl Default for CapturedSink {
    fn default() -> (s: Self)
        ensures
            s.given() == Seq::<u8>::empty(),
    {
        CapturedSink::new()
    }
}

impl Pl011Sink for CapturedSink {
    closed spec fn given(&self) -> Seq<u8> {
        self.buffer@
    }

    fn write_byte(&mut self, byte: u8) {
        self.buffer.push(byte);
    }
}

/// The registers of the port and what it received.
pub struct Pl011State {
    /// Bytes that were received and not yet read.
    pub rx: Seq<u8>,
    /// Interrupt mask.
    pub imsc: u32,
    /// Raw interrupt status.
    pub ris: u32,
    pub ibrd: u32,
    pub fbrd: u32,
    pub lcrh: u32,
    pub cr: u32,
    pub ifls: u32,
    pub dmacr: u32,
    pub ilpr: u32,
}

/// What the port reads as at an identification offset.
pub open spec fn identification(offset: u64) -> Option<u32> {
    match offset {
        0xFE0 => Some(0x11u32),
        0xFE4 => Some(0x10u32),
        0xFE8 => Some(0x14u32),
        0xFEC => Some(0x00u32),
        0xFF0 => Some(0x0Du32),
        0xFF4 => Some(0xF0u32),
        0xFF8 => Some(0x05u32),
        0xFFC => Some(0xB1u32),
        _ => None,
    }
}

/// What a register reads as, before the read. The data register gives the oldest byte
/// that was received.
pub open spec fn register(s: Pl011State, offset: u64) -> u32 {
    match identification(offset) {
        Some(id) => id,
        None => match offset {
            0x000 => if s.rx.len() > 0 {
                s.rx[0] as u32
            } else {
                0
            },
            0x018 => if s.rx.len() == 0 {
                0x90
            } else {
                0x80
            },
            0x020 => s.ilpr,
            0x024 => s.ibrd,
            0x028 => s.fbrd,
            0x02C => s.lcrh,
            0x030 => s.cr,
            0x034 => s.ifls,
            0x038 => s.imsc,
            0x03C => s.ris,
            0x040 => s.ris & s.imsc,
            0x048 => s.dmacr,
            _ => 0,
        },
    }
}

/// Whether a read takes a byte out of the port.
pub open spec fn takes_byte(s: Pl011State, offset: u64) -> bool {
    offset == 0 && s.rx.len() > 0
}

/// The port after a read. Taking the last byte clears the receive interrupt.
pub open spec fn after_read(s: Pl011State, offset: u64) -> Pl011State {
    if takes_byte(s, offset) {
        Pl011State {
            rx: s.rx.skip(1),
            ris: if s.rx.len() == 1 {
                s.ris & !INT_RX
            } else {
                s.ris
            },
            ..s
        }
    } else {
        s
    }
}

/// To what the interrupt line is set by a read: taking the last byte drops it.
pub open spec fn line_of_read(s: Pl011State, offset: u64) -> Option<bool> {
    if takes_byte(s, offset) && s.rx.len() == 1 {
        Some(false)
    } else {
        None
    }
}

/// Whether the receive interrupt is pending and not masked.
pub open spec fn asserted(s: Pl011State) -> bool {
    s.imsc & s.ris & INT_RX != 0
}

/// The port after a write.
pub open spec fn after_write(s: Pl011State, offset: u64, value: u32) -> Pl011State {
    match offset {
        0x020 => Pl011State { ilpr: value, ..s },
        0x024 => Pl011State { ibrd: value, ..s },
        0x028 => Pl011State { fbrd: value, ..s },
        0x02C => Pl011State { lcrh: value, ..s },
        0x030 => Pl011State { cr: value, ..s },
        0x034 => Pl011State { ifls: value, ..s },
        0x038 => Pl011State { imsc: value, ..s },
        0x044 => Pl011State { ris: s.ris & !value, ..s },
        0x048 => Pl011State { dmacr: value, ..s },
        _ => s,
    }
}

/// To what the interrupt line is set by a write: a change of the mask or of the status
/// sets it anew.
pub open spec fn line_of_write(s: Pl011State, offset: u64, value: u32) -> Option<bool> {
    if offset == 0x038 || offset == 0x044 {
        Some(asserted(after_write(s, offset, value)))
    } else {
        None
    }
}

/// The port after a byte was received.
pub open spec fn after_push(s: Pl011State, byte: u8) -> Pl011State {
    Pl011State { rx: s.rx.push(byte), ris: s.ris | INT_RX, ..s }
}

/// The bytes of a register as they are read: little-endian, and zero beyond.
pub open spec fn bus_bytes(value: u32, len: nat) -> Seq<u8> {
    Seq::new(
        len,
        |i: int|
            if i < 4 {
                wire::le32_bytes(value)[i]
            } else {
                0u8
            },
    )
}

/// The value of a write of `data`: its first four bytes, little-endian, with zero for
/// those that are missing.
pub open spec fn bus_value(data: Seq<u8>) -> u32 {
    (wire::le32(
        Seq::new(
            4,
            |i: int|
                if i < data.len() {
                    data[i]
                } else {
                    0u8
                },
        ),
        0,
    )) as u32
}

/// The serial port. What it does to its interrupt line is handed back by each operation,
/// as the level to which the line is to be set, if it is.
#[derive(Debug)]
pub struct Pl011<S: Pl011Sink> {
    sink: S,
    rx_queue: VecDeque<u8>,
    imsc: u32,
    ris: u32,
    ibrd: u32,
    fbrd: u32,
    lcrh: u32,
    cr: u32,
    ifls: u32,
    dmacr: u32,
    ilpr: u32,
    intid: u32,
}

impl<S: Pl011Sink> View for Pl011<S> {
    type V = Pl011State;

    closed spec fn view(&self) -> Pl011State {
        Pl011State {
            rx: self.rx_queue@,
            imsc: self.imsc,
            ris: self.ris,
            ibrd: self.ibrd,
            fbrd: self.fbrd,
            lcrh: self.lcrh,
            cr: self.cr,
            ifls: self.ifls,
            dmacr: self.dmacr,
            ilpr: self.ilpr,
        }
    }
}

impl<S: Pl011Sink> Pl011<S> {
    /// The bytes that were sent.
    pub closed spec fn sent(&self) -> Seq<u8> {
        self.sink.given()
    }

    /// The number of its interrupt.
    pub closed spec fn interrupt(&self) -> u32 {
        self.intid
    }

    /// A port that sends to `sink` and raises `intid`.
    pub fn new(sink: S, intid: u32) -> (p: Self)
        ensures
            p.sent() == sink.given(),
            p.interrupt() == intid,
            p@ == (Pl011State {
                rx: Seq::empty(),
                imsc: 0,
                ris: 0,
                ibrd: 0,
                fbrd: 0,
                lcrh: 0,
                cr: 0,
                ifls: 0,
                dmacr: 0,
                ilpr: 0,
            }),
    {
        Pl011 {
            sink,
            rx_queue: VecDeque::new(),
            imsc: 0,
            ris: 0,
            ibrd: 0,
            fbrd: 0,
            lcrh: 0,
            cr: 0,
            ifls: 0,
            dmacr: 0,
            ilpr: 0,
            intid,
        }
    }

    /// The number of its interrupt.
    pub fn intid(&self) -> (n: u32)
        ensures
            n == self.interrupt(),
    {
        self.intid
    }

    /// Where the bytes go.
    pub fn sink(&self) -> (s: &S)
        ensures
            s.given() == self.sent(),
    {
        &self.sink
    }

    /// Receives a byte. Gives the number of bytes that wait.
    pub fn push_rx(&mut self, byte: u8) -> (r: (usize, Option<bool>))
        ensures
            final(self)@ == after_push(old(self)@, byte),
            final(self).sent() == old(self).sent(),
            final(self).interrupt() == old(self).interrupt(),
            r.0 == final(self)@.rx.len(),
            r.1 == if old(self)@.imsc & INT_RX != 0 {
                Some(true)
            } else {
                None
            },
    {
        self.rx_queue.push_back(byte);
        self.ris = self.ris | INT_RX;
        let line: Option<bool> = if self.imsc & INT_RX != 0 {
            Some(true)
        } else {
            None
        };
        (self.rx_queue.len(), line)
    }

    fn read_dr(&mut self) -> (r: (u32, Option<bool>))
        ensures
            r.0 == register(old(self)@, 0),
            r.1 == line_of_read(old(self)@, 0),
            final(self)@ == after_read(old(self)@, 0),
            final(self).sent() == old(self).sent(),
            final(self).interrupt() == old(self).interrupt(),
    {
        let ghost before = self.rx_queue@;
        match self.rx_queue.pop_front() {
            Some(b) => {
                assert(self.rx_queue@ =~= before.skip(1));
                if self.rx_queue.len() == 0 {
                    self.ris = self.ris & !INT_RX;
                    (b as u32, Some(false))
                } else {
                    (b as u32, None)
                }
            },
            None => (0, None),
        }
    }

    /// Reads a register. Gives its value and the level of the line.
    pub fn read_register(&mut self, offset: u64) -> (r: (u32, Option<bool>))
        ensures
            r.0 == register(old(self)@, offset),
            r.1 == line_of_read(old(self)@, offset),
            final(self)@ == after_read(old(self)@, offset),
            final(self).sent() == old(self).sent(),
            final(self).interrupt() == old(self).interrupt(),
    {
        let value: u32 = match offset {
            0x000 => return self.read_dr(),
            0xFE0 => 0x11,
            0xFE4 => 0x10,
            0xFE8 => 0x14,
            0xFEC => 0x00,
            0xFF0 => 0x0D,
            0xFF4 => 0xF0,
            0xFF8 => 0x05,
            0xFFC => 0xB1,
            0x018 => if self.rx_queue.len() == 0 {
                FR_TX_EMPTY + FR_RX_EMPTY
            } else {
                FR_TX_EMPTY
            },
            0x020 => self.ilpr,
            0x024 => self.ibrd,
            0x028 => self.fbrd,
            0x02C => self.lcrh,
            0x030 => self.cr,
            0x034 => self.ifls,
            0x038 => self.imsc,
            0x03C => self.ris,
            0x040 => self.ris & self.imsc,
            0x048 => self.dmacr,
            _ => 0,
        };
        (value, None)
    }

    /// Writes a register. A write to the data register sends its lowest byte. Gives the
    /// level of the line.
    pub fn write_register(&mut self, offset: u64, value: u32) -> (line: Option<bool>)
        ensures
            line == line_of_write(old(self)@, offset, value),
            final(self)@ == after_write(old(self)@, offset, value),
            final(self).sent() == if offset == 0 {
                old(self).sent().push((value % 256) as u8)
            } else {
                old(self).sent()
            },
            final(self).interrupt() == old(self).interrupt(),
    {
        match offset {
            0x000 => {
                self.sink.write_byte((value % 256) as u8);
            },
            0x020 => {
                self.ilpr = value;
            },
            0x024 => {
                self.ibrd = value;
            },
            0x028 => {
                self.fbrd = value;
            },
            0x02C => {
                self.lcrh = value;
            },
            0x030 => {
                self.cr = value;
            },
            0x034 => {
                self.ifls = value;
            },
            0x038 => {
                self.imsc = value;
                return Some(self.imsc & self.ris & INT_RX != 0);
            },
            0x044 => {
                self.ris = self.ris & !value;
                return Some(self.imsc & self.ris & INT_RX != 0);
            },
            0x048 => {
                self.dmacr = value;
            },
            _ => {},
        }
        None
    }

    /// A read on the bus, of any width.
    pub fn read(&mut self, offset: u64, data: &mut [u8]) -> (line: Option<bool>)
        ensures
            final(data)@ == bus_bytes(register(old(self)@, offset), old(data)@.len()),
            line == line_of_read(old(self)@, offset),
            final(self)@ == after_read(old(self)@, offset),
            final(self).sent() == old(self).sent(),
            final(self).interrupt() == old(self).interrupt(),
    {
        let (value, line): (u32, Option<bool>) = self.read_register(offset);
        let bytes: [u8; 4] = to_le32(value);
        let n: usize = data.len();
        let mut i: usize = 0;
        while i < n
            invariant
                i <= n,
                n == data@.len(),
                bytes@ == wire::le32_bytes(value),
                forall|k: int| 0 <= k < i ==> data@[k] == bus_bytes(value, n as nat)[k],
            decreases n - i,
        {
            data[i] =
            if i < 4 {
                bytes[i]
            } else {
                0
            };
            i = i + 1;
        }
        assert(data@ =~= bus_bytes(value, n as nat));
        line
    }

    /// A write on the bus, of any width; its first four bytes count.
    pub fn write(&mut self, offset: u64, data: &[u8]) -> (line: Option<bool>)
        ensures
            line == line_of_write(old(self)@, offset, bus_value(data@)),
            final(self)@ == after_write(old(self)@, offset, bus_value(data@)),
            final(self).sent() == if offset == 0 {
                old(self).sent().push((bus_value(data@) % 256) as u8)
            } else {
                old(self).sent()
            },
            final(self).interrupt() == old(self).interrupt(),
    {
        let mut buf: [u8; 4] = [0u8; 4];
        let mut i: usize = 0;
        while i < 4
            invariant
                i <= 4,
                forall|k: int|
                    0 <= k < 4 ==> #[trigger] buf@[k] == if k < i && k < data@.len() {
                        data@[k]
                    } else {
                        0u8
                    },
            decreases 4 - i,
        {
            if i < data.len() {
                buf[i] = data[i];
            }
            i = i + 1;
        }
        let value: u32 = wire::read_le32(buf.as_slice(), 0);
        proof {
            let padded = Seq::new(
                4,
                |i: int|
                    if i < data@.len() {
                        data@[i]
                    } else {
                        0u8
                    },
            );
            assert(buf@ =~= padded);
        }
        self.write_register(offset, value)
    }

    /// The name of the device on the bus.
    pub fn debug_label(&self) -> (s: &'static str)
        ensures
            s@ == "PL011"@,
    {
        "PL011"
    }
}

/// What a guest reads of the identification does not depend on what it did before.
pub proof fn identification_is_fixed(s: Pl011State, t: Pl011State, offset: u64)
    requires
        identification(offset) is Some,
    ensures
        register(s, offset) == register(t, offset),
        after_read(s, offset) == s,
{
}

/// A control register reads as what was written to it.
pub proof fn control_registers_hold(s: Pl011State, offset: u64, value: u32)
    requires
        offset == 0x020 || offset == 0x024 || offset == 0x028 || offset == 0x02C || offset == 0x030
            || offset == 0x034 || offset == 0x038 || offset == 0x048,
    ensures
        register(after_write(s, offset, value), offset) == value,
{
}

/// The bytes after `pushed` were received.
pub open spec fn after_pushes(s: Pl011State, pushed: Seq<u8>) -> Pl011State
    decreases pushed.len(),
{
    if pushed.len() == 0 {
        s
    } else {
        after_push(after_pushes(s, pushed.drop_last()), pushed.last())
    }
}

/// Bytes are read in the order in which they were received.
pub proof fn bytes_come_in_order(s: Pl011State, pushed: Seq<u8>)
    requires
        s.rx.len() == 0,
        pushed.len() > 0,
    ensures
        after_pushes(s, pushed).rx == pushed,
        register(after_pushes(s, pushed), 0) == pushed[0],
        after_read(after_pushes(s, pushed), 0).rx == pushed.skip(1),
{
    received(s, pushed);
    assert(s.rx + pushed =~= pushed);
}

proof fn received(s: Pl011State, pushed: Seq<u8>)
    ensures
        after_pushes(s, pushed).rx == s.rx + pushed,
    decreases pushed.len(),
{
    if pushed.len() == 0 {
        assert(s.rx + pushed =~= s.rx);
    } else {
        received(s, pushed.drop_last());
        assert((s.rx + pushed.drop_last()).push(pushed.last()) =~= s.rx + pushed);
    }
}

/// A received byte is pending, and raises an interrupt that is not masked.
pub proof fn received_byte_is_pending(s: Pl011State, byte: u8)
    ensures
        after_push(s, byte).ris & INT_RX != 0,
        asserted(after_push(s, byte)) == (s.imsc & INT_RX != 0),
        register(after_push(s, byte), 0x040) & INT_RX == s.imsc & INT_RX,
{
    let imsc = s.imsc;
    let ris = s.ris;
    assert((ris | 0x10u32) & 0x10u32 != 0 && ((imsc & (ris | 0x10u32) & 0x10u32 != 0) == (imsc
        & 0x10u32 != 0)) && ((ris | 0x10u32) & imsc) & 0x10u32 == imsc & 0x10u32) by (bit_vector);
}

/// Taking the last byte and clearing the interrupt both leave it not pending.
pub proof fn interrupt_can_be_cleared(s: Pl011State, value: u32)
    ensures
        takes_byte(s, 0) && s.rx.len() == 1 ==> after_read(s, 0).ris & INT_RX == 0 && !asserted(
            after_read(s, 0),
        ),
        value & INT_RX != 0 ==> after_write(s, 0x044, value).ris & INT_RX == 0 && line_of_write(
            s,
            0x044,
            value,
        ) == Some(false),
{
    let imsc = s.imsc;
    let ris = s.ris;
    assert((ris & !0x10u32) & 0x10u32 == 0 && imsc & (ris & !0x10u32) & 0x10u32 == 0)
        by (bit_vector);
    assert(value & 0x10u32 != 0 ==> (ris & !value) & 0x10u32 == 0 && imsc & (ris & !value) & 0x10u32
        == 0) by (bit_vector);
}

/// What each register reads as: the data register the oldest byte that waits, the flags
/// that sending is done and whether nothing waits, the masked status the interrupts that are
/// both pending and let through, the others what they hold.
pub proof fn registers_read_as_they_are(s: Pl011State)
    ensures
        s.rx.len() == 0 ==> register(s, 0x000) == 0 && register(s, 0x018) == 0x90,
        s.rx.len() > 0 ==> register(s, 0x000) == s.rx[0] && register(s, 0x018) == 0x80,
        register(s, 0x020) == s.ilpr,
        register(s, 0x024) == s.ibrd,
        register(s, 0x028) == s.fbrd,
        register(s, 0x02C) == s.lcrh,
        register(s, 0x030) == s.cr,
        register(s, 0x034) == s.ifls,
        register(s, 0x038) == s.imsc,
        register(s, 0x03C) == s.ris,
        register(s, 0x040) == s.ris & s.imsc,
        register(s, 0x044) == 0,
        register(s, 0x048) == s.dmacr,
{
}

/// The identification is that of a PL011 of revision one; every other offset reads as zero.
pub proof fn identification_is_that_of_a_pl011(s: Pl011State, offset: u64)
    ensures
        register(s, 0xFE0) == 0x11,
        register(s, 0xFE4) == 0x10,
        register(s, 0xFE8) == 0x14,
        register(s, 0xFEC) == 0x00,
        register(s, 0xFF0) == 0x0D,
        register(s, 0xFF4) == 0xF0,
        register(s, 0xFF8) == 0x05,
        register(s, 0xFFC) == 0xB1,
        0x048 < offset < 0xFE0 || offset > 0xFFC || offset % 4 != 0 ==> register(s, offset) == 0,
{
}

/// A read changes the port only where it takes a byte: that byte is gone and the others
/// keep their order. The interrupt and its line drop with the last byte and not before.
pub proof fn reads_take_one_byte(s: Pl011State, offset: u64)
    ensures
        ({
            let t = after_read(s, offset);
            &&& offset != 0 || s.rx.len() == 0 ==> t == s && line_of_read(s, offset) is None
            &&& offset == 0 && s.rx.len() > 0 ==> {
                &&& t.rx.len() == s.rx.len() - 1
                &&& forall|i: int| 0 <= i < t.rx.len() ==> #[trigger] t.rx[i] == s.rx[i + 1]
                &&& (t.imsc, t.ibrd, t.fbrd, t.lcrh, t.cr, t.ifls, t.dmacr, t.ilpr) == (
                    s.imsc,
                    s.ibrd,
                    s.fbrd,
                    s.lcrh,
                    s.cr,
                    s.ifls,
                    s.dmacr,
                    s.ilpr,
                )
            }
            &&& offset == 0 && s.rx.len() > 1 ==> t.ris == s.ris && line_of_read(s, offset) is None
            &&& offset == 0 && s.rx.len() == 1 ==> t.ris == s.ris & 0xFFFF_FFEFu32 && line_of_read(
                s,
                offset,
            ) == Some(false)
        }),
{
    let ris = s.ris;
    assert(ris & !0x10u32 == ris & 0xFFFF_FFEFu32) by (bit_vector);
}

/// A write changes the register that it goes to and nothing else: a control register to the
/// value, the status by clearing the bits of the value. What was received stays.
pub proof fn writes_change_one_register(s: Pl011State, offset: u64, value: u32, other: u64)
    requires
        other != offset,
        other != 0x040 || (offset != 0x038 && offset != 0x044),
        other != 0x03C || offset != 0x044,
    ensures
        ({
            let t = after_write(s, offset, value);
            &&& t.rx == s.rx
            &&& register(t, other) == register(s, other)
            &&& offset == 0x044 ==> t.ris == s.ris & !value && t.imsc == s.imsc
            &&& offset == 0x038 ==> t.imsc == value && t.ris == s.ris
            &&& offset != 0x020 && offset != 0x024 && offset != 0x028 && offset != 0x02C && offset
                != 0x030 && offset != 0x034 && offset != 0x038 && offset != 0x044 && offset
                != 0x048 ==> t == s
        }),
{
}

/// The line follows the receive interrupt, the bit of value 16 in the mask and in the
/// status, whenever the mask or the status is written, and only then.
pub proof fn writes_set_the_line(s: Pl011State, offset: u64, value: u32)
    ensures
        line_of_write(s, offset, value) is Some <==> offset == 0x038 || offset == 0x044,
        line_of_write(s, 0x038, value) == Some(value & s.ris & 0x10u32 != 0),
        line_of_write(s, 0x044, value) == Some(s.imsc & (s.ris & !value) & 0x10u32 != 0),
{
}

/// A byte that is received comes last and makes the interrupt pending; nothing else changes.
pub proof fn received_bytes_come_last(s: Pl011State, byte: u8)
    ensures
        ({
            let t = after_push(s, byte);
            &&& t.rx.len() == s.rx.len() + 1
            &&& t.rx.last() == byte
            &&& forall|i: int| 0 <= i < s.rx.len() ==> #[trigger] t.rx[i] == s.rx[i]
            &&& t.ris == s.ris | 0x10u32
            &&& (t.imsc, t.ibrd, t.fbrd, t.lcrh, t.cr, t.ifls, t.dmacr, t.ilpr) == (
                s.imsc,
                s.ibrd,
                s.fbrd,
                s.lcrh,
                s.cr,
                s.ifls,
                s.dmacr,
                s.ilpr,
            )
        }),
{
}

/// A read of any width gives the lowest bytes of the register, the lowest first, and zeros
/// behind the fourth.
pub proof fn bus_reads_are_little_endian(value: u32, len: nat, i: int)
    requires
        0 <= i < len,
    ensures
        bus_bytes(value, len).len() == len,
        i == 0 ==> bus_bytes(value, len)[i] == value % 256,
        i == 1 ==> bus_bytes(value, len)[i] == value / 256 % 256,
        i == 2 ==> bus_bytes(value, len)[i] == value / 65536 % 256,
        i == 3 ==> bus_bytes(value, len)[i] == value / 16_777_216,
        i >= 4 ==> bus_bytes(value, len)[i] == 0,
{
}

/// A write of one, two or four bytes means the number that they are, the lowest byte first;
/// bytes behind the fourth do not count.
pub proof fn bus_writes_are_little_endian(data: Seq<u8>)
    ensures
        data.len() == 0 ==> bus_value(data) == 0,
        data.len() == 1 ==> bus_value(data) == data[0],
        data.len() == 2 ==> bus_value(data) == data[0] + 256 * data[1],
        data.len() == 3 ==> bus_value(data) == data[0] + 256 * data[1] + 65536 * data[2],
        data.len() >= 4 ==> bus_value(data) == data[0] + 256 * data[1] + 65536 * data[2]
            + 16_777_216 * data[3],
{
}

} // verus!
