//! The serial port.

use squib::arch::IntId;
use squib::legacy::pl011::{CapturedSink, DiscardSink, Pl011, Pl011Sink, FR_RX_EMPTY, INT_RX};

fn build() -> Pl011<CapturedSink> {
    Pl011::new(CapturedSink::new(), IntId::from_spi_cell(1).unwrap().as_raw())
}

fn read32<S: Pl011Sink>(pl011: &mut Pl011<S>, offset: u64) -> u32 {
    let mut buf = [0u8; 4];
    pl011.read(offset, &mut buf);
    u32::from_le_bytes(buf)
}

fn write32<S: Pl011Sink>(pl011: &mut Pl011<S>, offset: u64, value: u32) {
    pl011.write(offset, &value.to_le_bytes());
}

#[test]
fn test_should_expose_pl011_r1p5_periph_pcell_id_for_linux_probe() {
    let mut pl011 = build();
    assert_eq!(read32(&mut pl011, 0xFE0), 0x11);
    assert_eq!(read32(&mut pl011, 0xFE4), 0x10);
    assert_eq!(read32(&mut pl011, 0xFE8), 0x14);
    assert_eq!(read32(&mut pl011, 0xFEC), 0x00);
    assert_eq!(read32(&mut pl011, 0xFF0), 0x0D);
    assert_eq!(read32(&mut pl011, 0xFF4), 0xF0);
    assert_eq!(read32(&mut pl011, 0xFF8), 0x05);
    assert_eq!(read32(&mut pl011, 0xFFC), 0xB1);
}

#[test]
fn test_should_emit_each_dr_write_to_sink_synchronously() {
    let mut pl011 = build();
    write32(&mut pl011, 0x000, b'H' as u32);
    write32(&mut pl011, 0x000, b'i' as u32);
    write32(&mut pl011, 0x000, b'\n' as u32);
    assert_eq!(pl011.sink().snapshot(), b"Hi\n");
}

#[test]
fn test_should_report_rx_empty_until_push_rx() {
    let mut pl011 = build();
    let fr = read32(&mut pl011, 0x018);
    assert!(fr & FR_RX_EMPTY != 0);
    pl011.push_rx(b'A');
    let fr = read32(&mut pl011, 0x018);
    assert!(fr & FR_RX_EMPTY == 0);
}

#[test]
fn test_should_drain_rx_byte_via_dr_read() {
    let mut pl011 = build();
    pl011.push_rx(b'X');
    let v = read32(&mut pl011, 0x000);
    assert_eq!(v as u8, b'X');
    let fr = read32(&mut pl011, 0x018);
    assert!(fr & FR_RX_EMPTY != 0);
}

#[test]
fn test_should_drive_gic_line_when_imsc_rx_set_and_data_arrives() {
    let mut pl011 = build();
    write32(&mut pl011, 0x038, INT_RX);
    let (queued, line) = pl011.push_rx(b'Q');
    assert_eq!(pl011.intid(), 33);
    assert_eq!(queued, 1);
    assert_eq!(line, Some(true));
}

#[test]
fn test_should_drop_gic_line_after_dr_drains_last_byte() {
    let mut pl011 = build();
    write32(&mut pl011, 0x038, INT_RX);
    pl011.push_rx(b'Z');
    let mut buf = [0u8; 4];
    let line = pl011.read(0x000, &mut buf);
    assert_eq!(pl011.intid(), 33);
    assert_eq!(line, Some(false));
}

#[test]
fn test_should_clear_ris_bit_on_icr_write() {
    let mut pl011 = build();
    write32(&mut pl011, 0x038, INT_RX);
    pl011.push_rx(b'!');
    let ris = read32(&mut pl011, 0x03C);
    assert!(ris & INT_RX != 0);
    write32(&mut pl011, 0x044, INT_RX);
    let ris = read32(&mut pl011, 0x03C);
    assert!(ris & INT_RX == 0);
}

#[test]
fn test_should_reflect_baud_and_line_control_writes() {
    let mut pl011 = build();
    write32(&mut pl011, 0x024, 26);
    write32(&mut pl011, 0x028, 3);
    write32(&mut pl011, 0x02C, 0x70);
    write32(&mut pl011, 0x030, 0x301);
    assert_eq!(read32(&mut pl011, 0x024), 26);
    assert_eq!(read32(&mut pl011, 0x028), 3);
    assert_eq!(read32(&mut pl011, 0x02C), 0x70);
    assert_eq!(read32(&mut pl011, 0x030), 0x301);
}

#[test]
fn test_should_zero_fill_short_reads_without_panicking() {
    let mut pl011 = build();
    let mut byte = [0xAAu8; 1];
    pl011.read(0x000, &mut byte);
    assert_eq!(byte, [0u8; 1]);
}

#[test]
fn test_mis_combines_ris_with_imsc() {
    let mut pl011 = build();
    pl011.push_rx(b'M');
    assert_eq!(read32(&mut pl011, 0x040), 0);
    write32(&mut pl011, 0x038, INT_RX);
    let mis = read32(&mut pl011, 0x040);
    assert_eq!(mis & INT_RX, INT_RX);
}

struct Shared(std::rc::Rc<std::cell::RefCell<Vec<u8>>>);

impl Pl011Sink for Shared {
    fn write_byte(&mut self, byte: u8) {
        self.0.borrow_mut().push(byte);
    }
}

#[test]
fn sinks_of_any_kind_get_the_bytes() {
    let buf = std::rc::Rc::new(std::cell::RefCell::new(Vec::<u8>::new()));
    let mut pl011 = Pl011::new(Shared(buf.clone()), 33);
    write32(&mut pl011, 0x000, u32::from(b'O'));
    write32(&mut pl011, 0x000, u32::from(b'K'));
    assert_eq!(buf.borrow().as_slice(), b"OK");
    let mut quiet = Pl011::new(DiscardSink::new(), 33);
    write32(&mut quiet, 0x000, u32::from(b'O'));
    assert_eq!(quiet.debug_label(), "PL011");
}

#[test]
fn bytes_that_are_no_text_are_shown_as_replacements() {
    let mut pl011 = build();
    for byte in [b'a', 0xff, b'b'] {
        write32(&mut pl011, 0x000, u32::from(byte));
    }
    assert_eq!(pl011.sink().as_string_lossy(), "a\u{fffd}b");
}

#[test]
fn received_bytes_keep_their_order() {
    let mut pl011 = build();
    for byte in *b"abc" {
        pl011.push_rx(byte);
    }
    let got: Vec<u8> = (0..4).map(|_| read32(&mut pl011, 0x000) as u8).collect();
    assert_eq!(got, b"abc\0");
}

#[test]
fn unknown_registers_read_as_nothing() {
    let mut pl011 = build();
    assert_eq!(pl011.read_register(0x100), (0, None));
    assert_eq!(pl011.write_register(0x100, 7), None);
    let mut wide = [0xAAu8; 6];
    pl011.read(0xFE0, &mut wide);
    assert_eq!(wide, [0x11, 0, 0, 0, 0, 0]);
}
