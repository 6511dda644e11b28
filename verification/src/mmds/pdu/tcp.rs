//! TCP headers. Of the options only the maximum segment size is read, and none is
//! written.

use vstd::prelude::*;

use crate::mmds::pdu::{self, ones_complement_sum, PduError};
use crate::wire::{self, push_bytes, read_be16, read_be32, to_be16, to_be32};

verus! {

/// Length of a TCP header without options.
pub const TCP_HDR_LEN: usize = 20;

/// The sender has no more data.
pub const TCP_FIN: u8 = 1;

/// Synchronise sequence numbers.
pub const TCP_SYN: u8 = 2;

/// Reset the connection.
pub const TCP_RST: u8 = 4;

/// Push the data to the application.
pub const TCP_PSH: u8 = 8;

/// The acknowledgement number is valid.
pub const TCP_ACK: u8 = 16;

/// The flags that are read.
pub const FLAG_MASK: u8 = 0x3F;

/// The protocol number of TCP.
pub const PROTOCOL_TCP: u8 = 6;

/// A TCP header.
#[derive(Clone, Copy, Debug)]
pub struct TcpHeader {
    pub src_port: u16,
    pub dst_port: u16,
    pub seq: u32,
    pub ack: u32,
    /// Header length in words of four bytes.
    pub data_offset: u8,
    pub flags: u8,
    pub window: u16,
    pub checksum: u16,
    pub urgent: u16,
    /// The maximum segment size, if the option is there.
    pub mss: Option<u16>,
}

/// The last maximum-segment-size option among the options of `b` from `i` to `end`, or
/// `found` if there is none. The options end at an end marker or at one that does not
/// fit.
pub open spec fn mss_option(b: Seq<u8>, i: int, end: int, found: Option<u16>) -> Option<u16>
    decreases end - i,
{
    if i + 1 >= end || b[i] == 0 {
        found
    } else if b[i] == 1 {
        mss_option(b, i + 1, end, found)
    } else if b[i + 1] < 2 || i + b[i + 1] > end {
        found
    } else {
        let next = if b[i] == 2 && b[i + 1] == 4 {
            Some(wire::be16(b, i + 2) as u16)
        } else {
            found
        };
        mss_option(b, i + b[i + 1], end, next)
    }
}

/// The length that the pseudo-header carries.
pub open spec fn segment_len(n: int) -> u16 {
    if n > u16::MAX {
        u16::MAX
    } else {
        n as u16
    }
}

/// What the checksum of a segment runs over: addresses, protocol and length, then the
/// segment.
pub open spec fn pseudo(src: [u8; 4], dst: [u8; 4], segment: Seq<u8>) -> Seq<u8> {
    src@ + dst@ + seq![0u8, PROTOCOL_TCP] + wire::be16_bytes(segment_len(segment.len() as int))
        + segment
}

/// A header with its checksum field cleared.
pub open spec fn sum_cleared(h: Seq<u8>) -> Seq<u8> {
    h.update(16, 0).update(17, 0)
}

/// Length of the header that `b` starts with, in bytes.
pub open spec fn header_len(b: Seq<u8>) -> int {
    b[12] / 16 * 4
}

/// The header that `b` starts with, for a segment with `payload` between two addresses.
pub open spec fn tcp_parsed(b: Seq<u8>, payload: Seq<u8>, src: [u8; 4], dst: [u8; 4]) -> Result<
    TcpHeader,
    PduError,
> {
    if b.len() < TCP_HDR_LEN {
        Err(PduError::TooShort)
    } else if header_len(b) < TCP_HDR_LEN || b.len() < header_len(b) {
        Err(PduError::TooShort)
    } else if pdu::checksum(
        pseudo(src, dst, sum_cleared(b.subrange(0, header_len(b))) + payload),
    ) != wire::be16(b, 16) {
        Err(PduError::BadChecksum)
    } else {
        Ok(
            TcpHeader {
                src_port: wire::be16(b, 0) as u16,
                dst_port: wire::be16(b, 2) as u16,
                seq: wire::be32(b, 4) as u32,
                ack: wire::be32(b, 8) as u32,
                data_offset: (b[12] / 16) as u8,
                flags: (b[13] % 0x40) as u8,
                window: wire::be16(b, 14) as u16,
                checksum: 0,
                urgent: wire::be16(b, 18) as u16,
                mss: mss_option(b, TCP_HDR_LEN as int, header_len(b), None),
            },
        )
    }
}

/// The bytes of a header with `sum` in the checksum field.
pub open spec fn tcp_fields(h: TcpHeader, sum: u16) -> Seq<u8> {
    wire::be16_bytes(h.src_port) + wire::be16_bytes(h.dst_port) + wire::be32_bytes(h.seq)
        + wire::be32_bytes(h.ack) + seq![(h.data_offset % 16 * 16) as u8, h.flags]
        + wire::be16_bytes(h.window) + wire::be16_bytes(sum) + wire::be16_bytes(h.urgent)
}

/// The checksum of a segment.
pub open spec fn segment_sum(h: TcpHeader, src: [u8; 4], dst: [u8; 4], payload: Seq<u8>) -> u16 {
    pdu::checksum(pseudo(src, dst, tcp_fields(h, 0) + payload))
}

/// The bytes of a segment on the wire.
pub open spec fn tcp_wire(h: TcpHeader, src: [u8; 4], dst: [u8; 4], payload: Seq<u8>) -> Seq<u8> {
    tcp_fields(h, segment_sum(h, src, dst, payload)) + payload
}

/// A header without options.
pub open spec fn tcp_built(
    src_port: u16,
    dst_port: u16,
    seq: u32,
    ack: u32,
    flags: u8,
    window: u16,
) -> TcpHeader {
    TcpHeader {
        src_port,
        dst_port,
        seq,
        ack,
        data_offset: 5,
        flags,
        window,
        checksum: 0,
        urgent: 0,
        mss: None,
    }
}

/// Appends what the checksum of a segment of `len` bytes runs over before the segment.
fn push_pseudo(out: &mut Vec<u8>, src: [u8; 4], dst: [u8; 4], len: usize)
    ensures
        final(out)@ == old(out)@ + (src@ + dst@ + seq![0u8, PROTOCOL_TCP] + wire::be16_bytes(
            segment_len(len as int),
        )),
{
    let n: u16 = if len > u16::MAX as usize {
        u16::MAX
    } else {
        len as u16
    };
    push_bytes(out, src.as_slice());
    push_bytes(out, dst.as_slice());
    out.push(0);
    out.push(PROTOCOL_TCP);
    push_bytes(out, to_be16(n).as_slice());
    assert(out@ =~= old(out)@ + (src@ + dst@ + seq![0u8, PROTOCOL_TCP] + wire::be16_bytes(
        segment_len(len as int),
    )));
}

impl TcpHeader {
    /// Reads the header of a segment with `payload` between two addresses.
    pub fn parse(bytes: &[u8], payload: &[u8], src_ip: [u8; 4], dst_ip: [u8; 4]) -> (r: Result<
        Self,
        PduError,
    >)
        ensures
            r == tcp_parsed(bytes@, payload@, src_ip, dst_ip),
    {
        let b = bytes;
        if b.len() < TCP_HDR_LEN {
            return Err(PduError::TooShort);
        }
        let data_offset: u8 = b[12] / 16;
        let hdr_len: usize = data_offset as usize * 4;
        if hdr_len < TCP_HDR_LEN || b.len() < hdr_len {
            return Err(PduError::TooShort);
        }
        let mut mss: Option<u16> = None;
        let mut i: usize = TCP_HDR_LEN;
        while i + 1 < hdr_len && b[i] != 0
            invariant_except_break
                TCP_HDR_LEN <= i <= hdr_len <= b@.len(),
                hdr_len <= 60,
                mss_option(b@, i as int, hdr_len as int, mss) == mss_option(
                    b@,
                    TCP_HDR_LEN as int,
                    hdr_len as int,
                    None,
                ),
            ensures
                mss == mss_option(b@, TCP_HDR_LEN as int, hdr_len as int, None),
            decreases hdr_len - i,
        {
            if b[i] == 1 {
                i = i + 1;
                continue;
            }
            let len: usize = b[i + 1] as usize;
            if len < 2 || i + len > hdr_len {
                break;
            }
            if b[i] == 2 && len == 4 {
                mss = Some(read_be16(b, i + 2));
            }
            i = i + len;
        }
        let mut sum_buf: Vec<u8> = Vec::new();
        push_pseudo(&mut sum_buf, src_ip, dst_ip, payload.len().saturating_add(hdr_len));
        push_bytes(&mut sum_buf, vstd::slice::slice_subrange(b, 0, 16));
        sum_buf.push(0);
        sum_buf.push(0);
        push_bytes(&mut sum_buf, vstd::slice::slice_subrange(b, 18, hdr_len));
        push_bytes(&mut sum_buf, payload);
        assert(sum_buf@ =~= pseudo(
            src_ip,
            dst_ip,
            sum_cleared(b@.subrange(0, hdr_len as int)) + payload@,
        ));
        if ones_complement_sum(sum_buf.as_slice()) != read_be16(b, 16) {
            return Err(PduError::BadChecksum);
        }
        Ok(
            TcpHeader {
                src_port: read_be16(b, 0),
                dst_port: read_be16(b, 2),
                seq: read_be32(b, 4),
                ack: read_be32(b, 8),
                data_offset,
                flags: b[13] % 0x40,
                window: read_be16(b, 14),
                checksum: 0,
                urgent: read_be16(b, 18),
                mss,
            },
        )
    }

    /// A header without options.
    pub fn build(
        src_port: u16,
        dst_port: u16,
        seq: u32,
        ack: u32,
        flags: u8,
        window: u16,
    ) -> (h: Self)
        ensures
            h == tcp_built(src_port, dst_port, seq, ack, flags, window),
    {
        TcpHeader {
            src_port,
            dst_port,
            seq,
            ack,
            data_offset: 5,
            flags,
            window,
            checksum: 0,
            urgent: 0,
            mss: None,
        }
    }

    fn push_fields(&self, out: &mut Vec<u8>, sum: u16)
        ensures
            final(out)@ == old(out)@ + tcp_fields(*self, sum),
    {
        push_bytes(out, to_be16(self.src_port).as_slice());
        push_bytes(out, to_be16(self.dst_port).as_slice());
        push_bytes(out, to_be32(self.seq).as_slice());
        push_bytes(out, to_be32(self.ack).as_slice());
        out.push(self.data_offset % 16 * 16);
        out.push(self.flags);
        push_bytes(out, to_be16(self.window).as_slice());
        push_bytes(out, to_be16(sum).as_slice());
        push_bytes(out, to_be16(self.urgent).as_slice());
        assert(out@ =~= old(out)@ + tcp_fields(*self, sum));
    }

    /// The bytes of the header and a payload, with the checksum filled in.
    pub fn to_bytes_with_payload(&self, src_ip: [u8; 4], dst_ip: [u8; 4], payload: &[u8]) -> (out:
        Vec<u8>)
        ensures
            out@ == tcp_wire(*self, src_ip, dst_ip, payload@),
    {
        let mut sum_buf: Vec<u8> = Vec::new();
        push_pseudo(&mut sum_buf, src_ip, dst_ip, payload.len().saturating_add(TCP_HDR_LEN));
        self.push_fields(&mut sum_buf, 0);
        push_bytes(&mut sum_buf, payload);
        assert(sum_buf@ =~= pseudo(src_ip, dst_ip, tcp_fields(*self, 0) + payload@));
        let sum: u16 = ones_complement_sum(sum_buf.as_slice());
        let mut out: Vec<u8> = Vec::new();
        self.push_fields(&mut out, sum);
        push_bytes(&mut out, payload);
        assert(out@ =~= tcp_wire(*self, src_ip, dst_ip, payload@));
        out
    }

    /// The bytes of the header of a segment without payload.
    pub fn to_bytes_header_only(&self, src_ip: [u8; 4], dst_ip: [u8; 4]) -> (out: Vec<u8>)
        ensures
            out@ == tcp_wire(*self, src_ip, dst_ip, Seq::empty()),
    {
        let none: [u8; 0] = [];
        assert(none@ =~= Seq::<u8>::empty());
        self.to_bytes_with_payload(src_ip, dst_ip, none.as_slice())
    }

    /// Whether the synchronise flag is set.
    pub fn is_syn(&self) -> (b: bool)
        ensures
            b == has_flag(*self, TCP_SYN),
    {
        self.flags & TCP_SYN != 0
    }

    /// Whether the final flag is set.
    pub fn is_fin(&self) -> (b: bool)
        ensures
            b == has_flag(*self, TCP_FIN),
    {
        self.flags & TCP_FIN != 0
    }

    /// Whether the reset flag is set.
    pub fn is_rst(&self) -> (b: bool)
        ensures
            b == has_flag(*self, TCP_RST),
    {
        self.flags & TCP_RST != 0
    }

    /// Whether the acknowledgement flag is set.
    pub fn is_ack(&self) -> (b: bool)
        ensures
            b == has_flag(*self, TCP_ACK),
    {
        self.flags & TCP_ACK != 0
    }
}

/// Whether a flag is set.
pub open spec fn has_flag(h: TcpHeader, flag: u8) -> bool {
    h.flags & flag != 0
}

/// Reading back the bytes of a segment whose header has no options gives the header.
pub proof fn tcp_round_trip(h: TcpHeader, src: [u8; 4], dst: [u8; 4], payload: Seq<u8>)
    requires
        h.data_offset == 5,
        h.flags < 0x40,
        h.checksum == 0,
        h.mss is None,
    ensures
        tcp_parsed(
            tcp_wire(h, src, dst, payload).subrange(0, TCP_HDR_LEN as int),
            payload,
            src,
            dst,
        ) == Ok::<TcpHeader, PduError>(h),
{
    let sum = segment_sum(h, src, dst, payload);
    let f = tcp_fields(h, sum);
    let b = tcp_wire(h, src, dst, payload).subrange(0, TCP_HDR_LEN as int);
    assert(b =~= f);
    assert(f[0] == wire::be16_bytes(h.src_port)[0] && f[1] == wire::be16_bytes(h.src_port)[1]);
    assert(f[2] == wire::be16_bytes(h.dst_port)[0] && f[3] == wire::be16_bytes(h.dst_port)[1]);
    assert(f[4] == wire::be32_bytes(h.seq)[0] && f[5] == wire::be32_bytes(h.seq)[1] && f[6]
        == wire::be32_bytes(h.seq)[2] && f[7] == wire::be32_bytes(h.seq)[3]);
    assert(f[8] == wire::be32_bytes(h.ack)[0] && f[9] == wire::be32_bytes(h.ack)[1] && f[10]
        == wire::be32_bytes(h.ack)[2] && f[11] == wire::be32_bytes(h.ack)[3]);
    assert(f[14] == wire::be16_bytes(h.window)[0] && f[15] == wire::be16_bytes(h.window)[1]);
    assert(f[16] == wire::be16_bytes(sum)[0] && f[17] == wire::be16_bytes(sum)[1]);
    assert(f[18] == wire::be16_bytes(h.urgent)[0] && f[19] == wire::be16_bytes(h.urgent)[1]);
    assert(sum_cleared(b.subrange(0, 20)) =~= tcp_fields(h, 0));
    wire::be32_of_bytes(h.seq);
    wire::be32_of_bytes(h.ack);
}

/// Which bytes start with a TCP header that is taken: at least twenty of them, as long as
/// the header says in words of four bytes, five or more, and a sum of all words of the
/// addresses, the protocol, the length, the header and the payload that is a multiple of
/// 65535. Options are part of the header and no reason to refuse it.
pub proof fn valid_segments_are_read(b: Seq<u8>, payload: Seq<u8>, src: [u8; 4], dst: [u8; 4])
    requires
        b.len() >= 20,
        b.len() == b[12] / 16 * 4,
        b.len() + payload.len() <= 0xFFFF,
        !(b[16] == 0xFF && b[17] == 0xFF),
    ensures
        tcp_parsed(b, payload, src, dst) is Ok <==> pdu::word_sum(
            src@ + dst@ + seq![
                0u8,
                6u8,
                ((b.len() + payload.len()) / 256) as u8,
                ((b.len() + payload.len()) % 256) as u8,
            ] + (b + payload),
        ) % 0xFFFF == 0,
        tcp_parsed(b, payload, src, dst) is Ok || tcp_parsed(b, payload, src, dst) == Err::<
            TcpHeader,
            PduError,
        >(PduError::BadChecksum),
        tcp_parsed(b, payload, src, dst) matches Ok(h) ==> {
            &&& h.src_port == b[0] * 256 + b[1]
            &&& h.dst_port == b[2] * 256 + b[3]
            &&& h.seq == ((b[4] * 256 + b[5]) * 256 + b[6]) * 256 + b[7]
            &&& h.ack == ((b[8] * 256 + b[9]) * 256 + b[10]) * 256 + b[11]
            &&& h.data_offset == b.len() / 4
            &&& h.flags == b[13] % 64
            &&& h.window == b[14] * 256 + b[15]
            &&& h.urgent == b[18] * 256 + b[19]
        },
{
    let n = (b.len() + payload.len()) as int;
    let whole = src@ + dst@ + seq![0u8, 6u8, (n / 256) as u8, (n % 256) as u8] + (b + payload);
    let cleared = pseudo(src, dst, sum_cleared(b) + payload);
    assert(b.subrange(0, header_len(b)) =~= b);
    assert(cleared =~= whole.update(28, 0).update(29, 0));
    assert(whole[28] == b[16] && whole[29] == b[17]);
    pdu::clearing_a_word(whole, 28);
    assert(cleared[9] == 6);
    pdu::word_sum_positive(cleared, 9);
    pdu::checksum_completes_the_sum(cleared, wire::be16(b, 16) as u16);
}

/// Bytes that are fewer than twenty, or than the header says, or a header that says less
/// than twenty are too short.
pub proof fn short_segments_are_refused(b: Seq<u8>, payload: Seq<u8>, src: [u8; 4], dst: [u8; 4])
    requires
        b.len() < 20 || b[12] / 16 < 5 || b.len() < b[12] / 16 * 4,
    ensures
        tcp_parsed(b, payload, src, dst) == Err::<TcpHeader, PduError>(PduError::TooShort),
{
}

/// A segment that is written has its fields where the protocol puts them, the payload after
/// them, and with the addresses, the protocol and the length a sum of words that is a
/// multiple of 65535.
pub proof fn written_segments_are_right(
    h: TcpHeader,
    src: [u8; 4],
    dst: [u8; 4],
    payload: Seq<u8>,
)
    requires
        payload.len() + 20 <= 0xFFFF,
    ensures
        ({
            let w = tcp_wire(h, src, dst, payload);
            &&& w.len() == 20 + payload.len()
            &&& w[0] * 256 + w[1] == h.src_port
            &&& w[2] * 256 + w[3] == h.dst_port
            &&& ((w[4] * 256 + w[5]) * 256 + w[6]) * 256 + w[7] == h.seq
            &&& ((w[8] * 256 + w[9]) * 256 + w[10]) * 256 + w[11] == h.ack
            &&& w[12] == h.data_offset % 16 * 16
            &&& w[13] == h.flags
            &&& w[14] * 256 + w[15] == h.window
            &&& w[18] * 256 + w[19] == h.urgent
            &&& w.skip(20) == payload
            &&& pdu::word_sum(
                src@ + dst@ + seq![
                    0u8,
                    6u8,
                    ((20 + payload.len()) / 256) as u8,
                    ((20 + payload.len()) % 256) as u8,
                ] + w,
            ) % 0xFFFF == 0
        }),
{
    let sum = segment_sum(h, src, dst, payload);
    let f = tcp_fields(h, sum);
    let w = tcp_wire(h, src, dst, payload);
    let n = 20 + payload.len() as int;
    let whole = src@ + dst@ + seq![0u8, 6u8, (n / 256) as u8, (n % 256) as u8] + w;
    let cleared = pseudo(src, dst, tcp_fields(h, 0) + payload);
    assert(w.skip(20) =~= payload);
    assert(f[0] == wire::be16_bytes(h.src_port)[0] && f[1] == wire::be16_bytes(h.src_port)[1]);
    assert(f[2] == wire::be16_bytes(h.dst_port)[0] && f[3] == wire::be16_bytes(h.dst_port)[1]);
    assert(f[4] == wire::be32_bytes(h.seq)[0] && f[5] == wire::be32_bytes(h.seq)[1] && f[6]
        == wire::be32_bytes(h.seq)[2] && f[7] == wire::be32_bytes(h.seq)[3]);
    assert(f[8] == wire::be32_bytes(h.ack)[0] && f[9] == wire::be32_bytes(h.ack)[1] && f[10]
        == wire::be32_bytes(h.ack)[2] && f[11] == wire::be32_bytes(h.ack)[3]);
    assert(f[14] == wire::be16_bytes(h.window)[0] && f[15] == wire::be16_bytes(h.window)[1]);
    assert(f[16] == wire::be16_bytes(sum)[0] && f[17] == wire::be16_bytes(sum)[1]);
    assert(f[18] == wire::be16_bytes(h.urgent)[0] && f[19] == wire::be16_bytes(h.urgent)[1]);
    assert(forall|i: int| 0 <= i < 20 ==> w[i] == f[i]);
    wire::be32_of_bytes(h.seq);
    wire::be32_of_bytes(h.ack);
    assert(whole.update(28, 0).update(29, 0) =~= cleared);
    assert(whole[28] == f[16] && whole[29] == f[17]);
    pdu::clearing_a_word(whole, 28);
    assert(cleared[9] == 6);
    pdu::word_sum_positive(cleared, 9);
    pdu::checksum_completes_the_sum(cleared, sum);
}

/// A header that was read was as long as it says, and its checksum field was not 65535.
pub proof fn read_headers_were_whole(b: Seq<u8>, payload: Seq<u8>, src: [u8; 4], dst: [u8; 4])
    requires
        tcp_parsed(b, payload, src, dst) is Ok,
    ensures
        b.len() >= 20,
        b[12] / 16 >= 5,
        b.len() >= b[12] / 16 * 4,
        !(b[16] == 0xFF && b[17] == 0xFF),
{
    let cleared = pseudo(src, dst, sum_cleared(b.subrange(0, header_len(b))) + payload);
    assert(cleared[9] == 6);
    pdu::word_sum_positive(cleared, 9);
    pdu::checksum_completes_the_sum(cleared, 0xFFFF);
}

/// How the largest segment size is looked for among the options: the end mark stops it,
/// padding and other options are passed over by their length, and the option of kind two
/// and four bytes gives its two last bytes, the higher first. One that is broken off, or
/// claims less than its own two bytes or more than is left, stops it too.
pub proof fn options_are_passed_in_turn(b: Seq<u8>, i: int, end: int, found: Option<u16>)
    requires
        0 <= i,
        end <= b.len(),
    ensures
        i + 1 >= end ==> mss_option(b, i, end, found) == found,
        i + 1 < end ==> {
            &&& b[i] == 0 ==> mss_option(b, i, end, found) == found
            &&& b[i] == 1 ==> mss_option(b, i, end, found) == mss_option(b, i + 1, end, found)
            &&& b[i] > 1 && (b[i + 1] < 2 || i + b[i + 1] > end) ==> mss_option(b, i, end, found)
                == found
            &&& b[i] > 1 && 2 <= b[i + 1] <= end - i && !(b[i] == 2 && b[i + 1] == 4)
                ==> mss_option(b, i, end, found) == mss_option(b, i + b[i + 1], end, found)
            &&& b[i] == 2 && b[i + 1] == 4 && i + 4 <= end ==> mss_option(b, i, end, found)
                == mss_option(b, i + 4, end, Some((256 * b[i + 2] + b[i + 3]) as u16))
        },
{
}

} // verus!
