//! Ethernet and ARP headers, and the checksum that IPv4 and TCP share.

use vstd::prelude::*;
use vstd::string::*;

use crate::wire::{self, push_bytes, read_be16, to_be16};

pub mod ipv4;
pub mod tcp;

verus! {

/// Length of an Ethernet header.
pub const ETHER_HDR_LEN: usize = 14;

/// Frame type of IPv4.
pub const ETHERTYPE_IPV4: u16 = 0x0800;

/// Frame type of ARP.
pub const ETHERTYPE_ARP: u16 = 0x0806;

/// Length of an ARP packet for IPv4 over Ethernet.
pub const ARP_PACKET_LEN: usize = 28;

/// ARP hardware type of Ethernet.
pub const ARP_HTYPE_ETHER: u16 = 1;

/// ARP protocol type of IPv4.
pub const ARP_PTYPE_IPV4: u16 = 0x0800;

/// Length of an Ethernet address.
pub const ARP_HLEN: u8 = 6;

/// Length of an IPv4 address.
pub const ARP_PLEN: u8 = 4;

/// ARP operation of a request.
pub const ARP_OP_REQUEST: u16 = 1;

/// ARP operation of a reply.
pub const ARP_OP_REPLY: u16 = 2;

/// Why bytes are not a packet.
#[derive(Clone, Copy, Debug, PartialEq, Eq)]
#[non_exhaustive]
pub enum PduError {
    /// Shorter than the header.
    TooShort,
    /// A field has a value that is not handled.
    Unsupported(&'static str),
    /// The checksum does not match.
    BadChecksum,
}

/// The text of a packet error.
pub open spec fn pdu_error_text(e: PduError) -> Seq<char> {
    match e {
        PduError::TooShort => "PDU too short"@,
        PduError::Unsupported(what) => "PDU has unsupported field: "@ + what@,
        PduError::BadChecksum => "PDU checksum mismatch"@,
    }
}

impl PduError {
    /// The text of the error.
    pub fn message(&self) -> (s: String)
        ensures
            s@ == pdu_error_text(*self),
    {
        let mut s = String::new();
        match self {
            PduError::TooShort => {
                s.append("PDU too short");
            },
            PduError::Unsupported(what) => {
                s.append("PDU has unsupported field: ");
                s.append(what);
            },
            PduError::BadChecksum => {
                s.append("PDU checksum mismatch");
            },
        }
        assert(s@ =~= pdu_error_text(*self));
        s
    }
}

/// The sum of the bytes taken as 16-bit big-endian words, an odd last byte filled up
/// with zero.
pub open spec fn word_sum(bytes: Seq<u8>) -> nat
    decreases bytes.len(),
{
    if bytes.len() == 0 {
        0
    } else if bytes.len() == 1 {
        bytes[0] as nat * 256
    } else {
        (wire::be16(bytes, 0) as nat) + word_sum(bytes.skip(2))
    }
}

/// A sum folded into 16 bits by adding every carry back in.
pub open spec fn folded(sum: nat) -> nat {
    if sum == 0 {
        0
    } else {
        ((sum - 1) % 0xFFFF + 1) as nat
    }
}

/// The internet checksum: the complement of the folded sum.
pub open spec fn checksum(bytes: Seq<u8>) -> u16 {
    (0xFFFF - folded(word_sum(bytes))) as u16
}

/// One addition with the carry added back in.
fn carry_add(sum: u32, word: u16) -> (r: u32)
    requires
        sum <= 0xFFFF,
    ensures
        r <= 0xFFFF,
        forall|total: nat| sum == #[trigger] folded(total) ==> r == folded(total + word as nat),
{
    let t: u32 = sum + word as u32;
    if t > 0xFFFF {
        t - 0xFFFF
    } else {
        t
    }
}

/// The internet checksum of `bytes`.
pub fn ones_complement_sum(bytes: &[u8]) -> (r: u16)
    ensures
        r == checksum(bytes@),
{
    let mut sum: u32 = 0;
    let mut i: usize = 0;
    let ghost mut total: nat = 0;
    assert(bytes@.skip(0) =~= bytes@);
    while i < bytes.len() && bytes.len() - i >= 2
        invariant
            i <= bytes@.len(),
            sum <= 0xFFFF,
            sum == folded(total),
            total + word_sum(bytes@.skip(i as int)) == word_sum(bytes@),
        decreases bytes@.len() - i,
    {
        let word: u16 = read_be16(bytes, i);
        proof {
            let rest = bytes@.skip(i as int);
            assert(rest.skip(2) =~= bytes@.skip(i + 2));
            assert(wire::be16(rest, 0) == word);
        }
        sum = carry_add(sum, word);
        proof {
            total = total + word as nat;
        }
        i = i + 2;
    }
    if i < bytes.len() {
        let word: u16 = bytes[i] as u16 * 256;
        proof {
            assert(bytes@.skip(i as int)[0] == bytes@[i as int]);
        }
        sum = carry_add(sum, word);
        proof {
            total = total + word as nat;
        }
    }
    assert(total == word_sum(bytes@));
    (0xFFFF - sum) as u16
}

/// An Ethernet header.
#[derive(Clone, Copy, Debug)]
pub struct EthernetHeader {
    pub dst: [u8; 6],
    pub src: [u8; 6],
    pub ethertype: u16,
}

/// The bytes of an Ethernet header.
pub open spec fn eth_bytes(h: EthernetHeader) -> Seq<u8> {
    h.dst@ + h.src@ + wire::be16_bytes(h.ethertype)
}

/// The Ethernet header that a frame starts with.
pub open spec fn eth_parsed(f: Seq<u8>) -> Result<EthernetHeader, PduError> {
    if f.len() < ETHER_HDR_LEN {
        Err(PduError::TooShort)
    } else {
        Ok(
            EthernetHeader {
                dst: [f[0], f[1], f[2], f[3], f[4], f[5]],
                src: [f[6], f[7], f[8], f[9], f[10], f[11]],
                ethertype: wire::be16(f, 12) as u16,
            },
        )
    }
}

impl EthernetHeader {
    /// Reads the header of a frame.
    pub fn parse(frame: &[u8]) -> (r: Result<Self, PduError>)
        ensures
            r == eth_parsed(frame@),
    {
        if frame.len() < ETHER_HDR_LEN {
            return Err(PduError::TooShort);
        }
        Ok(
            EthernetHeader {
                dst: [frame[0], frame[1], frame[2], frame[3], frame[4], frame[5]],
                src: [frame[6], frame[7], frame[8], frame[9], frame[10], frame[11]],
                ethertype: read_be16(frame, 12),
            },
        )
    }

    /// The bytes of the header.
    pub fn to_bytes(&self) -> (r: [u8; 14])
        ensures
            r@ == eth_bytes(*self),
    {
        let t = to_be16(self.ethertype);
        let d = self.dst;
        let s = self.src;
        let r = [
            d[0], d[1], d[2], d[3], d[4], d[5], s[0], s[1], s[2], s[3], s[4], s[5], t[0], t[1],
        ];
        assert(r@ =~= eth_bytes(*self));
        r
    }
}

/// Reading back the bytes of an Ethernet header, whatever follows them, gives the header.
pub proof fn eth_round_trip(h: EthernetHeader, rest: Seq<u8>)
    ensures
        eth_parsed(eth_bytes(h) + rest) == Ok::<EthernetHeader, PduError>(h),
{
    let f = eth_bytes(h) + rest;
    let p = eth_parsed(f)->Ok_0;
    assert(p.dst =~= h.dst);
    assert(p.src =~= h.src);
    assert(f[12] == wire::be16_bytes(h.ethertype)[0]);
    assert(f[13] == wire::be16_bytes(h.ethertype)[1]);
}

/// An ARP packet for IPv4 over Ethernet.
#[derive(Clone, Copy, Debug)]
pub struct ArpPacket {
    pub op: u16,
    pub sender_mac: [u8; 6],
    pub sender_ip: [u8; 4],
    pub target_mac: [u8; 6],
    pub target_ip: [u8; 4],
}

/// The bytes of an ARP packet.
pub open spec fn arp_bytes(a: ArpPacket) -> Seq<u8> {
    wire::be16_bytes(ARP_HTYPE_ETHER) + wire::be16_bytes(ARP_PTYPE_IPV4) + seq![ARP_HLEN, ARP_PLEN]
        + wire::be16_bytes(a.op) + a.sender_mac@ + a.sender_ip@ + a.target_mac@ + a.target_ip@
}

/// The ARP packet that `b` starts with.
pub open spec fn arp_parsed(b: Seq<u8>) -> Result<ArpPacket, PduError> {
    if b.len() < ARP_PACKET_LEN {
        Err(PduError::TooShort)
    } else if wire::be16(b, 0) != ARP_HTYPE_ETHER {
        Err(PduError::Unsupported("ARP htype is not Ethernet"))
    } else if wire::be16(b, 2) != ARP_PTYPE_IPV4 {
        Err(PduError::Unsupported("ARP ptype is not IPv4"))
    } else if b[4] != ARP_HLEN || b[5] != ARP_PLEN {
        Err(PduError::Unsupported("ARP hlen/plen mismatch"))
    } else {
        Ok(
            ArpPacket {
                op: wire::be16(b, 6) as u16,
                sender_mac: [b[8], b[9], b[10], b[11], b[12], b[13]],
                sender_ip: [b[14], b[15], b[16], b[17]],
                target_mac: [b[18], b[19], b[20], b[21], b[22], b[23]],
                target_ip: [b[24], b[25], b[26], b[27]],
            },
        )
    }
}

impl ArpPacket {
    /// Reads an ARP packet.
    pub fn parse(arp_body: &[u8]) -> (r: Result<Self, PduError>)
        ensures
            r == arp_parsed(arp_body@),
    {
        let b = arp_body;
        if b.len() < ARP_PACKET_LEN {
            return Err(PduError::TooShort);
        }
        if read_be16(b, 0) != ARP_HTYPE_ETHER {
            return Err(PduError::Unsupported("ARP htype is not Ethernet"));
        }
        if read_be16(b, 2) != ARP_PTYPE_IPV4 {
            return Err(PduError::Unsupported("ARP ptype is not IPv4"));
        }
        if b[4] != ARP_HLEN || b[5] != ARP_PLEN {
            return Err(PduError::Unsupported("ARP hlen/plen mismatch"));
        }
        Ok(
            ArpPacket {
                op: read_be16(b, 6),
                sender_mac: [b[8], b[9], b[10], b[11], b[12], b[13]],
                sender_ip: [b[14], b[15], b[16], b[17]],
                target_mac: [b[18], b[19], b[20], b[21], b[22], b[23]],
                target_ip: [b[24], b[25], b[26], b[27]],
            },
        )
    }

    /// The bytes of the packet.
    pub fn to_bytes(&self) -> (r: [u8; 28])
        ensures
            r@ == arp_bytes(*self),
    {
        let h = to_be16(ARP_HTYPE_ETHER);
        let p = to_be16(ARP_PTYPE_IPV4);
        let o = to_be16(self.op);
        let sm = self.sender_mac;
        let si = self.sender_ip;
        let tm = self.target_mac;
        let ti = self.target_ip;
        let r = [
            h[0], h[1], p[0], p[1], ARP_HLEN, ARP_PLEN, o[0], o[1], sm[0], sm[1], sm[2], sm[3],
            sm[4], sm[5], si[0], si[1], si[2], si[3], tm[0], tm[1], tm[2], tm[3], tm[4], tm[5],
            ti[0], ti[1], ti[2], ti[3],
        ];
        assert(r@ =~= arp_bytes(*self));
        r
    }
}

/// Reading back the bytes of an ARP packet, whatever follows them, gives the packet.
pub proof fn arp_round_trip(a: ArpPacket, rest: Seq<u8>)
    ensures
        arp_parsed(arp_bytes(a) + rest) == Ok::<ArpPacket, PduError>(a),
{
    let b = arp_bytes(a) + rest;
    assert(b[0] == wire::be16_bytes(ARP_HTYPE_ETHER)[0]);
    assert(b[1] == wire::be16_bytes(ARP_HTYPE_ETHER)[1]);
    assert(b[2] == wire::be16_bytes(ARP_PTYPE_IPV4)[0]);
    assert(b[3] == wire::be16_bytes(ARP_PTYPE_IPV4)[1]);
    assert(b[6] == wire::be16_bytes(a.op)[0]);
    assert(b[7] == wire::be16_bytes(a.op)[1]);
    let p = arp_parsed(b)->Ok_0;
    assert(p.sender_mac =~= a.sender_mac);
    assert(p.sender_ip =~= a.sender_ip);
    assert(p.target_mac =~= a.target_mac);
    assert(p.target_ip =~= a.target_ip);
}

/// The frame that answers an ARP request.
pub open spec fn arp_reply_frame(
    from_mac: [u8; 6],
    from_ip: [u8; 4],
    to_mac: [u8; 6],
    to_ip: [u8; 4],
) -> Seq<u8> {
    eth_bytes(EthernetHeader { dst: to_mac, src: from_mac, ethertype: ETHERTYPE_ARP }) + arp_bytes(
        ArpPacket {
            op: ARP_OP_REPLY,
            sender_mac: from_mac,
            sender_ip: from_ip,
            target_mac: to_mac,
            target_ip: to_ip,
        },
    )
}

/// Builds the frame that answers an ARP request: `from` is the endpoint that answers,
/// `to` the one that asked.
pub fn build_arp_reply_frame(
    from_mac: [u8; 6],
    from_ip: [u8; 4],
    to_mac: [u8; 6],
    to_ip: [u8; 4],
) -> (out: Vec<u8>)
    ensures
        out@ == arp_reply_frame(from_mac, from_ip, to_mac, to_ip),
{
    let eth = EthernetHeader { dst: to_mac, src: from_mac, ethertype: ETHERTYPE_ARP };
    let arp = ArpPacket {
        op: ARP_OP_REPLY,
        sender_mac: from_mac,
        sender_ip: from_ip,
        target_mac: to_mac,
        target_ip: to_ip,
    };
    let mut out: Vec<u8> = Vec::new();
    push_bytes(&mut out, eth.to_bytes().as_slice());
    push_bytes(&mut out, arp.to_bytes().as_slice());
    assert(out@ =~= arp_reply_frame(from_mac, from_ip, to_mac, to_ip));
    out
}

/// The sum of words is what it says: nothing for no bytes, the first byte of a word counts
/// 256 fold, and after a whole number of words the rest adds up on its own.
pub proof fn word_sums_add_up(a: Seq<u8>, b: Seq<u8>, x: u8, y: u8)
    requires
        a.len() % 2 == 0,
    ensures
        word_sum(Seq::empty()) == 0,
        word_sum(seq![x]) == 256 * x,
        word_sum(seq![x, y]) == 256 * x + y,
        word_sum(a + b) == word_sum(a) + word_sum(b),
    decreases a.len(),
{
    reveal_with_fuel(word_sum, 2);
    assert(seq![x, y].skip(2) =~= Seq::<u8>::empty());
    assert(seq![x, y][0] == x && seq![x, y][1] == y);
    if a.len() == 0 {
        assert(a + b =~= b);
    } else {
        word_sums_add_up(a.skip(2), b, x, y);
        assert((a + b).skip(2) =~= a.skip(2) + b);
    }
}

/// A checksum makes the sum of all words a multiple of 65535, and is the only number below
/// 65535 that does; it is 65535 itself only where every byte is zero.
pub proof fn checksum_completes_the_sum(bytes: Seq<u8>, field: u16)
    requires
        word_sum(bytes) > 0,
    ensures
        field == checksum(bytes) <==> (word_sum(bytes) + field) % 0xFFFF == 0 && field != 0xFFFF,
{
    let s = word_sum(bytes) as int;
    let c = checksum(bytes) as int;
    assert((s + c) % 0xFFFF == 0) by {
        let q = (s - 1) / 0xFFFF;
        assert(s - 1 == q * 0xFFFF + (s - 1) % 0xFFFF);
        assert(s + c == (q + 1) * 0xFFFF);
        assert((q + 1) * 0xFFFF % 0xFFFF == 0) by (nonlinear_arith);
    }
    assert(0 <= c < 0xFFFF);
    if (s + field) % 0xFFFF == 0 && field != 0xFFFF {
        assert((s + field) - (s + c) == field - c);
        assert(-0xFFFF < field - c < 0xFFFF);
        let m = (s + field) / 0xFFFF;
        let n = (s + c) / 0xFFFF;
        assert(s + field == m * 0xFFFF && s + c == n * 0xFFFF);
        assert(field - c == (m - n) * 0xFFFF);
        assert(m == n) by (nonlinear_arith)
            requires
                -0xFFFF < (m - n) * 0xFFFF < 0xFFFF,
        ;
    }
}

/// Clearing a word takes its value off the sum.
pub proof fn clearing_a_word(b: Seq<u8>, at: int)
    requires
        0 <= at,
        at % 2 == 0,
        at + 2 <= b.len(),
    ensures
        word_sum(b) == word_sum(b.update(at, 0).update(at + 1, 0)) + wire::be16(b, at),
{
    let c = b.update(at, 0).update(at + 1, 0);
    let head = b.take(at);
    let rest = b.skip(at + 2);
    let x = b[at];
    let y = b[at + 1];
    assert(b =~= head + (seq![x, y] + rest));
    assert(c =~= head + (seq![0u8, 0u8] + rest));
    word_sums_add_up(head, seq![x, y] + rest, x, y);
    word_sums_add_up(head, seq![0u8, 0u8] + rest, 0, 0);
    word_sums_add_up(seq![x, y], rest, x, y);
    word_sums_add_up(seq![0u8, 0u8], rest, 0, 0);
}

/// A sum that has a byte in it which is not zero is not zero.
pub proof fn word_sum_positive(b: Seq<u8>, at: int)
    requires
        0 <= at < b.len(),
        b[at] > 0,
    ensures
        word_sum(b) > 0,
    decreases b.len(),
{
    if b.len() > 2 && at >= 2 {
        assert(b.skip(2)[at - 2] == b[at]);
        word_sum_positive(b.skip(2), at - 2);
    }
}

/// The fields of a frame lie where Ethernet puts them: to whom, from whom, what it carries.
/// Fewer than fourteen bytes are no frame.
pub proof fn frames_are_read(f: Seq<u8>)
    ensures
        eth_parsed(f) is Ok <==> f.len() >= 14,
        f.len() < 14 ==> eth_parsed(f) == Err::<EthernetHeader, PduError>(PduError::TooShort),
        eth_parsed(f) matches Ok(h) ==> {
            &&& h.dst@ == f.subrange(0, 6)
            &&& h.src@ == f.subrange(6, 12)
            &&& h.ethertype == f[12] * 256 + f[13]
        },
{
    if let Ok(h) = eth_parsed(f) {
        assert(h.dst@ =~= f.subrange(0, 6));
        assert(h.src@ =~= f.subrange(6, 12));
    }
}

/// An ARP packet for IPv4 over Ethernet is 28 bytes that start with its four types and
/// lengths; its fields lie where the protocol puts them.
pub proof fn arp_packets_are_read(b: Seq<u8>)
    ensures
        arp_parsed(b) is Ok <==> b.len() >= 28 && b.subrange(0, 6) == seq![
            0u8,
            1u8,
            8u8,
            0u8,
            6u8,
            4u8,
        ],
        b.len() < 28 ==> arp_parsed(b) == Err::<ArpPacket, PduError>(PduError::TooShort),
        arp_parsed(b) matches Ok(a) ==> {
            &&& a.op == b[6] * 256 + b[7]
            &&& a.sender_mac@ == b.subrange(8, 14)
            &&& a.sender_ip@ == b.subrange(14, 18)
            &&& a.target_mac@ == b.subrange(18, 24)
            &&& a.target_ip@ == b.subrange(24, 28)
        },
{
    let start = seq![0u8, 1u8, 8u8, 0u8, 6u8, 4u8];
    if b.len() >= 28 && b.subrange(0, 6) == start {
        assert forall|i: int| 0 <= i < 6 implies b[i] == start[i] by {
            assert(b.subrange(0, 6)[i] == b[i]);
        }
        assert(b[0] == start[0] && b[1] == start[1] && b[2] == start[2] && b[3] == start[3] && b[4]
            == start[4] && b[5] == start[5]);
    }
    if let Ok(a) = arp_parsed(b) {
        assert(b.subrange(0, 6) =~= start);
        assert(a.sender_mac@ =~= b.subrange(8, 14));
        assert(a.sender_ip@ =~= b.subrange(14, 18));
        assert(a.target_mac@ =~= b.subrange(18, 24));
        assert(a.target_ip@ =~= b.subrange(24, 28));
    }
}

/// The answer to an ARP request is a frame to the one that asked, from the one that
/// answers, and says that the address of the latter is at its hardware address.
pub proof fn arp_answers_are_right(
    from_mac: [u8; 6],
    from_ip: [u8; 4],
    to_mac: [u8; 6],
    to_ip: [u8; 4],
)
    ensures
        ({
            let f = arp_reply_frame(from_mac, from_ip, to_mac, to_ip);
            &&& f.len() == 42
            &&& eth_parsed(f) matches Ok(eth) && eth.dst == to_mac && eth.src == from_mac
                && eth.ethertype == 0x0806
            &&& arp_parsed(f.skip(14)) matches Ok(arp) && arp.op == 2 && arp.sender_mac == from_mac
                && arp.sender_ip == from_ip && arp.target_mac == to_mac && arp.target_ip == to_ip
        }),
{
    let eth = EthernetHeader { dst: to_mac, src: from_mac, ethertype: ETHERTYPE_ARP };
    let arp = ArpPacket {
        op: ARP_OP_REPLY,
        sender_mac: from_mac,
        sender_ip: from_ip,
        target_mac: to_mac,
        target_ip: to_ip,
    };
    let f = arp_reply_frame(from_mac, from_ip, to_mac, to_ip);
    eth_round_trip(eth, arp_bytes(arp));
    arp_round_trip(arp, Seq::empty());
    assert(arp_bytes(arp) + Seq::<u8>::empty() =~= arp_bytes(arp));
    assert(f.skip(14) =~= arp_bytes(arp));
}

} // verus!
