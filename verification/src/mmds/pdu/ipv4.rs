//! IPv4 headers without options and without fragments.

use vstd::prelude::*;

use crate::mmds::pdu::{self, ones_complement_sum, PduError};
use crate::wire::{self, read_be16, to_be16};

verus! {

/// Length of an IPv4 header without options.
pub const IPV4_HDR_LEN: usize = 20;

/// Time to live of packets that are built here.
pub const DEFAULT_TTL: u8 = 64;

/// Version four and a header of five words.
pub const VERSION_IHL: u8 = 0x45;

/// The flag that forbids fragmentation.
pub const DONT_FRAGMENT: u16 = 0x4000;

/// The protocols that are told apart.
#[derive(Clone, Copy, Debug, PartialEq, Eq, Structural)]
pub enum IpProtocol {
    Icmp,
    Tcp,
    Udp,
}

/// The protocol number of a protocol.
pub open spec fn protocol_number(p: IpProtocol) -> u8 {
    match p {
        IpProtocol::Icmp => 1,
        IpProtocol::Tcp => 6,
        IpProtocol::Udp => 17,
    }
}

impl IpProtocol {
    /// The protocol with a number, if it is one that is told apart.
    pub fn from_wire(value: u8) -> (r: Option<Self>)
        ensures
            match r {
                Some(p) => protocol_number(p) == value,
                None => forall|p: IpProtocol| #[trigger] protocol_number(p) != value,
            },
    {
        match value {
            1 => Some(IpProtocol::Icmp),
            6 => Some(IpProtocol::Tcp),
            17 => Some(IpProtocol::Udp),
            _ => None,
        }
    }

    /// The number of the protocol.
    pub fn to_wire(self) -> (n: u8)
        ensures
            n == protocol_number(self),
    {
        match self {
            IpProtocol::Icmp => 1,
            IpProtocol::Tcp => 6,
            IpProtocol::Udp => 17,
        }
    }
}

/// An IPv4 header.
#[derive(Clone, Copy, Debug)]
pub struct Ipv4Header {
    pub version_ihl: u8,
    pub tos: u8,
    pub total_len: u16,
    pub id: u16,
    pub flags_frag: u16,
    pub ttl: u8,
    pub protocol: u8,
    pub checksum: u16,
    pub src: [u8; 4],
    pub dst: [u8; 4],
}

/// The bytes of a header with `sum` in the checksum field.
pub open spec fn ipv4_fields(h: Ipv4Header, sum: u16) -> Seq<u8> {
    seq![h.version_ihl, h.tos] + wire::be16_bytes(h.total_len) + wire::be16_bytes(h.id)
        + wire::be16_bytes(h.flags_frag) + seq![h.ttl, h.protocol] + wire::be16_bytes(sum) + h.src@
        + h.dst@
}

/// The bytes of a header on the wire: the checksum field holds the checksum of the header
/// with that field zero.
pub open spec fn ipv4_wire(h: Ipv4Header) -> Seq<u8> {
    ipv4_fields(h, pdu::checksum(ipv4_fields(h, 0)))
}

/// A header with its checksum field cleared.
pub open spec fn checksum_cleared(b: Seq<u8>) -> Seq<u8> {
    b.subrange(0, IPV4_HDR_LEN as int).update(10, 0).update(11, 0)
}

/// The header that `b` starts with: version four, no options, no fragment, and the right
/// checksum.
pub open spec fn ipv4_parsed(b: Seq<u8>) -> Result<Ipv4Header, PduError> {
    if b.len() < IPV4_HDR_LEN {
        Err(PduError::TooShort)
    } else if b[0] / 16 != 4 {
        Err(PduError::Unsupported("IPv4: version != 4"))
    } else if b[0] % 16 != 5 {
        Err(PduError::Unsupported("IPv4: header has options (IHL > 5)"))
    } else if wire::be16(b, 6) % 0x4000 != 0 {
        Err(PduError::Unsupported("IPv4: fragmentation"))
    } else if pdu::checksum(checksum_cleared(b)) != wire::be16(b, 10) {
        Err(PduError::BadChecksum)
    } else {
        Ok(
            Ipv4Header {
                version_ihl: b[0],
                tos: b[1],
                total_len: wire::be16(b, 2) as u16,
                id: wire::be16(b, 4) as u16,
                flags_frag: wire::be16(b, 6) as u16,
                ttl: b[8],
                protocol: b[9],
                checksum: 0,
                src: [b[12], b[13], b[14], b[15]],
                dst: [b[16], b[17], b[18], b[19]],
            },
        )
    }
}

/// A header for a payload of `payload_len` bytes.
pub open spec fn ipv4_built(
    src: [u8; 4],
    dst: [u8; 4],
    protocol: IpProtocol,
    payload_len: u16,
    id: u16,
) -> Ipv4Header {
    Ipv4Header {
        version_ihl: VERSION_IHL,
        tos: 0,
        total_len: if IPV4_HDR_LEN + payload_len > u16::MAX {
            u16::MAX
        } else {
            (IPV4_HDR_LEN + payload_len) as u16
        },
        id,
        flags_frag: DONT_FRAGMENT,
        ttl: DEFAULT_TTL,
        protocol: protocol_number(protocol),
        checksum: 0,
        src,
        dst,
    }
}

impl Ipv4Header {
    /// Reads the header of a packet.
    pub fn parse(bytes: &[u8]) -> (r: Result<Self, PduError>)
        ensures
            r == ipv4_parsed(bytes@),
    {
        let b = bytes;
        if b.len() < IPV4_HDR_LEN {
            return Err(PduError::TooShort);
        }
        if b[0] / 16 != 4 {
            return Err(PduError::Unsupported("IPv4: version != 4"));
        }
        if b[0] % 16 != 5 {
            return Err(PduError::Unsupported("IPv4: header has options (IHL > 5)"));
        }
        let flags_frag: u16 = read_be16(b, 6);
        if flags_frag % 0x4000 != 0 {
            return Err(PduError::Unsupported("IPv4: fragmentation"));
        }
        let cleared: [u8; 20] = [
            b[0], b[1], b[2], b[3], b[4], b[5], b[6], b[7], b[8], b[9], 0, 0, b[12], b[13], b[14],
            b[15], b[16], b[17], b[18], b[19],
        ];
        assert(cleared@ =~= checksum_cleared(b@));
        if ones_complement_sum(cleared.as_slice()) != read_be16(b, 10) {
            return Err(PduError::BadChecksum);
        }
        Ok(
            Ipv4Header {
                version_ihl: b[0],
                tos: b[1],
                total_len: read_be16(b, 2),
                id: read_be16(b, 4),
                flags_frag,
                ttl: b[8],
                protocol: b[9],
                checksum: 0,
                src: [b[12], b[13], b[14], b[15]],
                dst: [b[16], b[17], b[18], b[19]],
            },
        )
    }

    /// A header for a payload of `payload_len` bytes.
    pub fn build(
        src: [u8; 4],
        dst: [u8; 4],
        protocol: IpProtocol,
        payload_len: u16,
        id: u16,
    ) -> (h: Self)
        ensures
            h == ipv4_built(src, dst, protocol, payload_len, id),
    {
        Ipv4Header {
            version_ihl: VERSION_IHL,
            tos: 0,
            total_len: (IPV4_HDR_LEN as u16).saturating_add(payload_len),
            id,
            flags_frag: DONT_FRAGMENT,
            ttl: DEFAULT_TTL,
            protocol: protocol.to_wire(),
            checksum: 0,
            src,
            dst,
        }
    }

    /// The bytes of the header, with the checksum filled in.
    pub fn to_bytes(&self) -> (r: [u8; 20])
        ensures
            r@ == ipv4_wire(*self),
    {
        let l = to_be16(self.total_len);
        let i = to_be16(self.id);
        let f = to_be16(self.flags_frag);
        let s = self.src;
        let d = self.dst;
        let cleared: [u8; 20] = [
            self.version_ihl, self.tos, l[0], l[1], i[0], i[1], f[0], f[1], self.ttl,
            self.protocol, 0, 0, s[0], s[1], s[2], s[3], d[0], d[1], d[2], d[3],
        ];
        assert(cleared@ =~= ipv4_fields(*self, 0));
        let c = to_be16(ones_complement_sum(cleared.as_slice()));
        let r: [u8; 20] = [
            self.version_ihl, self.tos, l[0], l[1], i[0], i[1], f[0], f[1], self.ttl,
            self.protocol, c[0], c[1], s[0], s[1], s[2], s[3], d[0], d[1], d[2], d[3],
        ];
        assert(r@ =~= ipv4_wire(*self));
        r
    }

    /// The total length without the header; zero if the total is shorter than that.
    pub fn payload_len(&self) -> (n: u16)
        ensures
            n == if self.total_len >= IPV4_HDR_LEN {
                self.total_len - IPV4_HDR_LEN
            } else {
                0
            },
    {
        self.total_len.saturating_sub(IPV4_HDR_LEN as u16)
    }
}

/// Reading back the bytes of a header without options and fragments, whatever follows
/// them, gives the header.
pub proof fn ipv4_round_trip(h: Ipv4Header, rest: Seq<u8>)
    requires
        h.version_ihl == VERSION_IHL,
        h.flags_frag % 0x4000 == 0,
        h.checksum == 0,
    ensures
        ipv4_parsed(ipv4_wire(h) + rest) == Ok::<Ipv4Header, PduError>(h),
{
    let sum = pdu::checksum(ipv4_fields(h, 0));
    let b = ipv4_wire(h) + rest;
    assert(b[2] == wire::be16_bytes(h.total_len)[0] && b[3] == wire::be16_bytes(h.total_len)[1]);
    assert(b[4] == wire::be16_bytes(h.id)[0] && b[5] == wire::be16_bytes(h.id)[1]);
    assert(b[6] == wire::be16_bytes(h.flags_frag)[0] && b[7] == wire::be16_bytes(h.flags_frag)[1]);
    assert(b[10] == wire::be16_bytes(sum)[0] && b[11] == wire::be16_bytes(sum)[1]);
    assert(checksum_cleared(b) =~= ipv4_fields(h, 0));
    let p = ipv4_parsed(b)->Ok_0;
    assert(p.src =~= h.src);
    assert(p.dst =~= h.dst);
}

/// Which bytes start with an IPv4 header that is taken: twenty of them, version four
/// without options, neither a fragment nor one with more to come, and a sum of all words of
/// the header that is a multiple of 65535. The fields are read from where the protocol puts
/// them.
pub proof fn valid_headers_are_read(b: Seq<u8>)
    requires
        b.len() >= 20,
        b[0] == 0x45,
        !(b[10] == 0xFF && b[11] == 0xFF),
    ensures
        ipv4_parsed(b) is Ok <==> b[6] % 64 == 0 && b[7] == 0 && pdu::word_sum(b.take(20)) % 0xFFFF
            == 0,
        ipv4_parsed(b) matches Ok(h) ==> {
            &&& h.version_ihl == 0x45
            &&& h.tos == b[1]
            &&& h.total_len == b[2] * 256 + b[3]
            &&& h.id == b[4] * 256 + b[5]
            &&& h.flags_frag == b[6] * 256
            &&& h.ttl == b[8]
            &&& h.protocol == b[9]
            &&& h.src@ == b.subrange(12, 16)
            &&& h.dst@ == b.subrange(16, 20)
        },
{
    let t = b.take(20);
    let c = checksum_cleared(b);
    assert(c =~= t.update(10, 0).update(11, 0));
    pdu::clearing_a_word(t, 10);
    assert(c[0] == 0x45);
    pdu::word_sum_positive(c, 0);
    pdu::checksum_completes_the_sum(c, wire::be16(b, 10) as u16);
    if let Ok(h) = ipv4_parsed(b) {
        assert(h.src@ =~= b.subrange(12, 16));
        assert(h.dst@ =~= b.subrange(16, 20));
    }
}

/// Bytes that are too few, of another version or with options are no header that is taken,
/// and are told apart from one with a wrong sum.
pub proof fn other_headers_are_refused(b: Seq<u8>)
    ensures
        b.len() < 20 ==> ipv4_parsed(b) == Err::<Ipv4Header, PduError>(PduError::TooShort),
        b.len() >= 20 && b[0] != 0x45 ==> ipv4_parsed(b) matches Err(PduError::Unsupported(_)),
        b.len() >= 20 && (b[6] % 64 != 0 || b[7] != 0) ==> ipv4_parsed(b) matches Err(
            PduError::Unsupported(_),
        ),
        ipv4_parsed(b) is Ok ==> b.len() >= 20 && b[0] == 0x45 && !(b[10] == 0xFF && b[11]
            == 0xFF),
{
    if b.len() >= 20 && b[0] == 0x45 && b[10] == 0xFF && b[11] == 0xFF {
        let c = checksum_cleared(b);
        assert(c[0] == 0x45);
        pdu::word_sum_positive(c, 0);
        pdu::checksum_completes_the_sum(c, 0xFFFF);
    }
}

/// A header that is built is for the addresses, the protocol and the number of bytes that
/// are given: its bytes lie where the protocol puts them, and the sum of its words is a
/// multiple of 65535.
pub proof fn built_headers_are_right(
    src: [u8; 4],
    dst: [u8; 4],
    protocol: IpProtocol,
    payload_len: u16,
    id: u16,
)
    requires
        payload_len <= 0xFFFF - 20,
    ensures
        ({
            let w = ipv4_wire(ipv4_built(src, dst, protocol, payload_len, id));
            &&& w.len() == 20
            &&& w[0] == 0x45 && w[1] == 0
            &&& w[2] * 256 + w[3] == 20 + payload_len
            &&& w[4] * 256 + w[5] == id
            &&& w[6] == 0x40 && w[7] == 0
            &&& w[8] == 64
            &&& w[9] == match protocol {
                IpProtocol::Icmp => 1u8,
                IpProtocol::Tcp => 6u8,
                IpProtocol::Udp => 17u8,
            }
            &&& w.subrange(12, 16) == src@
            &&& w.subrange(16, 20) == dst@
            &&& pdu::word_sum(w) % 0xFFFF == 0
        }),
{
    let h = ipv4_built(src, dst, protocol, payload_len, id);
    let w = ipv4_wire(h);
    let z = ipv4_fields(h, 0);
    let sum = pdu::checksum(z);
    assert(w.subrange(12, 16) =~= src@);
    assert(w.subrange(16, 20) =~= dst@);
    assert(w.update(10, 0).update(11, 0) =~= z);
    assert(w[10] == wire::be16_bytes(sum)[0] && w[11] == wire::be16_bytes(sum)[1]);
    pdu::clearing_a_word(w, 10);
    assert(z[0] == 0x45);
    pdu::word_sum_positive(z, 0);
    pdu::checksum_completes_the_sum(z, sum);
    assert(w[2] == wire::be16_bytes(h.total_len)[0] && w[3] == wire::be16_bytes(h.total_len)[1]);
    assert(w[4] == wire::be16_bytes(id)[0] && w[5] == wire::be16_bytes(id)[1]);
    assert(w[6] == wire::be16_bytes(h.flags_frag)[0] && w[7] == wire::be16_bytes(h.flags_frag)[1]);
}

} // verus!
