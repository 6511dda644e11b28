//! Fixed-width integers in network (big-endian) and little-endian byte order.

use vstd::prelude::*;

verus! {

/// The 16-bit big-endian number held by `s[at]`, `s[at + 1]`.
pub open spec fn be16(s: Seq<u8>, at: int) -> int {
    s[at] * 256 + s[at + 1]
}

/// The 32-bit big-endian number held by the four bytes of `s` from `at`.
pub open spec fn be32(s: Seq<u8>, at: int) -> int {
    s[at] * 0x100_0000 + s[at + 1] * 0x1_0000 + s[at + 2] * 0x100 + s[at + 3]
}

/// The 32-bit little-endian number held by the four bytes of `s` from `at`.
pub open spec fn le32(s: Seq<u8>, at: int) -> int {
    s[at + 3] * 0x100_0000 + s[at + 2] * 0x1_0000 + s[at + 1] * 0x100 + s[at]
}

/// The 64-bit little-endian number held by the eight bytes of `s` from `at`.
pub open spec fn le64(s: Seq<u8>, at: int) -> int {
    le32(s, at + 4) * 0x1_0000_0000 + le32(s, at)
}

/// The two big-endian bytes of `x`.
pub open spec fn be16_bytes(x: u16) -> Seq<u8> {
    seq![(x / 256) as u8, (x % 256) as u8]
}

/// The four big-endian bytes of `x`.
pub open spec fn be32_bytes(x: u32) -> Seq<u8> {
    seq![
        (x / 0x100_0000) as u8,
        (x / 0x1_0000 % 256) as u8,
        (x / 0x100 % 256) as u8,
        (x % 256) as u8,
    ]
}

/// The four little-endian bytes of `x`.
pub open spec fn le32_bytes(x: u32) -> Seq<u8> {
    seq![
        (x % 256) as u8,
        (x / 0x100 % 256) as u8,
        (x / 0x1_0000 % 256) as u8,
        (x / 0x100_0000) as u8,
    ]
}

/// The eight little-endian bytes of `x`.
pub open spec fn le64_bytes(x: u64) -> Seq<u8> {
    le32_bytes((x % 0x1_0000_0000) as u32) + le32_bytes((x / 0x1_0000_0000) as u32)
}

/// Reading back the two big-endian bytes of a number gives the number.
pub broadcast proof fn be16_of_bytes(x: u16)
    ensures
        be16(#[trigger] be16_bytes(x), 0) == x,
{
}

/// Reading back the four big-endian bytes of a number gives the number.
pub broadcast proof fn be32_of_bytes(x: u32)
    ensures
        be32(#[trigger] be32_bytes(x), 0) == x,
{
}

/// Reading back the four little-endian bytes of a number gives the number.
pub broadcast proof fn le32_of_bytes(x: u32)
    ensures
        le32(#[trigger] le32_bytes(x), 0) == x,
{
}

/// Reading back the eight little-endian bytes of a number gives the number.
pub proof fn le64_of_bytes(x: u64)
    ensures
        le64(le64_bytes(x), 0) == x,
{
    let lo = (x % 0x1_0000_0000) as u32;
    let hi = (x / 0x1_0000_0000) as u32;
    let s = le64_bytes(x);
    le32_of_bytes(lo);
    le32_of_bytes(hi);
    assert(le32(s, 0) == le32(le32_bytes(lo), 0));
    assert(le32(s, 4) == le32(le32_bytes(hi), 0));
}

/// Reads the big-endian 16-bit number at `at`.
pub fn read_be16(buf: &[u8], at: usize) -> (r: u16)
    requires
        at + 2 <= buf@.len(),
    ensures
        r == be16(buf@, at as int),
{
    buf[at] as u16 * 256 + buf[at + 1] as u16
}

/// Reads the big-endian 32-bit number at `at`.
pub fn read_be32(buf: &[u8], at: usize) -> (r: u32)
    requires
        at + 4 <= buf@.len(),
    ensures
        r == be32(buf@, at as int),
{
    buf[at] as u32 * 0x100_0000 + buf[at + 1] as u32 * 0x1_0000 + buf[at + 2] as u32 * 0x100
        + buf[at + 3] as u32
}

/// Reads the little-endian 32-bit number at `at`.
pub fn read_le32(buf: &[u8], at: usize) -> (r: u32)
    requires
        at + 4 <= buf@.len(),
    ensures
        r == le32(buf@, at as int),
{
    assert(at + 4 <= buf.len());
    buf[at + 3] as u32 * 0x100_0000 + buf[at + 2] as u32 * 0x1_0000 + buf[at + 1] as u32 * 0x100
        + buf[at] as u32
}

/// Reads the little-endian 64-bit number at `at`.
pub fn read_le64(buf: &[u8], at: usize) -> (r: u64)
    requires
        at + 8 <= buf@.len(),
    ensures
        r == le64(buf@, at as int),
{
    assert(at + 8 <= buf.len());
    read_le32(buf, at + 4) as u64 * 0x1_0000_0000 + read_le32(buf, at) as u64
}

/// The two big-endian bytes of `x`, as an array.
pub fn to_be16(x: u16) -> (r: [u8; 2])
    ensures
        r@ == be16_bytes(x),
{
    [(x / 256) as u8, (x % 256) as u8]
}

/// The four big-endian bytes of `x`, as an array.
pub fn to_be32(x: u32) -> (r: [u8; 4])
    ensures
        r@ == be32_bytes(x),
{
    [
        (x / 0x100_0000) as u8,
        (x / 0x1_0000 % 256) as u8,
        (x / 0x100 % 256) as u8,
        (x % 256) as u8,
    ]
}

/// The four little-endian bytes of `x`, as an array.
pub fn to_le32(x: u32) -> (r: [u8; 4])
    ensures
        r@ == le32_bytes(x),
{
    [
        (x % 256) as u8,
        (x / 0x100 % 256) as u8,
        (x / 0x1_0000 % 256) as u8,
        (x / 0x100_0000) as u8,
    ]
}

/// The eight little-endian bytes of `x`, as an array.
pub fn to_le64(x: u64) -> (r: [u8; 8])
    ensures
        r@ == le64_bytes(x),
{
    let lo = to_le32((x % 0x1_0000_0000) as u32);
    let hi = to_le32((x / 0x1_0000_0000) as u32);
    [lo[0], lo[1], lo[2], lo[3], hi[0], hi[1], hi[2], hi[3]]
}

/// Appends all of `bytes` to `out`.
pub fn push_bytes(out: &mut Vec<u8>, bytes: &[u8])
    ensures
        final(out)@ == old(out)@ + bytes@,
{
    out.extend_from_slice(bytes);
    assert(out@ =~= old(out)@ + bytes@);
}

/// In network order the most significant byte comes first.
pub proof fn network_order(x: u32, y: u16)
    ensures
        be32_bytes(x).len() == 4,
        be32_bytes(x)[0] == x / 16_777_216,
        be32_bytes(x)[1] == x / 65536 % 256,
        be32_bytes(x)[2] == x / 256 % 256,
        be32_bytes(x)[3] == x % 256,
        be16_bytes(y).len() == 2,
        be16_bytes(y)[0] == y / 256,
        be16_bytes(y)[1] == y % 256,
{
}

/// In little-endian order the least significant byte comes first.
pub proof fn little_endian_order(x: u32, y: u64)
    ensures
        le32_bytes(x).len() == 4,
        le32_bytes(x)[0] == x % 256,
        le32_bytes(x)[1] == x / 256 % 256,
        le32_bytes(x)[2] == x / 65536 % 256,
        le32_bytes(x)[3] == x / 16_777_216,
        le64_bytes(y).len() == 8,
        forall|i: int|
            0 <= i < 4 ==> #[trigger] le64_bytes(y)[i] == le32_bytes((y % 4_294_967_296) as u32)[i],
        forall|i: int|
            4 <= i < 8 ==> #[trigger] le64_bytes(y)[i] == le32_bytes(
                (y / 4_294_967_296) as u32,
            )[i - 4],
{
}

/// A number is read from its own bytes and no others: in network order each byte counts
/// 256 times as much as the next one.
pub proof fn numbers_are_read_from_their_bytes(s: Seq<u8>, at: int)
    requires
        0 <= at,
        at + 8 <= s.len(),
    ensures
        be16(s, at) == 256 * s[at] + s[at + 1],
        be32(s, at) == 65536 * be16(s, at) + be16(s, at + 2),
        le32(s, at) == s[at] + 256 * s[at + 1] + 65536 * s[at + 2] + 16_777_216 * s[at + 3],
        le64(s, at) == le32(s, at) + 4_294_967_296 * le32(s, at + 4),
{
}

} // verus!
