//! Integers on the wire: what a byte sequence reads as, and how a value is written.

use vstd::prelude::*;

verus! {

/// The big-endian 16-bit value that starts at offset `i` of `b`.
pub open spec fn be16(b: Seq<u8>, i: int) -> u16 {
    (b[i] * 0x100 + b[i + 1]) as u16
}

/// The big-endian 32-bit value that starts at offset `i` of `b`.
pub open spec fn be32(b: Seq<u8>, i: int) -> u32 {
    (b[i] * 0x100_0000 + b[i + 1] * 0x1_0000 + b[i + 2] * 0x100 + b[i + 3]) as u32
}

/// The little-endian 16-bit value that starts at offset `i` of `b`.
pub open spec fn le16(b: Seq<u8>, i: int) -> u16 {
    (b[i + 1] * 0x100 + b[i]) as u16
}

/// The little-endian 32-bit value that starts at offset `i` of `b`.
pub open spec fn le32(b: Seq<u8>, i: int) -> u32 {
    (b[i + 3] * 0x100_0000 + b[i + 2] * 0x1_0000 + b[i + 1] * 0x100 + b[i]) as u32
}

/// The two big-endian bytes of `v`.
pub open spec fn be16_bytes(v: u16) -> Seq<u8> {
    seq![(v / 0x100) as u8, (v % 0x100) as u8]
}

/// The four big-endian bytes of `v`.
pub open spec fn be32_bytes(v: u32) -> Seq<u8> {
    seq![
        (v / 0x100_0000) as u8,
        (v / 0x1_0000 % 0x100) as u8,
        (v / 0x100 % 0x100) as u8,
        (v % 0x100) as u8,
    ]
}

/// The two little-endian bytes of `v`.
pub open spec fn le16_bytes(v: u16) -> Seq<u8> {
    seq![(v % 0x100) as u8, (v / 0x100) as u8]
}

/// The four little-endian bytes of `v`.
pub open spec fn le32_bytes(v: u32) -> Seq<u8> {
    seq![
        (v % 0x100) as u8,
        (v / 0x100 % 0x100) as u8,
        (v / 0x1_0000 % 0x100) as u8,
        (v / 0x100_0000) as u8,
    ]
}

/// `n` bytes, all equal to `v`.
pub open spec fn repeated(v: u8, n: nat) -> Seq<u8> {
    Seq::new(n, |i: int| v)
}

/// Concatenation is associative.
pub broadcast proof fn lemma_add_assoc(a: Seq<u8>, b: Seq<u8>, c: Seq<u8>)
    ensures
        #[trigger] ((a + b) + c) == a + (b + c),
{
    assert((a + b) + c =~= a + (b + c));
}

/// Reading a value back at the offset where its bytes stand gives the value.
pub proof fn lemma_be16_round_trip(v: u16, before: Seq<u8>, after: Seq<u8>)
    ensures
        be16(before + be16_bytes(v) + after, before.len() as int) == v,
{
    let s = before + be16_bytes(v) + after;
    let n = before.len() as int;
    assert(s[n] == be16_bytes(v)[0]);
    assert(s[n + 1] == be16_bytes(v)[1]);
}

/// Reading a value back at the offset where its bytes stand gives the value.
pub proof fn lemma_be32_round_trip(v: u32, before: Seq<u8>, after: Seq<u8>)
    ensures
        be32(before + be32_bytes(v) + after, before.len() as int) == v,
{
    let s = before + be32_bytes(v) + after;
    let n = before.len() as int;
    assert(s[n] == be32_bytes(v)[0]);
    assert(s[n + 1] == be32_bytes(v)[1]);
    assert(s[n + 2] == be32_bytes(v)[2]);
    assert(s[n + 3] == be32_bytes(v)[3]);
    lemma_digits_of(v as int);
}

/// A number below the fourth power of 256 is the sum of its four base-256 digits.
proof fn lemma_digits_of(v: int)
    requires
        0 <= v < 0x1_0000_0000,
    ensures
        0 <= v / 0x100_0000 < 0x100,
        v == v / 0x100_0000 * 0x100_0000 + v / 0x1_0000 % 0x100 * 0x1_0000 + v / 0x100 % 0x100
            * 0x100 + v % 0x100,
{
    let (high, mid) = (v / 0x1_0000, v / 0x100);
    assert(mid == high * 0x100 + mid % 0x100);
    assert(high == v / 0x100_0000 * 0x100 + high % 0x100);
}

/// Two bytes are the big-endian bytes of the value they read as.
pub proof fn lemma_be16_bytes_of(b: Seq<u8>, i: int)
    requires
        0 <= i,
        i + 2 <= b.len(),
    ensures
        be16_bytes(be16(b, i)) =~= b.subrange(i, i + 2),
{
}

/// Read the big-endian 16-bit value at offset `i`.
pub fn read_be16(b: &[u8], i: usize) -> (v: u16)
    requires
        i + 2 <= b@.len(),
    ensures
        v == be16(b@, i as int),
{
    (b[i] as u16) * 0x100 + b[i + 1] as u16
}

/// Read the big-endian 32-bit value at offset `i`.
pub fn read_be32(b: &[u8], i: usize) -> (v: u32)
    requires
        i + 4 <= b@.len(),
    ensures
        v == be32(b@, i as int),
{
    (b[i] as u32) * 0x100_0000 + (b[i + 1] as u32) * 0x1_0000 + (b[i + 2] as u32) * 0x100
        + b[i + 3] as u32
}

/// Read the little-endian 16-bit value at offset `i`.
pub fn read_le16(b: &[u8], i: usize) -> (v: u16)
    requires
        i + 2 <= b@.len(),
    ensures
        v == le16(b@, i as int),
{
    let low: u8 = b[i];
    (b[i + 1] as u16) * 0x100 + low as u16
}

/// Read the little-endian 32-bit value at offset `i`.
pub fn read_le32(b: &[u8], i: usize) -> (v: u32)
    requires
        i + 4 <= b@.len(),
    ensures
        v == le32(b@, i as int),
{
    let low: u8 = b[i];
    (b[i + 3] as u32) * 0x100_0000 + (b[i + 2] as u32) * 0x1_0000 + (b[i + 1] as u32) * 0x100
        + low as u32
}

/// Append the big-endian bytes of `v`.
pub fn put_be16(out: &mut Vec<u8>, v: u16)
    ensures
        final(out)@ == old(out)@ + be16_bytes(v),
{
    out.push((v / 0x100) as u8);
    out.push((v % 0x100) as u8);
    assert(out@ =~= old(out)@ + be16_bytes(v));
}

/// Append the big-endian bytes of `v`.
pub fn put_be32(out: &mut Vec<u8>, v: u32)
    ensures
        final(out)@ == old(out)@ + be32_bytes(v),
{
    out.push((v / 0x100_0000) as u8);
    out.push((v / 0x1_0000 % 0x100) as u8);
    out.push((v / 0x100 % 0x100) as u8);
    out.push((v % 0x100) as u8);
    assert(out@ =~= old(out)@ + be32_bytes(v));
}

/// Append the little-endian bytes of `v`.
pub fn put_le16(out: &mut Vec<u8>, v: u16)
    ensures
        final(out)@ == old(out)@ + le16_bytes(v),
{
    out.push((v % 0x100) as u8);
    out.push((v / 0x100) as u8);
    assert(out@ =~= old(out)@ + le16_bytes(v));
}

/// Append the little-endian bytes of `v`.
pub fn put_le32(out: &mut Vec<u8>, v: u32)
    ensures
        final(out)@ == old(out)@ + le32_bytes(v),
{
    out.push((v % 0x100) as u8);
    out.push((v / 0x100 % 0x100) as u8);
    out.push((v / 0x1_0000 % 0x100) as u8);
    out.push((v / 0x100_0000) as u8);
    assert(out@ =~= old(out)@ + le32_bytes(v));
}

/// Append all bytes of `s`.
pub fn put_all(out: &mut Vec<u8>, s: &[u8])
    ensures
        final(out)@ == old(out)@ + s@,
{
    out.extend_from_slice(s);
    assert(out@ =~= old(out)@ + s@);
}

/// Append `n` copies of `v`.
pub fn put_repeated(out: &mut Vec<u8>, v: u8, n: usize)
    ensures
        final(out)@ == old(out)@ + repeated(v, n as nat),
{
    let mut i: usize = 0;
    while i < n
        invariant
            i <= n,
            out@ == old(out)@ + repeated(v, i as nat),
        decreases n - i,
    {
        out.push(v);
        i = i + 1;
        assert(out@ =~= old(out)@ + repeated(v, i as nat));
    }
}

/// A value is the sum of its bytes, each times its weight: in network order the first byte
/// weighs most, in the other the last.
pub proof fn values_are_the_sums_of_their_bytes(v: u16, w: u32)
    ensures
        be16_bytes(v).len() == 2 && le16_bytes(v).len() == 2,
        be16_bytes(v)[0] * 256 + be16_bytes(v)[1] == v,
        le16_bytes(v)[1] * 256 + le16_bytes(v)[0] == v,
        be32_bytes(w).len() == 4 && le32_bytes(w).len() == 4,
        be32_bytes(w)[0] * 16_777_216 + be32_bytes(w)[1] * 65_536 + be32_bytes(w)[2] * 256
            + be32_bytes(w)[3] == w,
        le32_bytes(w)[3] * 16_777_216 + le32_bytes(w)[2] * 65_536 + le32_bytes(w)[1] * 256
            + le32_bytes(w)[0] == w,
{
    lemma_digits_of(w as int);
}

/// Bytes read as the sum of their weights.
pub proof fn bytes_read_as_their_sum(b: Seq<u8>, i: int)
    ensures
        be16(b, i) == b[i] * 256 + b[i + 1],
        le16(b, i) == b[i + 1] * 256 + b[i],
        be32(b, i) == b[i] * 16_777_216 + b[i + 1] * 65_536 + b[i + 2] * 256 + b[i + 3],
        le32(b, i) == b[i + 3] * 16_777_216 + b[i + 2] * 65_536 + b[i + 1] * 256 + b[i],
{
}

} // verus!
