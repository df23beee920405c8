//! Byte-order helpers: little-endian encoding and decoding of integers in
//! byte sequences, and byte swapping for the big-endian JBD2 fields.

use vstd::prelude::*;
use vstd::string::StringSliceAdditionalSpecFns;
use vstd::utf8::valid_utf8;

verus! {

/// Little-endian bytes of a `u16`.
pub open spec fn le16(x: u16) -> Seq<u8> {
    seq![(x & 0xff) as u8, (x >> 8u16) as u8]
}

/// Little-endian bytes of a `u32`.
pub open spec fn le32(x: u32) -> Seq<u8> {
    seq![
        (x & 0xff) as u8,
        ((x >> 8u32) & 0xff) as u8,
        ((x >> 16u32) & 0xff) as u8,
        (x >> 24u32) as u8,
    ]
}

/// Little-endian bytes of a `u64`.
pub open spec fn le64(x: u64) -> Seq<u8> {
    le32((x & 0xffff_ffff) as u32) + le32((x >> 32u64) as u32)
}

/// The `u16` stored little-endian at `s[i..i + 2]`.
pub open spec fn u16_at(s: Seq<u8>, i: int) -> u16 {
    ((s[i] as u16) | ((s[i + 1] as u16) << 8u16)) as u16
}

/// The `u32` stored little-endian at `s[i..i + 4]`.
pub open spec fn u32_at(s: Seq<u8>, i: int) -> u32 {
    ((s[i] as u32) | ((s[i + 1] as u32) << 8u32) | ((s[i + 2] as u32) << 16u32) | ((s[i + 3] as u32)
        << 24u32)) as u32
}

/// The `u64` stored little-endian at `s[i..i + 8]`.
pub open spec fn u64_at(s: Seq<u8>, i: int) -> u64 {
    ((u32_at(s, i) as u64) | ((u32_at(s, i + 4) as u64) << 32u64)) as u64
}

/// The bytes of a `u32` in reverse order.
pub open spec fn swap32(x: u32) -> u32 {
    ((x & 0xff) << 24u32) | (((x >> 8u32) & 0xff) << 16u32) | (((x >> 16u32) & 0xff) << 8u32) | (x
        >> 24u32)
}

/// The bytes of a `u16` in reverse order.
pub open spec fn swap16(x: u16) -> u16 {
    ((x & 0xff) << 8u16) | (x >> 8u16)
}

/// The bytes of a `u64` in reverse order.
pub open spec fn swap64(x: u64) -> u64 {
    ((swap32((x & 0xffff_ffff) as u32) as u64) << 32u64) | (swap32((x >> 32u64) as u32) as u64)
}

/// Reading back the little-endian bytes of a `u16` gives the value.
pub proof fn lemma_u16_roundtrip(x: u16)
    ensures
        u16_at(le16(x), 0) == x,
{
    let b0 = (x & 0xff) as u8;
    let b1 = (x >> 8u16) as u8;
    assert(((b0 as u16) | ((b1 as u16) << 8u16)) == x) by (bit_vector)
        requires
            b0 == (x & 0xff) as u8,
            b1 == (x >> 8u16) as u8,
    ;
}

/// Reading back the little-endian bytes of a `u32` gives the value.
pub proof fn lemma_u32_roundtrip(x: u32)
    ensures
        u32_at(le32(x), 0) == x,
{
    let b0 = (x & 0xff) as u8;
    let b1 = ((x >> 8u32) & 0xff) as u8;
    let b2 = ((x >> 16u32) & 0xff) as u8;
    let b3 = (x >> 24u32) as u8;
    assert(((b0 as u32) | ((b1 as u32) << 8u32) | ((b2 as u32) << 16u32) | ((b3 as u32) << 24u32))
        == x) by (bit_vector)
        requires
            b0 == (x & 0xff) as u8,
            b1 == ((x >> 8u32) & 0xff) as u8,
            b2 == ((x >> 16u32) & 0xff) as u8,
            b3 == (x >> 24u32) as u8,
    ;
}

/// Reading back the little-endian bytes of a `u64` gives the value.
pub proof fn lemma_u64_roundtrip(x: u64)
    ensures
        u64_at(le64(x), 0) == x,
{
    let lo = (x & 0xffff_ffff) as u32;
    let hi = (x >> 32u64) as u32;
    let s = le64(x);
    lemma_u32_roundtrip(lo);
    lemma_u32_roundtrip(hi);
    assert(s.subrange(0, 4) =~= le32(lo));
    assert(s.subrange(4, 8) =~= le32(hi));
    assert(u32_at(s, 0) == u32_at(le32(lo), 0));
    assert(u32_at(s, 4) == u32_at(le32(hi), 0));
    assert(((lo as u64) | ((hi as u64) << 32u64)) == x) by (bit_vector)
        requires
            lo == (x & 0xffff_ffff) as u32,
            hi == (x >> 32u64) as u32,
    ;
}

/// Swapping twice gives back the value.
pub proof fn lemma_swap32_involution(x: u32)
    ensures
        swap32(swap32(x)) == x,
{
    assert(swap32(swap32(x)) == x) by (bit_vector);
}

/// Swapping twice gives back the value.
pub proof fn lemma_swap16_involution(x: u16)
    ensures
        swap16(swap16(x)) == x,
{
    assert(swap16(swap16(x)) == x) by (bit_vector);
}

/// Reads the little-endian `u16` at `data[off..off + 2]`.
pub fn read_u16_le(data: &[u8], off: usize) -> (r: u16)
    requires
        off + 2 <= data@.len(),
    ensures
        r == u16_at(data@, off as int),
{
    (data[off] as u16) | ((data[off + 1] as u16) << 8u16)
}

/// Reads the little-endian `u32` at `data[off..off + 4]`.
pub fn read_u32_le(data: &[u8], off: usize) -> (r: u32)
    requires
        off + 4 <= data@.len(),
    ensures
        r == u32_at(data@, off as int),
{
    (data[off] as u32) | ((data[off + 1] as u32) << 8u32) | ((data[off + 2] as u32) << 16u32) | ((
    data[off + 3] as u32) << 24u32)
}

/// Reads the little-endian `u64` at `data[off..off + 8]`.
pub fn read_u64_le(data: &[u8], off: usize) -> (r: u64)
    requires
        off + 8 <= data@.len(),
    ensures
        r == u64_at(data@, off as int),
{
    let _len = data.len();
    let lo = read_u32_le(data, off);
    let hi = read_u32_le(data, off + 4);
    (lo as u64) | ((hi as u64) << 32u64)
}

/// Appends the little-endian bytes of `x`.
pub fn push_u16_le(v: &mut Vec<u8>, x: u16)
    ensures
        final(v)@ == old(v)@ + le16(x),
{
    v.push((x & 0xff) as u8);
    v.push((x >> 8u16) as u8);
    assert(final(v)@ =~= old(v)@ + le16(x));
}

/// Appends the little-endian bytes of `x`.
pub fn push_u32_le(v: &mut Vec<u8>, x: u32)
    ensures
        final(v)@ == old(v)@ + le32(x),
{
    v.push((x & 0xff) as u8);
    v.push(((x >> 8u32) & 0xff) as u8);
    v.push(((x >> 16u32) & 0xff) as u8);
    v.push((x >> 24u32) as u8);
    assert(final(v)@ =~= old(v)@ + le32(x));
}

/// Appends the little-endian bytes of `x`.
pub fn push_u64_le(v: &mut Vec<u8>, x: u64)
    ensures
        final(v)@ == old(v)@ + le64(x),
{
    push_u32_le(v, (x & 0xffff_ffff) as u32);
    push_u32_le(v, (x >> 32u64) as u32);
    assert(final(v)@ =~= old(v)@ + le64(x));
}

/// Writes the little-endian bytes of `x` at `data[off..off + 4]`.
pub fn write_u32_le(data: &mut [u8], off: usize, x: u32)
    requires
        off + 4 <= old(data)@.len(),
    ensures
        final(data)@ == old(data)@.take(off as int) + le32(x) + old(data)@.skip(off + 4),
{
    data[off] = (x & 0xff) as u8;
    data[off + 1] = ((x >> 8u32) & 0xff) as u8;
    data[off + 2] = ((x >> 16u32) & 0xff) as u8;
    data[off + 3] = (x >> 24u32) as u8;
    assert(final(data)@ =~= old(data)@.take(off as int) + le32(x) + old(data)@.skip(off + 4));
}

/// Writes the little-endian bytes of `x` at `data[off..off + 2]`.
pub fn write_u16_le(data: &mut [u8], off: usize, x: u16)
    requires
        off + 2 <= old(data)@.len(),
    ensures
        final(data)@ == old(data)@.take(off as int) + le16(x) + old(data)@.skip(off + 2),
{
    data[off] = (x & 0xff) as u8;
    data[off + 1] = (x >> 8u16) as u8;
    assert(final(data)@ =~= old(data)@.take(off as int) + le16(x) + old(data)@.skip(off + 2));
}

/// Reverses the byte order of a `u32` (big-endian to host order and back).
pub fn swap_bytes_u32(x: u32) -> (r: u32)
    ensures
        r == swap32(x),
{
    ((x & 0xff) << 24u32) | (((x >> 8u32) & 0xff) << 16u32) | (((x >> 16u32) & 0xff) << 8u32) | (x
        >> 24u32)
}

/// Reverses the byte order of a `u16`.
pub fn swap_bytes_u16(x: u16) -> (r: u16)
    ensures
        r == swap16(x),
{
    ((x & 0xff) << 8u16) | (x >> 8u16)
}

/// Reverses the byte order of a `u64`.
pub fn swap_bytes_u64(x: u64) -> (r: u64)
    ensures
        r == swap64(x),
{
    let lo = swap_bytes_u32((x & 0xffff_ffff) as u32);
    let hi = swap_bytes_u32((x >> 32u64) as u32);
    ((lo as u64) << 32u64) | (hi as u64)
}

} // verus!

verus! {

/// Little-endian bytes of each `u32` of `s`, in order.
pub open spec fn le32_seq(s: Seq<u32>) -> Seq<u8>
    decreases s.len(),
{
    if s.len() == 0 {
        Seq::empty()
    } else {
        le32_seq(s.drop_last()) + le32(s.last())
    }
}

/// Four bytes per value.
pub proof fn lemma_le32_seq_len(s: Seq<u32>)
    ensures
        le32_seq(s).len() == 4 * s.len(),
    decreases s.len(),
{
    if s.len() > 0 {
        lemma_le32_seq_len(s.drop_last());
    }
}

/// Appends `s`.
pub fn push_bytes(v: &mut Vec<u8>, s: &[u8])
    ensures
        final(v)@ == old(v)@ + s@,
{
    let mut i: usize = 0;
    while i < s.len()
        invariant
            i <= s@.len(),
            v@ == old(v)@ + s@.take(i as int),
        decreases s@.len() - i,
    {
        v.push(s[i]);
        i = i + 1;
        assert(v@ =~= old(v)@ + s@.take(i as int));
    }
    assert(s@.take(i as int) =~= s@);
}

/// Appends the little-endian bytes of each value of `s`.
pub fn push_u32_slice_le(v: &mut Vec<u8>, s: &[u32])
    ensures
        final(v)@ == old(v)@ + le32_seq(s@),
{
    let mut i: usize = 0;
    while i < s.len()
        invariant
            i <= s@.len(),
            v@ == old(v)@ + le32_seq(s@.take(i as int)),
        decreases s@.len() - i,
    {
        let ghost before = v@;
        push_u32_le(v, s[i]);
        assert(s@.take(i + 1).drop_last() =~= s@.take(i as int));
        i = i + 1;
        assert(v@ =~= old(v)@ + le32_seq(s@.take(i as int)));
    }
    assert(s@.take(i as int) =~= s@);
}

/// A sequence of `n` zero bytes.
pub open spec fn zeros(n: nat) -> Seq<u8> {
    Seq::new(n, |_i: int| 0u8)
}

/// Appends `n` zero bytes.
pub fn push_zeros(v: &mut Vec<u8>, n: usize)
    ensures
        final(v)@ == old(v)@ + zeros(n as nat),
{
    let mut i: usize = 0;
    while i < n
        invariant
            i <= n,
            v@ == old(v)@ + zeros(i as nat),
        decreases n - i,
    {
        v.push(0u8);
        i = i + 1;
        assert(v@ =~= old(v)@ + zeros(i as nat));
    }
}

} // verus!

verus! {

/// Joins two 32-bit halves into a 64-bit value.
pub fn join_u32(lo: u32, hi: u32) -> (r: u64)
    ensures
        r == lo as int + hi as int * 0x1_0000_0000,
{
    let r = (lo as u64) | ((hi as u64) << 32u64);
    assert(((lo as u64) | ((hi as u64) << 32u64)) == lo as u64 + hi as u64 * 0x1_0000_0000u64)
        by (bit_vector);
    r
}

/// Joins a 32-bit low part and a 16-bit high part into a 48-bit value.
pub fn join_u32_u16(lo: u32, hi: u16) -> (r: u64)
    ensures
        r == lo as int + hi as int * 0x1_0000_0000,
{
    let r = (lo as u64) | ((hi as u64) << 32u64);
    assert(((lo as u64) | ((hi as u64) << 32u64)) == lo as u64 + hi as u64 * 0x1_0000_0000u64)
        by (bit_vector);
    r
}

/// Joins two 16-bit halves into a 32-bit value.
pub fn join_u16(lo: u16, hi: u16) -> (r: u32)
    ensures
        r == lo as int + hi as int * 0x1_0000,
{
    let r = (lo as u32) | ((hi as u32) << 16u32);
    assert(((lo as u32) | ((hi as u32) << 16u32)) == lo as u32 + hi as u32 * 0x1_0000u32)
        by (bit_vector);
    r
}

/// Splits a 64-bit value into its low and high 32-bit halves.
pub fn split_u64(x: u64) -> (r: (u32, u32))
    ensures
        r.0 as int + r.1 as int * 0x1_0000_0000 == x,
{
    let lo = (x & 0xffff_ffff) as u32;
    let hi = (x >> 32u64) as u32;
    assert((x & 0xffff_ffff) as u32 as u64 + (x >> 32u64) as u32 as u64 * 0x1_0000_0000u64 == x)
        by (bit_vector);
    (lo, hi)
}

/// Splits a 32-bit value into its low and high 16-bit halves.
pub fn split_u32(x: u32) -> (r: (u16, u16))
    ensures
        r.0 as int + r.1 as int * 0x1_0000 == x,
{
    let lo = (x & 0xffff) as u16;
    let hi = (x >> 16u32) as u16;
    assert((x & 0xffff) as u16 as u32 + (x >> 16u32) as u16 as u32 * 0x1_0000u32 == x)
        by (bit_vector);
    (lo, hi)
}

/// Appends `data[start..end]`.
pub fn push_range(v: &mut Vec<u8>, data: &[u8], start: usize, end: usize)
    requires
        start <= end <= data@.len(),
    ensures
        final(v)@ == old(v)@ + data@.subrange(start as int, end as int),
{
    let mut i: usize = start;
    while i < end
        invariant
            start <= i <= end,
            end <= data@.len(),
            v@ == old(v)@ + data@.subrange(start as int, i as int),
        decreases end - i,
    {
        v.push(data[i]);
        i = i + 1;
        assert(v@ =~= old(v)@ + data@.subrange(start as int, i as int));
    }
}

/// Big-endian bytes of a `u32`.
pub open spec fn be32(x: u32) -> Seq<u8> {
    seq![(x >> 24u32) as u8, ((x >> 16u32) & 0xff) as u8, ((x >> 8u32) & 0xff) as u8, (x & 0xff) as u8]
}

/// The `u32` stored big-endian at `s[i..i + 4]`.
pub open spec fn be32_at(s: Seq<u8>, i: int) -> u32 {
    (((s[i] as u32) << 24u32) | ((s[i + 1] as u32) << 16u32) | ((s[i + 2] as u32) << 8u32) | (s[i
        + 3] as u32)) as u32
}

/// Reads the big-endian `u32` at `data[off..off + 4]`.
pub fn read_u32_be(data: &[u8], off: usize) -> (r: u32)
    requires
        off + 4 <= data@.len(),
    ensures
        r == be32_at(data@, off as int),
{
    ((data[off] as u32) << 24u32) | ((data[off + 1] as u32) << 16u32) | ((data[off + 2] as u32)
        << 8u32) | (data[off + 3] as u32)
}

/// Appends the big-endian bytes of `x`.
pub fn push_u32_be(v: &mut Vec<u8>, x: u32)
    ensures
        final(v)@ == old(v)@ + be32(x),
{
    v.push((x >> 24u32) as u8);
    v.push(((x >> 16u32) & 0xff) as u8);
    v.push(((x >> 8u32) & 0xff) as u8);
    v.push((x & 0xff) as u8);
    assert(v@ =~= old(v)@ + be32(x));
}

/// The `u16` stored big-endian at `s[i..i + 2]`.
pub open spec fn be16_at(s: Seq<u8>, i: int) -> u16 {
    (((s[i] as u16) << 8u16) | (s[i + 1] as u16)) as u16
}

/// Reads the big-endian `u16` at `data[off..off + 2]`.
pub fn read_u16_be(data: &[u8], off: usize) -> (r: u16)
    requires
        off + 2 <= data@.len(),
    ensures
        r == be16_at(data@, off as int),
{
    ((data[off] as u16) << 8u16) | (data[off + 1] as u16)
}

/// Writes `bytes` at `data[off..off + bytes.len()]`.
pub fn write_bytes_at(data: &mut [u8], off: usize, bytes: &[u8])
    requires
        off + bytes@.len() <= old(data)@.len(),
    ensures
        final(data)@ == old(data)@.take(off as int) + bytes@ + old(data)@.skip(off + bytes@.len()),
{
    let n = bytes.len();
    let dlen = data.len();
    let mut i: usize = 0;
    while i < n
        invariant
            n == bytes@.len(),
            dlen == data@.len(),
            i <= n,
            off + n <= data@.len(),
            data@.len() == old(data)@.len(),
            data@ == old(data)@.take(off as int) + bytes@.take(i as int) + old(data)@.skip(off + i),
        decreases n - i,
    {
        data[off + i] = bytes[i];
        i = i + 1;
        assert(data@ =~= old(data)@.take(off as int) + bytes@.take(i as int) + old(data)@.skip(off + i));
    }
    assert(bytes@.take(n as int) =~= bytes@);
}

/// The bytes of zero are zero.
pub proof fn lemma_le32_zero()
    ensures
        le32(0) == zeros(4),
{
    assert(((0u32 & 0xff) as u8) == 0 && (((0u32 >> 8u32) & 0xff) as u8) == 0 && (((0u32 >> 16u32)
        & 0xff) as u8) == 0 && ((0u32 >> 24u32) as u8) == 0) by (bit_vector);
    assert(le32(0) =~= zeros(4));
}

/// The bytes of a sequence of zero words are zero.
pub proof fn lemma_le32_seq_zero(s: Seq<u32>)
    requires
        forall|i: int| 0 <= i < s.len() ==> s[i] == 0,
    ensures
        le32_seq(s) == zeros(4 * s.len()),
    decreases s.len(),
{
    if s.len() > 0 {
        lemma_le32_seq_zero(s.drop_last());
        lemma_le32_zero();
        assert(le32_seq(s) =~= zeros(4 * s.len()));
    } else {
        assert(le32_seq(s) =~= zeros(0));
    }
}

/// Interprets bytes as UTF-8 text: `core::str::from_utf8`, which gives
/// the text exactly when the bytes are valid UTF-8, with those bytes.
#[verifier::external_body]
pub(crate) fn str_from_utf8<'a>(v: &'a [u8]) -> (r: Option<&'a str>)
    ensures
        r is Some <==> valid_utf8(v@),
        r matches Some(s) ==> s.spec_bytes() == v@,
{
    core::str::from_utf8(v).ok()
}

/// The `u32` values stored little-endian in the first `n` 4-byte groups
/// of `b`.
pub open spec fn spec_words(b: Seq<u8>, n: nat) -> Seq<u32> {
    Seq::new(n, |k: int| u32_at(b, 4 * k))
}

/// Writing a stored `u32` back gives the four bytes it was read from.
pub proof fn lemma_le32_of_u32_at(b: Seq<u8>, i: int)
    requires
        0 <= i,
        i + 4 <= b.len(),
    ensures
        le32(u32_at(b, i)) == b.subrange(i, i + 4),
{
    let b0 = b[i];
    let b1 = b[i + 1];
    let b2 = b[i + 2];
    let b3 = b[i + 3];
    let x = u32_at(b, i);
    assert((x & 0xff) as u8 == b0 && ((x >> 8u32) & 0xff) as u8 == b1 && ((x >> 16u32) & 0xff) as u8
        == b2 && (x >> 24u32) as u8 == b3) by (bit_vector)
        requires
            x == ((b0 as u32) | ((b1 as u32) << 8u32) | ((b2 as u32) << 16u32) | ((b3 as u32)
                << 24u32)) as u32,
    ;
    assert(le32(x) =~= b.subrange(i, i + 4));
}

/// Bytes read as words and written back are the same bytes.
pub proof fn lemma_le32_seq_words(b: Seq<u8>, n: nat)
    requires
        b.len() == 4 * n,
    ensures
        le32_seq(spec_words(b, n)) == b,
    decreases n,
{
    if n > 0 {
        let m = (n - 1) as nat;
        let cut: int = 4 * m as int;
        let front = b.take(cut);
        lemma_le32_seq_words(front, m);
        assert(spec_words(b, n).drop_last() =~= spec_words(front, m));
        lemma_le32_of_u32_at(b, cut);
        assert(b =~= front + b.subrange(cut, cut + 4));
    } else {
        assert(b =~= Seq::<u8>::empty());
    }
}

} // verus!
