//! CRC32C (Castagnoli) as ext4 and JBD2 use it: reflected, polynomial
//! 0x82F63B78, without the final inversion (callers start from
//! `EXT4_CRC32_INIT`).

use vstd::prelude::*;

verus! {

/// The reflected CRC32C polynomial.
pub const CRC32C_POLY_REFLECTED: u32 = 0x82F6_3B78;

/// One bit step of the reflected CRC register.
pub open spec fn crc32c_bit(c: u32) -> u32 {
    if c & 1 == 1 {
        (c >> 1u32) ^ CRC32C_POLY_REFLECTED
    } else {
        c >> 1u32
    }
}

/// The register after feeding one byte.
pub open spec fn crc32c_byte(c: u32, b: u8) -> u32 {
    let x0 = c ^ (b as u32);
    let x1 = crc32c_bit(x0);
    let x2 = crc32c_bit(x1);
    let x3 = crc32c_bit(x2);
    let x4 = crc32c_bit(x3);
    let x5 = crc32c_bit(x4);
    let x6 = crc32c_bit(x5);
    let x7 = crc32c_bit(x6);
    crc32c_bit(x7)
}

/// The register after feeding all of `data`, starting from `c`.
pub open spec fn spec_crc32c(c: u32, data: Seq<u8>) -> u32
    decreases data.len(),
{
    if data.len() == 0 {
        c
    } else {
        crc32c_byte(spec_crc32c(c, data.drop_last()), data.last())
    }
}

/// Feeding `a + b` is feeding `a`, then `b`.
pub proof fn lemma_crc32c_concat(c: u32, a: Seq<u8>, b: Seq<u8>)
    ensures
        spec_crc32c(c, a + b) == spec_crc32c(spec_crc32c(c, a), b),
    decreases b.len(),
{
    if b.len() == 0 {
        assert(a + b =~= a);
    } else {
        lemma_crc32c_concat(c, a, b.drop_last());
        assert((a + b).drop_last() =~= a + b.drop_last());
        assert((a + b).last() == b.last());
    }
}

fn crc32c_bit_exec(c: u32) -> (r: u32)
    ensures
        r == crc32c_bit(c),
{
    if c & 1 == 1 {
        (c >> 1u32) ^ CRC32C_POLY_REFLECTED
    } else {
        c >> 1u32
    }
}

/// Feeds one byte into the CRC register.
pub fn crc32c_update_byte(c: u32, b: u8) -> (r: u32)
    ensures
        r == crc32c_byte(c, b),
{
    let x0 = c ^ (b as u32);
    let x1 = crc32c_bit_exec(x0);
    let x2 = crc32c_bit_exec(x1);
    let x3 = crc32c_bit_exec(x2);
    let x4 = crc32c_bit_exec(x3);
    let x5 = crc32c_bit_exec(x4);
    let x6 = crc32c_bit_exec(x5);
    let x7 = crc32c_bit_exec(x6);
    crc32c_bit_exec(x7)
}

/// Continues a CRC32C computation from `crc` over `data`.
pub fn crc32c_append(crc: u32, data: &[u8]) -> (r: u32)
    ensures
        r == spec_crc32c(crc, data@),
{
    let mut c = crc;
    let mut i: usize = 0;
    while i < data.len()
        invariant
            i <= data@.len(),
            c == spec_crc32c(crc, data@.take(i as int)),
        decreases data@.len() - i,
    {
        proof {
            assert(data@.take(i + 1).drop_last() =~= data@.take(i as int));
        }
        c = crc32c_update_byte(c, data[i]);
        i = i + 1;
    }
    proof {
        assert(data@.take(i as int) =~= data@);
    }
    c
}

} // verus!
