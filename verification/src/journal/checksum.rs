//! CRC32C checksums of journal blocks and of the journal superblock.
//!
//! A block checksum runs over the journal UUID, the big-endian sequence
//! number and the block bytes, starting from `EXT4_CRC32_INIT`.

use vstd::prelude::*;
use crate::bytes::{be32, be32_at, push_u32_be, read_u32_be, swap32, swap_bytes_u32};
use crate::consts::EXT4_CRC32_INIT;
use crate::crc::{crc32c_append, spec_crc32c};
use crate::journal::types::{jbd_sb, JBD_FEATURE_INCOMPAT_CSUM_V2, JBD_FEATURE_INCOMPAT_CSUM_V3};

verus! {

/// Size of a block header.
pub const BHDR_SIZE: usize = 12;
/// Size of a block tail.
pub const TAIL_SIZE: usize = 4;
/// Size of a commit header.
pub const COMMIT_HEADER_SIZE: usize = 60;
/// Size of a revoke header.
pub const REVOKE_HEADER_SIZE: usize = 16;
/// Offset of the first checksum slot of a commit header.
pub const COMMIT_CHKSUM_OFFSET: usize = 16;

/// The checksum of a journal block.
pub open spec fn spec_block_csum(uuid: Seq<u8>, data: Seq<u8>, sequence: u32) -> u32 {
    spec_crc32c(spec_crc32c(spec_crc32c(EXT4_CRC32_INIT, uuid), be32(sequence)), data)
}

/// The sequence number in a block header at the start of `data`.
pub open spec fn spec_header_sequence(data: Seq<u8>) -> u32 {
    be32_at(data, 8)
}

/// Checksum of `data` for transaction `sequence` of the journal `uuid`.
pub fn block_csum(uuid: &[u8; 16], data: &[u8], sequence: u32) -> (r: u32)
    ensures
        r == spec_block_csum(uuid@, data@, sequence),
{
    let mut crc = crc32c_append(EXT4_CRC32_INIT, uuid);
    let mut seq_bytes: Vec<u8> = Vec::new();
    push_u32_be(&mut seq_bytes, sequence);
    assert(seq_bytes@ =~= be32(sequence));
    crc = crc32c_append(crc, seq_bytes.as_slice());
    crc32c_append(crc, data)
}

/// Checksum of `data[..end]`.
fn block_csum_prefix(uuid: &[u8; 16], data: &[u8], end: usize, sequence: u32) -> (r: u32)
    requires
        end <= data@.len(),
    ensures
        r == spec_block_csum(uuid@, data@.take(end as int), sequence),
{
    let mut prefix: Vec<u8> = Vec::new();
    crate::bytes::push_range(&mut prefix, data, 0, end);
    assert(prefix@ =~= data@.take(end as int));
    block_csum(uuid, prefix.as_slice(), sequence)
}

/// Whether a block with a checksum tail carries the checksum of what
/// precedes the tail; `false` when it is shorter than `min_len`.
pub open spec fn spec_verify_tail(uuid: Seq<u8>, data: Seq<u8>, min_len: int) -> bool {
    data.len() >= min_len && be32_at(data, data.len() - 4) == spec_block_csum(
        uuid,
        data.take(data.len() - 4),
        spec_header_sequence(data),
    )
}

/// Checks the checksum tail of a descriptor block.
pub fn verify_descriptor_block(uuid: &[u8; 16], data: &[u8]) -> (r: bool)
    ensures
        r == spec_verify_tail(uuid@, data@, (BHDR_SIZE + TAIL_SIZE) as int),
{
    if data.len() < BHDR_SIZE + TAIL_SIZE {
        return false;
    }
    let sequence = read_u32_be(data, 8);
    let tail_offset = data.len() - TAIL_SIZE;
    let stored = read_u32_be(data, tail_offset);
    let calculated = block_csum_prefix(uuid, data, tail_offset, sequence);
    stored == calculated
}

/// Checks the first checksum slot of a commit block against the checksum
/// of the whole block.
pub fn verify_commit_block(uuid: &[u8; 16], data: &[u8]) -> (r: bool)
    ensures
        r == (data@.len() >= COMMIT_HEADER_SIZE && be32_at(data@, COMMIT_CHKSUM_OFFSET as int)
            == spec_block_csum(uuid@, data@, spec_header_sequence(data@))),
{
    if data.len() < COMMIT_HEADER_SIZE {
        return false;
    }
    let stored = read_u32_be(data, COMMIT_CHKSUM_OFFSET);
    let sequence = read_u32_be(data, 8);
    let calculated = block_csum(uuid, data, sequence);
    stored == calculated
}

/// Checksum of a block whose header is at least `min_len` long; 0 for a
/// shorter block.
pub open spec fn spec_header_csum(uuid: Seq<u8>, data: Seq<u8>, min_len: int) -> u32 {
    if data.len() < min_len {
        0
    } else {
        spec_block_csum(uuid, data, spec_header_sequence(data))
    }
}

/// Checksum of a descriptor block (without its tail).
pub fn calculate_descriptor_csum(uuid: &[u8; 16], data: &[u8]) -> (r: u32)
    ensures
        r == spec_header_csum(uuid@, data@, BHDR_SIZE as int),
{
    if data.len() < BHDR_SIZE {
        return 0;
    }
    let sequence = read_u32_be(data, 8);
    block_csum(uuid, data, sequence)
}

/// Checksum of a commit block.
pub fn calculate_commit_csum(uuid: &[u8; 16], data: &[u8]) -> (r: u32)
    ensures
        r == spec_header_csum(uuid@, data@, COMMIT_HEADER_SIZE as int),
{
    if data.len() < COMMIT_HEADER_SIZE {
        return 0;
    }
    let sequence = read_u32_be(data, 8);
    block_csum(uuid, data, sequence)
}

/// Checksum of a revoke block (without its tail).
pub fn calculate_revoke_csum(uuid: &[u8; 16], data: &[u8]) -> (r: u32)
    ensures
        r == spec_header_csum(uuid@, data@, REVOKE_HEADER_SIZE as int),
{
    if data.len() < REVOKE_HEADER_SIZE {
        return 0;
    }
    let sequence = read_u32_be(data, 8);
    block_csum(uuid, data, sequence)
}

/// Checks the checksum tail of a revoke block.
pub fn verify_revoke_block(uuid: &[u8; 16], data: &[u8]) -> (r: bool)
    ensures
        r == spec_verify_tail(uuid@, data@, (REVOKE_HEADER_SIZE + TAIL_SIZE) as int),
{
    if data.len() < REVOKE_HEADER_SIZE + TAIL_SIZE {
        return false;
    }
    let sequence = read_u32_be(data, 8);
    let tail_offset = data.len() - TAIL_SIZE;
    let stored = read_u32_be(data, tail_offset);
    let calculated = block_csum_prefix(uuid, data, tail_offset, sequence);
    stored == calculated
}

/// Whether the journal superblock enables block checksums.
pub open spec fn spec_sb_has_csum(sb: jbd_sb) -> bool {
    swap32(sb.feature_incompat) & (JBD_FEATURE_INCOMPAT_CSUM_V2 | JBD_FEATURE_INCOMPAT_CSUM_V3) != 0
}

/// Checksum of the journal superblock: CRC32C of its bytes with the
/// checksum field zeroed.
pub open spec fn spec_sb_csum(sb: jbd_sb) -> u32 {
    spec_crc32c(EXT4_CRC32_INIT, (jbd_sb { checksum: 0, ..sb }).spec_to_bytes())
}

/// Whether the stored superblock checksum is accepted.
pub open spec fn spec_verify_sb_csum(sb: jbd_sb) -> bool {
    !spec_sb_has_csum(sb) || swap32(sb.checksum) == spec_sb_csum(sb)
}

/// Checks the journal superblock checksum (always accepted when block
/// checksums are off).
pub fn verify_superblock_csum(sb: &jbd_sb) -> (r: bool)
    ensures
        r == spec_verify_sb_csum(*sb),
{
    let incompat = swap_bytes_u32(sb.feature_incompat);
    if (incompat & (JBD_FEATURE_INCOMPAT_CSUM_V2 | JBD_FEATURE_INCOMPAT_CSUM_V3)) == 0 {
        return true;
    }
    let stored = swap_bytes_u32(sb.checksum);
    let mut copy = *sb;
    copy.checksum = 0;
    assert(copy == (jbd_sb { checksum: 0, ..*sb }));
    let bytes = copy.to_bytes();
    let calculated = crc32c_append(EXT4_CRC32_INIT, bytes.as_slice());
    stored == calculated
}

/// Computes the superblock checksum and stores it.
pub fn calculate_superblock_csum(sb: &mut jbd_sb)
    ensures
        *final(sb) == (jbd_sb { checksum: swap32(spec_sb_csum(*old(sb))), ..*old(sb) }),
        spec_verify_sb_csum(*final(sb)),
{
    sb.checksum = 0;
    let bytes = sb.to_bytes();
    let csum = crc32c_append(EXT4_CRC32_INIT, bytes.as_slice());
    sb.checksum = swap_bytes_u32(csum);
    proof {
        crate::bytes::lemma_swap32_involution(csum);
        assert((jbd_sb { checksum: 0, ..*final(sb) }) == (jbd_sb { checksum: 0, ..*old(sb) }));
    }
}

/// Storing the computed checksum makes the superblock verify, whatever
/// checksum it held before.
pub proof fn lemma_sb_csum_roundtrip(sb: jbd_sb)
    ensures
        spec_verify_sb_csum(jbd_sb { checksum: swap32(spec_sb_csum(sb)), ..sb }),
{
    let s2 = jbd_sb { checksum: swap32(spec_sb_csum(sb)), ..sb };
    crate::bytes::lemma_swap32_involution(spec_sb_csum(sb));
    assert((jbd_sb { checksum: 0, ..s2 }) == (jbd_sb { checksum: 0, ..sb }));
}


/// A journal block checksum is CRC32C started from all ones over the
/// journal UUID, then the transaction's sequence number in big-endian
/// order (most significant byte first), then the block's bytes: the same
/// block under two sequence numbers is checksummed over two different
/// inputs.
pub proof fn lemma_block_csum_covers_sequence(uuid: Seq<u8>, data: Seq<u8>, sequence: u32)
    ensures
        spec_block_csum(uuid, data, sequence) == spec_crc32c(0xFFFF_FFFFu32, uuid + be32(sequence) + data),
        be32(sequence).len() == 4,
        be32(sequence)[0] as int == sequence as int / 0x100_0000,
        be32(sequence)[1] as int == sequence as int / 0x1_0000 % 0x100,
        be32(sequence)[2] as int == sequence as int / 0x100 % 0x100,
        be32(sequence)[3] as int == sequence as int % 0x100,
{
    crate::crc::lemma_crc32c_concat(0xFFFF_FFFFu32, uuid, be32(sequence));
    crate::crc::lemma_crc32c_concat(0xFFFF_FFFFu32, uuid + be32(sequence), data);
    let s = sequence;
    assert({
        &&& (s >> 24u32) as u8 as int == s as int / 0x100_0000
        &&& ((s >> 16u32) & 0xff) as u8 as int == s as int / 0x1_0000 % 0x100
        &&& ((s >> 8u32) & 0xff) as u8 as int == s as int / 0x100 % 0x100
        &&& (s & 0xff) as u8 as int == s as int % 0x100
    }) by (bit_vector);
}

} // verus!
