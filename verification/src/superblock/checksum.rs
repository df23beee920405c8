//! Superblock CRC32C checksum.

use vstd::prelude::*;
use crate::consts::{EXT4_CHECKSUM_CRC32C, EXT4_CRC32_INIT, EXT4_FEATURE_RO_COMPAT_METADATA_CSUM};
use crate::crc::{crc32c_append, spec_crc32c};
use crate::types::ext4_sblock;

verus! {

/// CRC32C of the superblock bytes before the checksum field.
pub open spec fn spec_compute_checksum(sb: ext4_sblock) -> u32 {
    spec_crc32c(EXT4_CRC32_INIT, sb.spec_body_bytes())
}

/// Whether the superblock enables metadata checksums.
pub open spec fn spec_has_metadata_csum(sb: ext4_sblock) -> bool {
    sb.feature_ro_compat & EXT4_FEATURE_RO_COMPAT_METADATA_CSUM != 0
}

/// Whether the stored checksum is accepted: always when metadata checksums
/// are off; otherwise the type must be CRC32C and the stored value must
/// match the computed one.
pub open spec fn spec_verify_checksum(sb: ext4_sblock) -> bool {
    if !spec_has_metadata_csum(sb) {
        true
    } else if sb.checksum_type != EXT4_CHECKSUM_CRC32C {
        false
    } else {
        spec_compute_checksum(sb) == sb.checksum
    }
}

/// Computes the CRC32C of the superblock up to its checksum field.
pub fn compute_checksum(sb: &ext4_sblock) -> (r: u32)
    ensures
        r == spec_compute_checksum(*sb),
{
    let body = sb.body_bytes();
    crc32c_append(EXT4_CRC32_INIT, body.as_slice())
}

/// Checks the stored superblock checksum.
pub fn verify_checksum(sb: &ext4_sblock) -> (r: bool)
    ensures
        r == spec_verify_checksum(*sb),
{
    let feature_ro_compat = sb.feature_ro_compat;
    if (feature_ro_compat & EXT4_FEATURE_RO_COMPAT_METADATA_CSUM) == 0 {
        return true;
    }
    if sb.checksum_type != EXT4_CHECKSUM_CRC32C {
        return false;
    }
    let computed = compute_checksum(sb);
    let stored = sb.checksum;
    computed == stored
}

/// Stores the computed checksum when metadata checksums are enabled;
/// otherwise leaves the superblock unchanged.
pub fn set_checksum(sb: &mut ext4_sblock)
    ensures
        spec_has_metadata_csum(*old(sb)) ==> *final(sb) == (ext4_sblock {
            checksum: spec_compute_checksum(*old(sb)),
            ..*old(sb)
        }),
        !spec_has_metadata_csum(*old(sb)) ==> *final(sb) == *old(sb),
{
    let feature_ro_compat = sb.feature_ro_compat;
    if (feature_ro_compat & EXT4_FEATURE_RO_COMPAT_METADATA_CSUM) == 0 {
        return;
    }
    let csum = compute_checksum(sb);
    sb.checksum = csum;
}

/// The checksum does not cover its own field.
pub proof fn lemma_checksum_ignores_checksum_field(sb: ext4_sblock, c: u32)
    ensures
        spec_compute_checksum(ext4_sblock { checksum: c, ..sb }) == spec_compute_checksum(sb),
{
    let sb2 = ext4_sblock { checksum: c, ..sb };
    assert(sb2.spec_body_bytes() =~= sb.spec_body_bytes());
}

/// Storing the checksum makes the superblock verify, whenever checksums
/// are on and the checksum type is CRC32C.
pub proof fn lemma_set_then_verify(sb: ext4_sblock)
    requires
        spec_has_metadata_csum(sb),
        sb.checksum_type == EXT4_CHECKSUM_CRC32C,
    ensures
        spec_verify_checksum(ext4_sblock { checksum: spec_compute_checksum(sb), ..sb }),
{
    lemma_checksum_ignores_checksum_field(sb, spec_compute_checksum(sb));
}


/// The superblock checksum is CRC32C started from all ones (0xFFFFFFFF),
/// without a final inversion, over the first 1020 bytes of the disk
/// superblock: everything before the checksum field.
pub proof fn lemma_checksum_is_crc_of_leading_bytes(sb: ext4_sblock)
    ensures
        spec_compute_checksum(sb) == spec_crc32c(0xFFFF_FFFFu32, sb.spec_to_bytes().take(1020)),
        sb.spec_to_bytes().subrange(1020, 1024) == crate::bytes::le32(sb.checksum),
{
    sb.lemma_body_len();
    assert(sb.spec_to_bytes().take(1020) =~= sb.spec_body_bytes());
    assert(sb.spec_to_bytes().subrange(1020, 1024) =~= crate::bytes::le32(sb.checksum));
}

} // verus!
