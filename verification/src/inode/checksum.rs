//! Inode CRC32C checksums.
//!
//! The checksum covers the inode number and the on-disk inode record of
//! `inode_size` bytes, with the checksum fields read as zero. The record is
//! the 160-byte encoding of `ext4_inode`, cut to `inode_size` bytes, or
//! followed by zero bytes when the inode size is larger.

use vstd::prelude::*;
use crate::bytes::{le32, push_range, push_u32_le, push_zeros, split_u32, zeros};
use crate::consts::{EXT4_CRC32_INIT, EXT4_FEATURE_RO_COMPAT_METADATA_CSUM, EXT4_GOOD_OLD_INODE_SIZE};
use crate::crc::{crc32c_append, spec_crc32c};
use crate::superblock::checksum::spec_has_metadata_csum;
use crate::superblock::Superblock;
use crate::types::{ext4_inode, ext4_sblock};

verus! {

/// Offset of `checksum_lo` in the inode record.
pub const CHECKSUM_LO_OFFSET: usize = 124;

/// Offset of `checksum_hi` in the inode record.
pub const CHECKSUM_HI_OFFSET: usize = 130;

/// Whether the inode record has room for `checksum_hi`.
pub open spec fn spec_has_checksum_hi(sb: ext4_sblock) -> bool {
    sb.spec_inode_size() > EXT4_GOOD_OLD_INODE_SIZE
}

/// Inode sizes for which the checksum can be computed: the record reaches
/// past `checksum_lo`, and does not end inside the two bytes before
/// `checksum_hi`.
pub open spec fn spec_checksum_size_ok(sb: ext4_sblock) -> bool {
    sb.spec_inode_size() >= 124 && sb.spec_inode_size() != 129
}

/// The stored checksum: `checksum_lo`, and `checksum_hi` above it when the
/// record has room for it.
pub open spec fn spec_get_checksum(sb: ext4_sblock, i: ext4_inode) -> int {
    if spec_has_checksum_hi(sb) {
        i.checksum_lo as int + i.checksum_hi as int * 0x1_0000
    } else {
        i.checksum_lo as int
    }
}

/// The on-disk record of `size` bytes.
pub open spec fn spec_inode_record(i: ext4_inode, size: nat) -> Seq<u8> {
    if size <= 160 {
        i.spec_to_bytes().take(size as int)
    } else {
        i.spec_to_bytes() + zeros((size - 160) as nat)
    }
}

/// The bytes the checksum covers after the inode number: the record with
/// both checksum fields replaced by zeros.
pub open spec fn spec_checksum_input(raw: Seq<u8>, size: int) -> Seq<u8> {
    raw.take(124) + zeros(2) + if size > 128 {
        raw.subrange(126, 130) + zeros(2) + if size > 132 {
            raw.subrange(132, size)
        } else {
            Seq::empty()
        }
    } else if size > 126 {
        raw.subrange(126, size)
    } else {
        Seq::empty()
    }
}

/// The CRC32C checksum of inode `inode_num` with record `i`.
pub open spec fn spec_compute_checksum(sb: ext4_sblock, inode_num: u32, i: ext4_inode) -> u32 {
    let size = sb.spec_inode_size() as int;
    spec_crc32c(
        spec_crc32c(EXT4_CRC32_INIT, le32(inode_num)),
        spec_checksum_input(spec_inode_record(i, size as nat), size),
    )
}

/// Whether the stored checksum is accepted.
pub open spec fn spec_verify_checksum(sb: ext4_sblock, inode_num: u32, i: ext4_inode) -> bool {
    !spec_has_metadata_csum(sb) || spec_get_checksum(sb, i) == spec_compute_checksum(
        sb,
        inode_num,
        i,
    ) as int
}

/// The stored checksum of the inode.
pub fn get_checksum(sb: &Superblock, inode: &ext4_inode) -> (r: u32)
    ensures
        r == spec_get_checksum(sb@, *inode),
{
    let inode_size = sb.inode_size();
    if inode_size as usize > EXT4_GOOD_OLD_INODE_SIZE {
        crate::bytes::join_u16(inode.checksum_lo, inode.checksum_hi)
    } else {
        inode.checksum_lo as u32
    }
}

/// Stores `checksum`: its low half always, its high half when the record
/// has room for it.
pub fn set_checksum(sb: &Superblock, inode: &mut ext4_inode, checksum: u32)
    ensures
        ({
            let halves_lo = checksum as int % 0x1_0000;
            let halves_hi = checksum as int / 0x1_0000;
            if spec_has_checksum_hi(sb@) {
                *final(inode) == (ext4_inode {
                    checksum_lo: halves_lo as u16,
                    checksum_hi: halves_hi as u16,
                    ..*old(inode)
                })
            } else {
                *final(inode) == (ext4_inode { checksum_lo: halves_lo as u16, ..*old(inode) })
            }
        }),
{
    let (lo, hi) = split_u32(checksum);
    let inode_size = sb.inode_size();
    inode.checksum_lo = lo;
    if inode_size as usize > EXT4_GOOD_OLD_INODE_SIZE {
        inode.checksum_hi = hi;
    }
}

/// The record of `size` bytes.
pub(crate) fn inode_record_bytes(inode: &ext4_inode, size: usize) -> (v: Vec<u8>)
    ensures
        v@ == spec_inode_record(*inode, size as nat),
{
    let bytes = inode.to_bytes();
    proof {
        inode.lemma_bytes_len();
    }
    if size <= 160 {
        let mut v: Vec<u8> = Vec::new();
        push_range(&mut v, bytes.as_slice(), 0, size);
        assert(v@ =~= spec_inode_record(*inode, size as nat));
        v
    } else {
        let mut v = bytes;
        push_zeros(&mut v, size - 160);
        v
    }
}

/// Computes the CRC32C checksum of inode `inode_num` with record `inode`.
pub fn compute_checksum(sb: &Superblock, inode_num: u32, inode: &ext4_inode) -> (r: u32)
    requires
        spec_checksum_size_ok(sb@),
    ensures
        r == spec_compute_checksum(sb@, inode_num, *inode),
{
    let size = sb.inode_size() as usize;
    let raw = inode_record_bytes(inode, size);
    proof {
        inode.lemma_bytes_len();
    }
    let raw = raw.as_slice();
    let mut input: Vec<u8> = Vec::new();
    push_range(&mut input, raw, 0, CHECKSUM_LO_OFFSET);
    push_zeros(&mut input, 2);
    if size > EXT4_GOOD_OLD_INODE_SIZE {
        push_range(&mut input, raw, 126, CHECKSUM_HI_OFFSET);
        push_zeros(&mut input, 2);
        if size > 132 {
            push_range(&mut input, raw, 132, size);
        }
    } else if size > 126 {
        push_range(&mut input, raw, 126, size);
    }
    assert(input@ =~= spec_checksum_input(raw@, size as int));
    let mut num: Vec<u8> = Vec::new();
    push_u32_le(&mut num, inode_num);
    assert(num@ =~= le32(inode_num));
    let crc = crc32c_append(EXT4_CRC32_INIT, num.as_slice());
    crc32c_append(crc, input.as_slice())
}

/// Checks the stored checksum: always accepted when metadata checksums are
/// off, otherwise it must equal the computed one.
pub fn verify_checksum(sb: &Superblock, inode_num: u32, inode: &ext4_inode) -> (r: bool)
    requires
        spec_has_metadata_csum(sb@) ==> spec_checksum_size_ok(sb@),
    ensures
        r == spec_verify_checksum(sb@, inode_num, *inode),
{
    if !sb.has_ro_compat_feature(EXT4_FEATURE_RO_COMPAT_METADATA_CSUM) {
        return true;
    }
    let stored = get_checksum(sb, inode);
    let computed = compute_checksum(sb, inode_num, inode);
    stored == computed
}

/// The computed checksum does not depend on the stored checksum fields.
pub proof fn lemma_checksum_ignores_checksum_fields(
    sb: ext4_sblock,
    inode_num: u32,
    i: ext4_inode,
    lo: u16,
    hi: u16,
)
    requires
        spec_checksum_size_ok(sb),
    ensures
        spec_compute_checksum(sb, inode_num, ext4_inode { checksum_lo: lo, checksum_hi: hi, ..i })
            == spec_compute_checksum(sb, inode_num, i),
{
    let j = ext4_inode { checksum_lo: lo, checksum_hi: hi, ..i };
    let size = sb.spec_inode_size() as int;
    i.lemma_bytes_len();
    j.lemma_bytes_len();
    assert(i.spec_bytes_part0() == j.spec_bytes_part0());
    assert(i.spec_bytes_part1() == j.spec_bytes_part1());
    assert(i.spec_bytes_part2() == j.spec_bytes_part2());
    assert(i.spec_bytes_part3() == j.spec_bytes_part3());
    let ri = spec_inode_record(i, size as nat);
    let rj = spec_inode_record(j, size as nat);
    assert forall|k: int|
        0 <= k < size && !(124 <= k < 126) && !(130 <= k < 132) implies ri[k] == rj[k] by {
        assert(i.spec_bytes_part0().len() == 40);
        assert(i.spec_bytes_part1().len() == 84);
        assert(i.spec_bytes_part2().len() == 4);
        assert(i.spec_bytes_part3().len() == 28);
    }
    assert(ri.take(124) =~= rj.take(124));
    if size > 128 {
        assert(ri.subrange(126, 130) =~= rj.subrange(126, 130));
        if size > 132 {
            assert(ri.subrange(132, size) =~= rj.subrange(132, size));
        }
    } else if size > 126 {
        assert(ri.subrange(126, size) =~= rj.subrange(126, size));
    }
    assert(spec_checksum_input(ri, size) =~= spec_checksum_input(rj, size));
}

/// Storing the computed checksum makes the inode verify, when the record
/// has room for both checksum halves.
pub proof fn lemma_set_then_verify(sb: ext4_sblock, inode_num: u32, i: ext4_inode)
    requires
        spec_checksum_size_ok(sb),
        spec_has_checksum_hi(sb),
    ensures
        ({
            let c = spec_compute_checksum(sb, inode_num, i) as int;
            let j = ext4_inode {
                checksum_lo: (c % 0x1_0000) as u16,
                checksum_hi: (c / 0x1_0000) as u16,
                ..i
            };
            spec_verify_checksum(sb, inode_num, j)
        }),
{
    let c = spec_compute_checksum(sb, inode_num, i) as int;
    lemma_checksum_ignores_checksum_fields(
        sb,
        inode_num,
        i,
        (c % 0x1_0000) as u16,
        (c / 0x1_0000) as u16,
    );
}


/// The inode checksum covers every byte of the record but its checksum
/// fields: what is checksummed after the inode number agrees with the
/// record at every offset of the record outside `checksum_lo` (124..126)
/// and `checksum_hi` (130..132), reads those fields as zero, and is exactly
/// as long as the record (a checksum field the record ends inside counted
/// in full).
pub proof fn lemma_checksum_input_covers_record(raw: Seq<u8>, size: int)
    requires
        raw.len() == size,
        size >= 124,
        size != 129,
    ensures
        ({
            let input = spec_checksum_input(raw, size);
            &&& input.len() == if 128 < size < 132 { 132 } else if size < 126 { 126 } else { size }
            &&& forall|k: int| 0 <= k < size && !(124 <= k < 126) && !(130 <= k < 132) ==> #[trigger] input[k] == raw[k]
            &&& forall|k: int| 124 <= k < 126 ==> #[trigger] input[k] == 0
            &&& size > 128 ==> forall|k: int| 130 <= k < 132 ==> #[trigger] input[k] == 0
        }),
{
    let input = spec_checksum_input(raw, size);
    if size > 128 {
        let tail = if size > 132 { raw.subrange(132, size) } else { Seq::empty() };
        assert(input == raw.take(124) + zeros(2) + (raw.subrange(126, 130) + zeros(2) + tail));
        assert forall|k: int| 0 <= k < size && !(124 <= k < 126) && !(130 <= k < 132) implies #[trigger] input[k] == raw[k] by {
            if k < 124 {
            } else if k < 130 {
                assert(input[k] == raw.subrange(126, 130)[k - 126]);
            } else {
                assert(input[k] == tail[k - 132]);
            }
        }
        assert forall|k: int| 124 <= k < 126 implies #[trigger] input[k] == 0 by {
            assert(input[k] == zeros(2)[k - 124]);
        }
        assert forall|k: int| 130 <= k < 132 implies #[trigger] input[k] == 0 by {
            assert(input[k] == zeros(2)[k - 130]);
        }
    } else {
        let tail = if size > 126 { raw.subrange(126, size) } else { Seq::empty() };
        assert(input == raw.take(124) + zeros(2) + tail);
        assert forall|k: int| 0 <= k < size && !(124 <= k < 126) && !(130 <= k < 132) implies #[trigger] input[k] == raw[k] by {
            if k >= 126 {
                assert(input[k] == tail[k - 126]);
            }
        }
        assert forall|k: int| 124 <= k < 126 implies #[trigger] input[k] == 0 by {
            assert(input[k] == zeros(2)[k - 124]);
        }
    }
}

/// The inode checksum is CRC32C started from all ones over the inode
/// number in little-endian order followed by the `inode_size`-byte record
/// read with its checksum fields as zero (see
/// `lemma_checksum_input_covers_record`).
pub proof fn lemma_checksum_is_crc_of_record(sb: ext4_sblock, inode_num: u32, i: ext4_inode)
    ensures
        ({
            let size = sb.spec_inode_size() as int;
            let record = spec_inode_record(i, size as nat);
            &&& record.len() == size
            &&& spec_compute_checksum(sb, inode_num, i) == spec_crc32c(
                0xFFFF_FFFFu32,
                le32(inode_num) + spec_checksum_input(record, size),
            )
        }),
{
    let size = sb.spec_inode_size() as int;
    i.lemma_bytes_len();
    crate::crc::lemma_crc32c_concat(0xFFFF_FFFFu32, le32(inode_num), spec_checksum_input(spec_inode_record(i, size as nat), size));
}

} // verus!
