//! Freeing an inode in the in-memory metadata of its block group: the
//! inode bitmap, the group descriptor's counters and the superblock's free
//! inode count. The caller loads the group's bitmap and descriptor and
//! stores them and the returned superblock bytes afterwards.

use vstd::prelude::*;
use crate::error::{Error, ErrorKind, Result};
use crate::fs::block_group_ref::{spec_count, BlockGroupRef};
use crate::superblock::write::spec_with_checksum;
use crate::superblock::Superblock;
use crate::types::{ext4_group_desc, ext4_sblock};
use super::helpers::{get_bgid_of_inode, inode_to_bgidx};

verus! {

/// The bitmap with bit `bit` (bit `bit % 8` of byte `bit / 8`) cleared.
pub open spec fn spec_clear_bit(bitmap: Seq<u8>, bit: int) -> Seq<u8> {
    bitmap.update(bit / 8, bitmap[bit / 8] & !((1u8 << ((bit % 8) as u8)) as u8))
}

/// Clears bit `bit` of the bitmap; `InvalidInput` when the bitmap is too
/// short to hold it.
fn clear_bit(bitmap: &mut [u8], bit: u32) -> (r: Result<()>)
    ensures
        ((bit / 8) as int) >= old(bitmap)@.len() ==> (r matches Err(e) && e.spec_kind() == ErrorKind::InvalidInput
            && final(bitmap)@ == old(bitmap)@),
        ((bit / 8) as int) < old(bitmap)@.len() ==> r is Ok && final(bitmap)@ == spec_clear_bit(old(bitmap)@, bit as int),
{
    let byte = (bit / 8) as usize;
    if byte >= bitmap.len() {
        return Err(Error::new(ErrorKind::InvalidInput, "bit outside the bitmap"));
    }
    let shift = (bit % 8) as u8;
    let mask: u8 = 1u8 << shift;
    bitmap[byte] = bitmap[byte] & !mask;
    Ok(())
}

/// Frees inode `inode` of group `bg_ref`: clears its bit in the group's
/// inode bitmap, counts one directory less when `is_dir`, one free inode
/// more in the group and in the superblock, and returns the superblock's
/// bytes (with its checksum set) for writing back. `InvalidInput`, with
/// nothing changed, when the bitmap does not hold the inode's bit.
#[verifier::rlimit(50)]
#[verifier::spinoff_prover]
pub fn free_inode(sb: &mut Superblock, bg_ref: &mut BlockGroupRef, bitmap: &mut [u8], inode: u32, is_dir: bool) -> (r: Result<Vec<u8>>)
    requires
        inode >= 1,
        old(sb)@.inodes_per_group != 0,
        old(bg_ref).bgid == (inode - 1) / (old(sb)@.inodes_per_group as int),
        spec_count(old(bg_ref).desc.free_inodes_count_lo, old(bg_ref).desc.free_inodes_count_hi, old(bg_ref).wide) < u32::MAX,
        old(sb)@.free_inodes_count < u32::MAX,
    ensures
        ({
            let index = (inode - 1) % (old(sb)@.inodes_per_group as int);
            if index / 8 >= old(bitmap)@.len() {
                &&& r matches Err(e) && e.spec_kind() == ErrorKind::InvalidInput
                &&& final(bitmap)@ == old(bitmap)@
                &&& *final(bg_ref) == *old(bg_ref)
                &&& final(sb)@ == old(sb)@
            } else {
                let dirs = spec_count(old(bg_ref).desc.used_dirs_count_lo, old(bg_ref).desc.used_dirs_count_hi, old(bg_ref).wide);
                let free = spec_count(old(bg_ref).desc.free_inodes_count_lo, old(bg_ref).desc.free_inodes_count_hi, old(bg_ref).wide);
                let new_sb = spec_with_checksum(ext4_sblock { free_inodes_count: (old(sb)@.free_inodes_count + 1) as u32, ..old(sb)@ });
                &&& r matches Ok(bytes) && bytes@ == new_sb.spec_to_bytes()
                &&& final(sb)@ == new_sb
                &&& final(bitmap)@ == spec_clear_bit(old(bitmap)@, index)
                &&& final(bg_ref).bgid == old(bg_ref).bgid
                &&& final(bg_ref).wide == old(bg_ref).wide
                &&& final(bg_ref).offset_in_block == old(bg_ref).offset_in_block
                &&& final(bg_ref).dirty
                &&& spec_count(final(bg_ref).desc.free_inodes_count_lo, final(bg_ref).desc.free_inodes_count_hi, final(bg_ref).wide)
                    == old(bg_ref).spec_stored((free + 1) as u32)
                &&& spec_count(final(bg_ref).desc.used_dirs_count_lo, final(bg_ref).desc.used_dirs_count_hi, final(bg_ref).wide)
                    == (if is_dir && dirs > 0 { dirs - 1 } else { dirs })
                &&& final(bg_ref).desc == (ext4_group_desc {
                    free_inodes_count_lo: final(bg_ref).desc.free_inodes_count_lo,
                    free_inodes_count_hi: final(bg_ref).desc.free_inodes_count_hi,
                    used_dirs_count_lo: final(bg_ref).desc.used_dirs_count_lo,
                    used_dirs_count_hi: final(bg_ref).desc.used_dirs_count_hi,
                    ..old(bg_ref).desc
                })
            }
        }),
{
    let block_group = get_bgid_of_inode(sb, inode);
    assert(block_group == bg_ref.bgid);
    let index_in_group = inode_to_bgidx(sb, inode);
    match clear_bit(bitmap, index_in_group) {
        Ok(()) => {},
        Err(e) => { return Err(e); },
    }
    if is_dir {
        match bg_ref.dec_used_dirs() {
            Ok(()) => {},
            Err(e) => { return Err(e); },
        }
    }
    match bg_ref.inc_free_inodes(1) {
        Ok(()) => {},
        Err(e) => { return Err(e); },
    }
    let sb_free_inodes = sb.free_inodes_count() + 1;
    sb.set_free_inodes_count(sb_free_inodes);
    Ok(sb.write())
}

} // verus!
