//! Updating the superblock and preparing it for writing.

use vstd::prelude::*;
use crate::consts::{EXT4_SUPER_STATE_ERROR, EXT4_SUPER_STATE_VALID};
use crate::types::ext4_sblock;
use super::checksum::{spec_compute_checksum, spec_has_metadata_csum};
use super::read::{spec_has_super_in_bg, Superblock};

verus! {

/// The superblock after `set_checksum`.
pub open spec fn spec_with_checksum(sb: ext4_sblock) -> ext4_sblock {
    if spec_has_metadata_csum(sb) {
        ext4_sblock { checksum: spec_compute_checksum(sb), ..sb }
    } else {
        sb
    }
}

/// Byte offset of the superblock copy in group `bgid`.
pub open spec fn spec_backup_offset(sb: ext4_sblock, bgid: u32) -> int {
    (sb.first_data_block as int + bgid as int * sb.blocks_per_group as int)
        * sb.spec_block_size() as int
}

/// Offsets of the superblock copies in the groups other than 0 that hold
/// one, in increasing group order, among the first `n` groups.
pub open spec fn spec_backup_offsets_upto(sb: ext4_sblock, n: int) -> Seq<u64>
    decreases n,
{
    if n <= 1 {
        Seq::empty()
    } else if spec_has_super_in_bg(sb, (n - 1) as u32) {
        spec_backup_offsets_upto(sb, n - 1).push(spec_backup_offset(sb, (n - 1) as u32) as u64)
    } else {
        spec_backup_offsets_upto(sb, n - 1)
    }
}

/// Offsets of the superblock copies, group by group.
pub open spec fn spec_backup_offsets(sb: ext4_sblock) -> Seq<u64> {
    spec_backup_offsets_upto(sb, sb.spec_block_group_count() as int)
}

/// What the computation of the copies' offsets needs: a valid shift, a
/// group count that does not overflow, and offsets that fit in 64 bits.
pub open spec fn backups_defined(sb: ext4_sblock) -> bool {
    &&& sb.log_block_size < 32
    &&& sb.blocks_per_group != 0
    &&& sb.spec_blocks_count() + sb.blocks_per_group <= u64::MAX
    &&& forall|g: u32|
        0 < g < sb.spec_block_group_count() && #[trigger] spec_has_super_in_bg(sb, g)
            ==> spec_backup_offset(sb, g) <= u64::MAX
}

/// The time stamp the updates below store: no clock is available, so it is
/// zero.
pub open spec fn spec_current_timestamp() -> u32 {
    0
}

fn current_timestamp() -> (r: u32)
    ensures
        r == spec_current_timestamp(),
{
    0
}

fn backup_offset(first: u64, bgid: u32, bpg: u64, block_size: u64) -> (r: u64)
    requires
        first <= u32::MAX,
        bpg <= u32::MAX,
        (first + bgid * bpg) * block_size <= u64::MAX,
    ensures
        r == (first + bgid * bpg) * block_size,
{
    assert(bgid as u64 * bpg <= 0xffff_ffffu64 * 0xffff_ffffu64) by (nonlinear_arith)
        requires
            bgid <= 0xffff_ffffu32,
            bpg <= 0xffff_ffffu64,
    ;
    (first + bgid as u64 * bpg) * block_size
}

impl Superblock {
    /// Mutable access to the raw superblock.
    pub fn inner_mut(&mut self) -> (r: &mut ext4_sblock)
        ensures
            *r == old(self)@,
            final(self)@ == *final(r),
    {
        self.inner_mut_ref()
    }

    /// Sets the checksum (when enabled) and returns the 1024 bytes to store
    /// at byte offset 1024 of the device.
    pub fn write(&mut self) -> (r: Vec<u8>)
        ensures
            final(self)@ == spec_with_checksum(old(self)@),
            r@ == final(self)@.spec_to_bytes(),
    {
        self.update_checksum();
        self.inner().to_bytes()
    }

    /// Like `write`, and also returns the byte offsets of the superblock
    /// copies in the groups (other than 0) that hold one.
    pub fn write_with_backups(&mut self) -> (r: (Vec<u8>, Vec<u64>))
        requires
            backups_defined(old(self)@),
        ensures
            final(self)@ == spec_with_checksum(old(self)@),
            r.0@ == final(self)@.spec_to_bytes(),
            r.1@ == spec_backup_offsets(old(self)@),
    {
        let offsets = self.backup_superblock_offsets();
        let bytes = self.write();
        (bytes, offsets)
    }

    /// Byte offsets of the superblock copies in the groups other than 0
    /// that hold one, in increasing group order.
    pub fn backup_superblock_offsets(&self) -> (r: Vec<u64>)
        requires
            backups_defined(self@),
        ensures
            r@ == spec_backup_offsets(self@),
    {
        let ghost sb0 = self@;
        let block_size = self.block_size() as u64;
        let block_group_count = self.block_group_count();
        let first = self.first_data_block() as u64;
        let bpg = self.blocks_per_group() as u64;
        let mut offsets: Vec<u64> = Vec::new();
        let mut bgid: u32 = 1;
        assert(offsets@ =~= spec_backup_offsets_upto(sb0, 1));
        while bgid < block_group_count
            invariant
                1 <= bgid,
                sb0 == self@,
                block_group_count == sb0.spec_block_group_count(),
                bgid <= block_group_count || (block_group_count == 0 && bgid == 1),
                block_size == sb0.spec_block_size(),
                first == sb0.first_data_block,
                bpg == sb0.blocks_per_group,
                backups_defined(sb0),
                offsets@ == spec_backup_offsets_upto(sb0, bgid as int),
            decreases block_group_count - bgid,
        {
            let ghost prev = offsets@;
            if self.has_super_in_bg(bgid) {
                assert(spec_backup_offset(sb0, bgid) <= u64::MAX);
                let off = backup_offset(first, bgid, bpg, block_size);
                offsets.push(off);
            }
            assert(offsets@ =~= spec_backup_offsets_upto(sb0, bgid + 1));
            bgid = bgid + 1;
        }
        proof {
            if block_group_count == 0 {
                assert(spec_backup_offsets_upto(sb0, 0) =~= spec_backup_offsets_upto(sb0, 1));
            }
        }
        offsets
    }

    /// Sets the free block count, split into its two halves.
    pub fn set_free_blocks_count(&mut self, count: u64)
        ensures
            final(self)@ == (ext4_sblock {
                free_blocks_count_lo: count as u32,
                free_blocks_count_hi: (count >> 32u64) as u32,
                ..old(self)@
            }),
            final(self)@.spec_free_blocks_count() == count,
    {
        let r = self.inner_mut_ref();
        r.free_blocks_count_lo = count as u32;
        r.free_blocks_count_hi = (count >> 32u64) as u32;
        assert((count as u32) as int + ((count >> 32u64) as u32) as int * 0x1_0000_0000 == count)
            by {
            assert(((count as u32) as u64) + ((count >> 32u64) as u32) as u64 * 0x1_0000_0000u64
                == count) by (bit_vector);
        }
    }

    /// Sets the free inode count.
    pub fn set_free_inodes_count(&mut self, count: u32)
        ensures
            final(self)@ == (ext4_sblock { free_inodes_count: count, ..old(self)@ }),
    {
        let r = self.inner_mut_ref();
        r.free_inodes_count = count;
    }

    /// Adds `delta` free blocks.
    pub fn add_free_blocks(&mut self, delta: u64)
        requires
            old(self)@.spec_free_blocks_count() + delta <= u64::MAX,
        ensures
            final(self)@.spec_free_blocks_count() == old(self)@.spec_free_blocks_count() + delta,
            final(self)@ == (ext4_sblock {
                free_blocks_count_lo: final(self)@.free_blocks_count_lo,
                free_blocks_count_hi: final(self)@.free_blocks_count_hi,
                ..old(self)@
            }),
    {
        let current = self.free_blocks_count();
        self.set_free_blocks_count(current + delta);
    }

    /// Removes `delta` free blocks, stopping at zero.
    pub fn sub_free_blocks(&mut self, delta: u64)
        ensures
            final(self)@.spec_free_blocks_count() == if old(self)@.spec_free_blocks_count()
                >= delta {
                old(self)@.spec_free_blocks_count() - delta
            } else {
                0
            },
            final(self)@ == (ext4_sblock {
                free_blocks_count_lo: final(self)@.free_blocks_count_lo,
                free_blocks_count_hi: final(self)@.free_blocks_count_hi,
                ..old(self)@
            }),
    {
        let current = self.free_blocks_count();
        self.set_free_blocks_count(current.saturating_sub(delta));
    }

    /// Adds `delta` free inodes.
    pub fn add_free_inodes(&mut self, delta: u32)
        requires
            old(self)@.free_inodes_count + delta <= u32::MAX,
        ensures
            final(self)@ == (ext4_sblock {
                free_inodes_count: (old(self)@.free_inodes_count + delta) as u32,
                ..old(self)@
            }),
    {
        let current = self.free_inodes_count();
        self.set_free_inodes_count(current + delta);
    }

    /// Removes `delta` free inodes, stopping at zero.
    pub fn sub_free_inodes(&mut self, delta: u32)
        ensures
            final(self)@ == (ext4_sblock {
                free_inodes_count: if old(self)@.free_inodes_count >= delta {
                    (old(self)@.free_inodes_count - delta) as u32
                } else {
                    0
                },
                ..old(self)@
            }),
    {
        let current = self.free_inodes_count();
        self.set_free_inodes_count(current.saturating_sub(delta));
    }

    /// Counts one more mount, stopping at the largest count.
    pub fn inc_mount_count(&mut self)
        ensures
            final(self)@ == (ext4_sblock {
                mnt_count: if old(self)@.mnt_count < u16::MAX {
                    (old(self)@.mnt_count + 1) as u16
                } else {
                    u16::MAX
                },
                ..old(self)@
            }),
    {
        let r = self.inner_mut_ref();
        r.mnt_count = r.mnt_count.saturating_add(1);
    }

    /// Records a write: stores the current time stamp as the write time.
    pub fn inc_write_count(&mut self)
        ensures
            final(self)@ == (ext4_sblock { wtime: spec_current_timestamp(), ..old(self)@ }),
    {
        let t = current_timestamp();
        let r = self.inner_mut_ref();
        r.wtime = t;
    }

    /// Stores the current time stamp as the mount time.
    pub fn update_mount_time(&mut self)
        ensures
            final(self)@ == (ext4_sblock { mtime: spec_current_timestamp(), ..old(self)@ }),
    {
        let t = current_timestamp();
        let r = self.inner_mut_ref();
        r.mtime = t;
    }

    /// Stores the current time stamp as the write time.
    pub fn update_write_time(&mut self)
        ensures
            final(self)@ == (ext4_sblock { wtime: spec_current_timestamp(), ..old(self)@ }),
    {
        let t = current_timestamp();
        let r = self.inner_mut_ref();
        r.wtime = t;
    }

    /// Stores the current time stamp as the last check time.
    pub fn update_check_time(&mut self)
        ensures
            final(self)@ == (ext4_sblock { lastcheck: spec_current_timestamp(), ..old(self)@ }),
    {
        let t = current_timestamp();
        let r = self.inner_mut_ref();
        r.lastcheck = t;
    }

    /// Sets the filesystem state.
    pub fn set_state(&mut self, state: u16)
        ensures
            final(self)@ == (ext4_sblock { state: state, ..old(self)@ }),
    {
        let r = self.inner_mut_ref();
        r.state = state;
    }

    /// Marks the filesystem clean.
    pub fn mark_clean(&mut self)
        ensures
            final(self)@ == (ext4_sblock { state: EXT4_SUPER_STATE_VALID, ..old(self)@ }),
    {
        self.set_state(EXT4_SUPER_STATE_VALID);
    }

    /// Marks the filesystem as having errors.
    pub fn mark_error(&mut self)
        ensures
            final(self)@ == (ext4_sblock { state: EXT4_SUPER_STATE_ERROR, ..old(self)@ }),
    {
        self.set_state(EXT4_SUPER_STATE_ERROR);
    }

    /// Stores the computed checksum when metadata checksums are enabled.
    pub fn update_checksum(&mut self)
        ensures
            final(self)@ == spec_with_checksum(old(self)@),
    {
        let r = self.inner_mut_ref();
        super::checksum::set_checksum(r);
    }

    /// Same as `update_checksum`.
    pub fn set_checksum(&mut self)
        ensures
            final(self)@ == spec_with_checksum(old(self)@),
    {
        self.update_checksum();
    }
}


/// Freeing `delta` blocks with `add_free_blocks` and taking them again with
/// `sub_free_blocks` gives back the superblock as it was.
pub proof fn lemma_free_blocks_add_sub(a: ext4_sblock, b: ext4_sblock, c: ext4_sblock, delta: u64)
    requires
        b == (ext4_sblock { free_blocks_count_lo: b.free_blocks_count_lo, free_blocks_count_hi: b.free_blocks_count_hi, ..a }),
        b.spec_free_blocks_count() == a.spec_free_blocks_count() + delta,
        c == (ext4_sblock { free_blocks_count_lo: c.free_blocks_count_lo, free_blocks_count_hi: c.free_blocks_count_hi, ..b }),
        c.spec_free_blocks_count() == (if b.spec_free_blocks_count() >= delta {
            b.spec_free_blocks_count() - delta
        } else {
            0
        }),
    ensures
        c == a,
{
    assert(c.free_blocks_count_hi == a.free_blocks_count_hi);
    assert(c.free_blocks_count_lo == a.free_blocks_count_lo);
}

/// Freeing `delta` inodes with `add_free_inodes` and taking them again
/// with `sub_free_inodes` gives back the superblock as it was.
pub proof fn lemma_free_inodes_add_sub(a: ext4_sblock, delta: u32)
    requires
        a.free_inodes_count + delta <= u32::MAX,
    ensures
        ({
            let b = ext4_sblock { free_inodes_count: (a.free_inodes_count + delta) as u32, ..a };
            let c = ext4_sblock {
                free_inodes_count: if b.free_inodes_count >= delta { (b.free_inodes_count - delta) as u32 } else { 0 },
                ..b
            };
            c == a
        }),
{
}

} // verus!
