//! A reference to a block group descriptor held in memory while it is read
//! and updated. Descriptors of at least 64 bytes carry the high halves of
//! their counters and block addresses; 32-byte descriptors only the low
//! halves.

use vstd::prelude::*;
use crate::bytes::{join_u16, join_u32, split_u32};
use crate::consts::EXT4_MIN_BLOCK_GROUP_DESCRIPTOR_SIZE;
use crate::error::Result;
use crate::superblock::read::spec_group_desc_size;
use crate::superblock::Superblock;
use crate::types::ext4_group_desc;

verus! {

/// A block group descriptor being worked on.
#[derive(Debug, Clone, Copy)]
pub struct BlockGroupRef {
    /// The descriptor.
    pub desc: ext4_group_desc,
    /// Whether descriptors are wider than 32 bytes (have high halves).
    pub wide: bool,
    /// The block group number.
    pub bgid: u32,
    /// Offset of the descriptor in its descriptor table block.
    pub offset_in_block: usize,
    /// Whether the descriptor was changed.
    pub dirty: bool,
}

/// A 32-bit counter from its halves; the high half counts only in wide
/// descriptors.
pub open spec fn spec_count(lo: u16, hi: u16, wide: bool) -> int {
    if wide {
        lo as int + hi as int * 0x1_0000
    } else {
        lo as int
    }
}

/// A block address from its halves; the high half counts only in wide
/// descriptors.
pub open spec fn spec_addr(lo: u32, hi: u32, wide: bool) -> int {
    if wide {
        lo as int + hi as int * 0x1_0000_0000
    } else {
        lo as int
    }
}

fn count_of(lo: u16, hi: u16, wide: bool) -> (r: u32)
    ensures
        r == spec_count(lo, hi, wide),
{
    if wide {
        join_u16(lo, hi)
    } else {
        lo as u32
    }
}

fn addr_of(lo: u32, hi: u32, wide: bool) -> (r: u64)
    ensures
        r == spec_addr(lo, hi, wide),
{
    if wide {
        join_u32(lo, hi)
    } else {
        lo as u64
    }
}

impl BlockGroupRef {
    /// The value a counter holds after storing `count`: all of it in wide
    /// descriptors, its low 16 bits otherwise.
    pub open spec fn spec_stored(&self, count: u32) -> int {
        if self.wide {
            count as int
        } else {
            count as int % 0x1_0000
        }
    }

    /// A reference to descriptor `desc` of block group `bgid`, found at
    /// `offset_in_block` in its descriptor table block.
    pub fn get(sb: &Superblock, bgid: u32, desc: ext4_group_desc, offset_in_block: usize) -> (r: Result<Self>)
        ensures
            r matches Ok(g) && g.desc == desc && g.bgid == bgid && g.offset_in_block == offset_in_block
                && g.wide == (spec_group_desc_size(sb@) > EXT4_MIN_BLOCK_GROUP_DESCRIPTOR_SIZE)
                && !g.dirty,
    {
        let wide = sb.group_desc_size() > EXT4_MIN_BLOCK_GROUP_DESCRIPTOR_SIZE;
        Ok(BlockGroupRef { desc, wide, bgid, offset_in_block, dirty: false })
    }

    /// The block group number.
    pub fn bgid(&self) -> (r: u32)
        ensures
            r == self.bgid,
    {
        self.bgid
    }

    /// Marks the descriptor changed.
    pub fn mark_dirty(&mut self) -> (r: Result<()>)
        ensures
            r is Ok,
            *final(self) == (BlockGroupRef { dirty: true, ..*old(self) }),
    {
        if !self.dirty {
            self.dirty = true;
        }
        Ok(())
    }

    /// Whether the descriptor was changed.
    pub fn is_dirty(&self) -> (r: bool)
        ensures
            r == self.dirty,
    {
        self.dirty
    }

    /// Clears the changed mark once the descriptor is written back.
    pub fn flush(&mut self) -> (r: Result<()>)
        ensures
            r is Ok,
            *final(self) == (BlockGroupRef { dirty: false, ..*old(self) }),
    {
        if self.dirty {
            self.dirty = false;
        }
        Ok(())
    }

    /// Location of the block bitmap.
    pub fn block_bitmap(&self) -> (r: Result<u64>)
        ensures
            r == Ok::<u64, crate::error::Error>(spec_addr(self.desc.block_bitmap_lo, self.desc.block_bitmap_hi, self.wide) as u64),
    {
        Ok(addr_of(self.desc.block_bitmap_lo, self.desc.block_bitmap_hi, self.wide))
    }

    /// Location of the inode bitmap.
    pub fn inode_bitmap(&self) -> (r: Result<u64>)
        ensures
            r == Ok::<u64, crate::error::Error>(spec_addr(self.desc.inode_bitmap_lo, self.desc.inode_bitmap_hi, self.wide) as u64),
    {
        Ok(addr_of(self.desc.inode_bitmap_lo, self.desc.inode_bitmap_hi, self.wide))
    }

    /// Location of the inode table.
    pub fn inode_table(&self) -> (r: Result<u64>)
        ensures
            r == Ok::<u64, crate::error::Error>(spec_addr(self.desc.inode_table_lo, self.desc.inode_table_hi, self.wide) as u64),
    {
        Ok(addr_of(self.desc.inode_table_lo, self.desc.inode_table_hi, self.wide))
    }

    /// Free blocks in the group.
    pub fn free_blocks_count(&self) -> (r: Result<u32>)
        ensures
            r == Ok::<u32, crate::error::Error>(spec_count(self.desc.free_blocks_count_lo, self.desc.free_blocks_count_hi, self.wide) as u32),
    {
        Ok(count_of(self.desc.free_blocks_count_lo, self.desc.free_blocks_count_hi, self.wide))
    }

    /// Sets the free block count.
    pub fn set_free_blocks_count(&mut self, count: u32) -> (r: Result<()>)
        ensures
            r is Ok,
            final(self).dirty,
            final(self).wide == old(self).wide,
            final(self).bgid == old(self).bgid,
            final(self).offset_in_block == old(self).offset_in_block,
            final(self).desc == (if old(self).wide {
                ext4_group_desc {
                    free_blocks_count_lo: (count as int % 0x1_0000) as u16,
                    free_blocks_count_hi: (count as int / 0x1_0000) as u16,
                    ..old(self).desc
                }
            } else {
                ext4_group_desc { free_blocks_count_lo: (count as int % 0x1_0000) as u16, ..old(self).desc }
            }),
            spec_count(final(self).desc.free_blocks_count_lo, final(self).desc.free_blocks_count_hi, final(self).wide)
                == old(self).spec_stored(count),
    {
        let (lo, hi) = split_u32(count);
        self.desc.free_blocks_count_lo = lo;
        if self.wide {
            self.desc.free_blocks_count_hi = hi;
        }
        self.dirty = true;
        Ok(())
    }

    /// Adds `delta` free blocks.
    pub fn inc_free_blocks(&mut self, delta: u32) -> (r: Result<()>)
        requires
            spec_count(old(self).desc.free_blocks_count_lo, old(self).desc.free_blocks_count_hi, old(self).wide) + delta <= u32::MAX,
        ensures
            r is Ok,
            final(self).dirty,
            final(self).wide == old(self).wide,
            final(self).bgid == old(self).bgid,
            final(self).offset_in_block == old(self).offset_in_block,
            spec_count(final(self).desc.free_blocks_count_lo, final(self).desc.free_blocks_count_hi, final(self).wide)
                == old(self).spec_stored((spec_count(old(self).desc.free_blocks_count_lo, old(self).desc.free_blocks_count_hi, old(self).wide) + delta) as u32),
            final(self).desc == (ext4_group_desc {
                free_blocks_count_lo: final(self).desc.free_blocks_count_lo,
                free_blocks_count_hi: final(self).desc.free_blocks_count_hi,
                ..old(self).desc
            }),
    {
        let current = count_of(self.desc.free_blocks_count_lo, self.desc.free_blocks_count_hi, self.wide);
        self.set_free_blocks_count(current + delta)
    }

    /// Removes `delta` free blocks, stopping at zero.
    pub fn dec_free_blocks(&mut self, delta: u32) -> (r: Result<()>)
        ensures
            r is Ok,
            final(self).dirty,
            final(self).wide == old(self).wide,
            final(self).bgid == old(self).bgid,
            final(self).offset_in_block == old(self).offset_in_block,
            ({
                let c = spec_count(old(self).desc.free_blocks_count_lo, old(self).desc.free_blocks_count_hi, old(self).wide);
                spec_count(final(self).desc.free_blocks_count_lo, final(self).desc.free_blocks_count_hi, final(self).wide)
                    == (if c >= delta { c - delta } else { 0 })
            }),
            final(self).desc == (ext4_group_desc {
                free_blocks_count_lo: final(self).desc.free_blocks_count_lo,
                free_blocks_count_hi: final(self).desc.free_blocks_count_hi,
                ..old(self).desc
            }),
    {
        let current = count_of(self.desc.free_blocks_count_lo, self.desc.free_blocks_count_hi, self.wide);
        if current >= delta {
            self.set_free_blocks_count(current - delta)
        } else {
            self.set_free_blocks_count(0)
        }
    }

    /// Free inodes in the group.
    pub fn free_inodes_count(&self) -> (r: Result<u32>)
        ensures
            r == Ok::<u32, crate::error::Error>(spec_count(self.desc.free_inodes_count_lo, self.desc.free_inodes_count_hi, self.wide) as u32),
    {
        Ok(count_of(self.desc.free_inodes_count_lo, self.desc.free_inodes_count_hi, self.wide))
    }

    /// Sets the free inode count.
    pub fn set_free_inodes_count(&mut self, count: u32) -> (r: Result<()>)
        ensures
            r is Ok,
            final(self).dirty,
            final(self).wide == old(self).wide,
            final(self).bgid == old(self).bgid,
            final(self).offset_in_block == old(self).offset_in_block,
            final(self).desc == (if old(self).wide {
                ext4_group_desc {
                    free_inodes_count_lo: (count as int % 0x1_0000) as u16,
                    free_inodes_count_hi: (count as int / 0x1_0000) as u16,
                    ..old(self).desc
                }
            } else {
                ext4_group_desc { free_inodes_count_lo: (count as int % 0x1_0000) as u16, ..old(self).desc }
            }),
            spec_count(final(self).desc.free_inodes_count_lo, final(self).desc.free_inodes_count_hi, final(self).wide)
                == old(self).spec_stored(count),
    {
        let (lo, hi) = split_u32(count);
        self.desc.free_inodes_count_lo = lo;
        if self.wide {
            self.desc.free_inodes_count_hi = hi;
        }
        self.dirty = true;
        Ok(())
    }

    /// Adds `delta` free inodes.
    pub fn inc_free_inodes(&mut self, delta: u32) -> (r: Result<()>)
        requires
            spec_count(old(self).desc.free_inodes_count_lo, old(self).desc.free_inodes_count_hi, old(self).wide) + delta <= u32::MAX,
        ensures
            r is Ok,
            final(self).dirty,
            final(self).wide == old(self).wide,
            final(self).bgid == old(self).bgid,
            final(self).offset_in_block == old(self).offset_in_block,
            spec_count(final(self).desc.free_inodes_count_lo, final(self).desc.free_inodes_count_hi, final(self).wide)
                == old(self).spec_stored((spec_count(old(self).desc.free_inodes_count_lo, old(self).desc.free_inodes_count_hi, old(self).wide) + delta) as u32),
            final(self).desc == (ext4_group_desc {
                free_inodes_count_lo: final(self).desc.free_inodes_count_lo,
                free_inodes_count_hi: final(self).desc.free_inodes_count_hi,
                ..old(self).desc
            }),
    {
        let current = count_of(self.desc.free_inodes_count_lo, self.desc.free_inodes_count_hi, self.wide);
        self.set_free_inodes_count(current + delta)
    }

    /// Removes `delta` free inodes, stopping at zero.
    pub fn dec_free_inodes(&mut self, delta: u32) -> (r: Result<()>)
        ensures
            r is Ok,
            final(self).dirty,
            final(self).wide == old(self).wide,
            final(self).bgid == old(self).bgid,
            final(self).offset_in_block == old(self).offset_in_block,
            ({
                let c = spec_count(old(self).desc.free_inodes_count_lo, old(self).desc.free_inodes_count_hi, old(self).wide);
                spec_count(final(self).desc.free_inodes_count_lo, final(self).desc.free_inodes_count_hi, final(self).wide)
                    == (if c >= delta { c - delta } else { 0 })
            }),
            final(self).desc == (ext4_group_desc {
                free_inodes_count_lo: final(self).desc.free_inodes_count_lo,
                free_inodes_count_hi: final(self).desc.free_inodes_count_hi,
                ..old(self).desc
            }),
    {
        let current = count_of(self.desc.free_inodes_count_lo, self.desc.free_inodes_count_hi, self.wide);
        if current >= delta {
            self.set_free_inodes_count(current - delta)
        } else {
            self.set_free_inodes_count(0)
        }
    }

    /// Directories in the group.
    pub fn used_dirs_count(&self) -> (r: Result<u32>)
        ensures
            r == Ok::<u32, crate::error::Error>(spec_count(self.desc.used_dirs_count_lo, self.desc.used_dirs_count_hi, self.wide) as u32),
    {
        Ok(count_of(self.desc.used_dirs_count_lo, self.desc.used_dirs_count_hi, self.wide))
    }

    /// Sets the directory count.
    pub fn set_used_dirs_count(&mut self, count: u32) -> (r: Result<()>)
        ensures
            r is Ok,
            final(self).dirty,
            final(self).wide == old(self).wide,
            final(self).bgid == old(self).bgid,
            final(self).offset_in_block == old(self).offset_in_block,
            final(self).desc == (if old(self).wide {
                ext4_group_desc {
                    used_dirs_count_lo: (count as int % 0x1_0000) as u16,
                    used_dirs_count_hi: (count as int / 0x1_0000) as u16,
                    ..old(self).desc
                }
            } else {
                ext4_group_desc { used_dirs_count_lo: (count as int % 0x1_0000) as u16, ..old(self).desc }
            }),
            spec_count(final(self).desc.used_dirs_count_lo, final(self).desc.used_dirs_count_hi, final(self).wide)
                == old(self).spec_stored(count),
    {
        let (lo, hi) = split_u32(count);
        self.desc.used_dirs_count_lo = lo;
        if self.wide {
            self.desc.used_dirs_count_hi = hi;
        }
        self.dirty = true;
        Ok(())
    }

    /// Counts one more directory.
    pub fn inc_used_dirs(&mut self) -> (r: Result<()>)
        requires
            spec_count(old(self).desc.used_dirs_count_lo, old(self).desc.used_dirs_count_hi, old(self).wide) < u32::MAX,
        ensures
            r is Ok,
            final(self).dirty,
            final(self).wide == old(self).wide,
            final(self).bgid == old(self).bgid,
            final(self).offset_in_block == old(self).offset_in_block,
            final(self).desc == (ext4_group_desc {
                used_dirs_count_lo: final(self).desc.used_dirs_count_lo,
                used_dirs_count_hi: final(self).desc.used_dirs_count_hi,
                ..old(self).desc
            }),
            spec_count(final(self).desc.used_dirs_count_lo, final(self).desc.used_dirs_count_hi, final(self).wide)
                == old(self).spec_stored((spec_count(old(self).desc.used_dirs_count_lo, old(self).desc.used_dirs_count_hi, old(self).wide) + 1) as u32),
    {
        let current = count_of(self.desc.used_dirs_count_lo, self.desc.used_dirs_count_hi, self.wide);
        self.set_used_dirs_count(current + 1)
    }

    /// Counts one directory less; nothing changes at zero.
    pub fn dec_used_dirs(&mut self) -> (r: Result<()>)
        ensures
            r is Ok,
            final(self).wide == old(self).wide,
            final(self).bgid == old(self).bgid,
            final(self).offset_in_block == old(self).offset_in_block,
            final(self).desc == (ext4_group_desc {
                used_dirs_count_lo: final(self).desc.used_dirs_count_lo,
                used_dirs_count_hi: final(self).desc.used_dirs_count_hi,
                ..old(self).desc
            }),
            ({
                let c = spec_count(old(self).desc.used_dirs_count_lo, old(self).desc.used_dirs_count_hi, old(self).wide);
                if c > 0 {
                    &&& spec_count(final(self).desc.used_dirs_count_lo, final(self).desc.used_dirs_count_hi, final(self).wide) == c - 1
                    &&& final(self).dirty
                    &&& final(self).wide == old(self).wide
                } else {
                    *final(self) == *old(self)
                }
            }),
    {
        let current = count_of(self.desc.used_dirs_count_lo, self.desc.used_dirs_count_hi, self.wide);
        if current > 0 {
            self.set_used_dirs_count(current - 1)
        } else {
            Ok(())
        }
    }

    /// Unused inode table entries.
    pub fn itable_unused(&self) -> (r: Result<u32>)
        ensures
            r == Ok::<u32, crate::error::Error>(spec_count(self.desc.itable_unused_lo, self.desc.itable_unused_hi, self.wide) as u32),
    {
        Ok(count_of(self.desc.itable_unused_lo, self.desc.itable_unused_hi, self.wide))
    }

    /// Sets the unused inode table entries.
    pub fn set_itable_unused(&mut self, count: u32) -> (r: Result<()>)
        ensures
            r is Ok,
            final(self).dirty,
            final(self).wide == old(self).wide,
            final(self).bgid == old(self).bgid,
            final(self).offset_in_block == old(self).offset_in_block,
            final(self).desc == (if old(self).wide {
                ext4_group_desc {
                    itable_unused_lo: (count as int % 0x1_0000) as u16,
                    itable_unused_hi: (count as int / 0x1_0000) as u16,
                    ..old(self).desc
                }
            } else {
                ext4_group_desc { itable_unused_lo: (count as int % 0x1_0000) as u16, ..old(self).desc }
            }),
            spec_count(final(self).desc.itable_unused_lo, final(self).desc.itable_unused_hi, final(self).wide)
                == old(self).spec_stored(count),
    {
        let (lo, hi) = split_u32(count);
        self.desc.itable_unused_lo = lo;
        if self.wide {
            self.desc.itable_unused_hi = hi;
        }
        self.dirty = true;
        Ok(())
    }

    /// A copy of the descriptor.
    pub fn get_block_group_copy(&self) -> (r: Result<ext4_group_desc>)
        ensures
            r == Ok::<ext4_group_desc, crate::error::Error>(self.desc),
    {
        Ok(self.desc)
    }
}

} // verus!
