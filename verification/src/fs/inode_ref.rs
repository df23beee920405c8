//! A reference to an inode held in memory while it is read and updated:
//! its number, where its record lies, the record, and the superblock it
//! is interpreted with.

use vstd::prelude::*;
use crate::bytes::{join_u16, join_u32, join_u32_u16, split_u32, split_u64};
use crate::consts::{
    EXT4_FEATURE_INCOMPAT_64BIT, EXT4_FEATURE_RO_COMPAT_HUGE_FILE, EXT4_INODE_FLAG_EXTENTS,
    EXT4_INODE_FLAG_HUGE_FILE, EXT4_INODE_MODE_DIRECTORY, EXT4_INODE_MODE_FILE,
};
use crate::error::{Error, ErrorKind, Result};
use crate::inode::write::{inode_block_bits_count, spec_block_bits};
use crate::inode::{spec_gid, spec_uid, Inode};
use crate::superblock::Superblock;
use crate::types::{ext4_inode, ext4_sblock};

verus! {

/// An inode being worked on.
#[derive(Debug, Clone, Copy)]
pub struct InodeRef {
    /// The superblock the inode belongs to.
    pub sb: Superblock,
    /// The inode number.
    pub inode_num: u32,
    /// Block holding the inode record.
    pub inode_block_addr: u64,
    /// Offset of the record in that block.
    pub offset_in_block: usize,
    /// The record.
    pub inode: ext4_inode,
    /// Whether the record was changed.
    pub dirty: bool,
    /// Last logical to physical block mapping found.
    pub block_map_cache: Option<(u32, u64)>,
}

/// Where inode `inode_num` lies: the block of the inode table and the
/// offset in it, for an inode table starting at `table`.
pub open spec fn spec_inode_location(sb: ext4_sblock, inode_num: u32, table: u64) -> (int, int) {
    let index = (inode_num - 1) % (sb.inodes_per_group as int);
    let per_block = sb.spec_block_size() as int / (sb.spec_inode_size() as int);
    (table + index / per_block, (index % per_block) * sb.spec_inode_size())
}

/// Inputs for which the location can be computed.
pub open spec fn spec_location_ok(sb: ext4_sblock, inode_num: u32, table: u64) -> bool {
    &&& sb.inodes_per_group != 0
    &&& sb.log_block_size < 32
    &&& sb.spec_block_size() >= sb.spec_inode_size()
    &&& inode_num != 0 ==> spec_inode_location(sb, inode_num, table).0 <= u64::MAX
}

/// Where inode `inode_num` lies, given the first block of its group's
/// inode table; `InvalidInput` for inode 0.
pub fn inode_location(sb: &Superblock, inode_num: u32, inode_table_block: u64) -> (r: Result<(u64, usize)>)
    requires
        spec_location_ok(sb@, inode_num, inode_table_block),
    ensures
        inode_num == 0 ==> (r matches Err(e) && e.spec_kind() == ErrorKind::InvalidInput),
        inode_num != 0 ==> ({
            let (b, o) = spec_inode_location(sb@, inode_num, inode_table_block);
            r matches Ok((blk, off)) && blk == b && off == o
        }),
{
    if inode_num == 0 {
        return Err(Error::new(ErrorKind::InvalidInput, "Invalid inode number (0)"));
    }
    let inodes_per_group = sb.inodes_per_group();
    let index_in_group = (inode_num - 1) % inodes_per_group;
    let block_size = sb.block_size() as u64;
    let inode_size = sb.inode_size() as u64;
    let inodes_per_block = block_size / inode_size;
    assert(inodes_per_block >= 1) by (nonlinear_arith)
        requires
            inodes_per_block == block_size / inode_size,
            block_size >= inode_size,
            inode_size > 0,
    ;
    let block_index = index_in_group as u64 / inodes_per_block;
    let within = index_in_group as u64 % inodes_per_block;
    assert(within * inode_size <= block_size) by (nonlinear_arith)
        requires
            within < inodes_per_block,
            inodes_per_block == block_size / inode_size,
            inode_size > 0,
    ;
    let offset_in_block = (within * inode_size) as usize;
    Ok((inode_table_block + block_index, offset_in_block))
}

/// The 512-byte sector count as stored: the 48-bit value with the
/// huge-file feature (scaled from filesystem blocks when the inode has the
/// huge-file flag), else its low 32 bits.
pub open spec fn spec_ref_blocks_count(sb: ext4_sblock, i: ext4_inode) -> u64 {
    if sb.feature_ro_compat & EXT4_FEATURE_RO_COMPAT_HUGE_FILE != 0 {
        let cnt = i.spec_blocks_count() as u64;
        if i.flags & EXT4_INODE_FLAG_HUGE_FILE != 0 {
            cnt << ((spec_block_bits(sb.spec_block_size()) - 9) as u64)
        } else {
            cnt
        }
    } else {
        i.blocks_count_lo as u64
    }
}

/// How a sector count is stored: the value kept in the 48 bits and whether
/// the huge-file flag is set.
pub open spec fn spec_ref_blocks_encoding(sb: ext4_sblock, count: u64) -> (int, bool) {
    if count <= 0xFFFF_FFFF_FFFF {
        (count as int, false)
    } else {
        let shift = spec_block_bits(sb.spec_block_size()) - 9;
        ((count >> shift as u64) as int % 0x1_0000_0000_0000, true)
    }
}

/// The extended-attribute block address: 48 bits on 64-bit filesystems,
/// else the low 32.
pub open spec fn spec_xattr_block(sb: ext4_sblock, i: ext4_inode) -> int {
    if sb.feature_incompat & EXT4_FEATURE_INCOMPAT_64BIT != 0 {
        i.file_acl_lo as int + i.file_acl_high as int * 0x1_0000_0000
    } else {
        i.file_acl_lo as int
    }
}

impl InodeRef {
    /// The reference of inode `inode_num` with record `inode`, located from
    /// the first block of its group's inode table.
    pub fn get(sb: &Superblock, inode_num: u32, inode_table_block: u64, inode: ext4_inode) -> (r: Result<Self>)
        requires
            spec_location_ok(sb@, inode_num, inode_table_block),
        ensures
            inode_num == 0 ==> (r matches Err(e) && e.spec_kind() == ErrorKind::InvalidInput),
            inode_num != 0 ==> ({
                let (b, o) = spec_inode_location(sb@, inode_num, inode_table_block);
                r matches Ok(ir) && ir.sb@ == sb@ && ir.inode_num == inode_num && ir.inode_block_addr == b
                    && ir.offset_in_block == o && ir.inode == inode && !ir.dirty && ir.block_map_cache is None
            }),
    {
        let (inode_block_addr, offset_in_block) = match inode_location(sb, inode_num, inode_table_block) {
            Ok(loc) => loc,
            Err(e) => { return Err(e); },
        };
        Ok(InodeRef { sb: *sb, inode_num, inode_block_addr, offset_in_block, inode, dirty: false, block_map_cache: None })
    }

    /// The inode number.
    pub fn inode_num(&self) -> (r: u32)
        ensures
            r == self.inode_num,
    {
        self.inode_num
    }

    /// The inode number.
    pub fn index(&self) -> (r: u32)
        ensures
            r == self.inode_num,
    {
        self.inode_num
    }

    /// The superblock.
    pub fn superblock(&self) -> (r: &Superblock)
        ensures
            r@ == self.sb@,
    {
        &self.sb
    }

    /// The superblock.
    pub fn sb(&self) -> (r: &Superblock)
        ensures
            r@ == self.sb@,
    {
        &self.sb
    }

    /// Block holding the record.
    pub fn inode_block_addr(&self) -> (r: u64)
        ensures
            r == self.inode_block_addr,
    {
        self.inode_block_addr
    }

    /// Offset of the record in its block.
    pub fn offset_in_block(&self) -> (r: usize)
        ensures
            r == self.offset_in_block,
    {
        self.offset_in_block
    }

    /// Marks the record changed.
    pub fn mark_dirty(&mut self) -> (r: Result<()>)
        ensures
            r is Ok,
            *final(self) == (InodeRef { dirty: true, ..*old(self) }),
    {
        if !self.dirty {
            self.dirty = true;
        }
        Ok(())
    }

    /// Whether the record was changed.
    pub fn is_dirty(&self) -> (r: bool)
        ensures
            r == self.dirty,
    {
        self.dirty
    }

    /// Clears the changed mark once the record is written back.
    pub fn flush(&mut self) -> (r: Result<()>)
        ensures
            r is Ok,
            *final(self) == (InodeRef { dirty: false, ..*old(self) }),
    {
        if self.dirty {
            self.dirty = false;
        }
        Ok(())
    }

    /// The file size.
    pub fn size(&self) -> (r: Result<u64>)
        ensures
            r == Ok::<u64, Error>(self.inode.spec_file_size() as u64),
    {
        Ok(self.inode.file_size())
    }

    /// Sets the file size.
    pub fn set_size(&mut self, size: u64) -> (r: Result<()>)
        ensures
            r is Ok,
            *final(self) == (InodeRef {
                inode: ext4_inode {
                    size_lo: (size as int % 0x1_0000_0000) as u32,
                    size_hi: (size as int / 0x1_0000_0000) as u32,
                    ..old(self).inode
                },
                dirty: true,
                ..*old(self)
            }),
            final(self).inode.spec_file_size() == size,
    {
        let (lo, hi) = split_u64(size);
        self.inode.size_lo = lo;
        self.inode.size_hi = hi;
        self.dirty = true;
        Ok(())
    }

    /// The count of 512-byte sectors.
    pub fn blocks_count(&self) -> (r: Result<u64>)
        requires
            self.sb@.log_block_size < 32,
            self.sb@.feature_ro_compat & EXT4_FEATURE_RO_COMPAT_HUGE_FILE != 0 && self.inode.flags
                & EXT4_INODE_FLAG_HUGE_FILE != 0 ==> spec_block_bits(self.sb@.spec_block_size()) >= 9,
        ensures
            r == Ok::<u64, Error>(spec_ref_blocks_count(self.sb@, self.inode)),
    {
        let has_huge_file = self.sb.has_ro_compat_feature(EXT4_FEATURE_RO_COMPAT_HUGE_FILE);
        let block_size = self.sb.block_size();
        if has_huge_file {
            let cnt = join_u32_u16(self.inode.blocks_count_lo, self.inode.blocks_high);
            if self.inode.flags & EXT4_INODE_FLAG_HUGE_FILE != 0 {
                let block_bits = inode_block_bits_count(block_size);
                return Ok(cnt << ((block_bits - 9) as u64));
            }
            Ok(cnt)
        } else {
            Ok(self.inode.blocks_count_lo as u64)
        }
    }

    /// Stores a count of 512-byte sectors: in 48 bits without the huge-file
    /// flag when it fits, else in filesystem blocks with the flag set.
    #[verifier::spinoff_prover]
    #[verifier::rlimit(30)]
    pub fn set_blocks_count(&mut self, count: u64) -> (r: Result<()>)
        requires
            old(self).sb@.log_block_size < 32,
            count > 0xFFFF_FFFF_FFFF ==> spec_block_bits(old(self).sb@.spec_block_size()) >= 9,
        ensures
            r is Ok,
            ({
                let (v, huge) = spec_ref_blocks_encoding(old(self).sb@, count);
                *final(self) == (InodeRef {
                    inode: ext4_inode {
                        blocks_count_lo: (v % 0x1_0000_0000) as u32,
                        blocks_high: (v / 0x1_0000_0000) as u16,
                        flags: if huge {
                            old(self).inode.flags | EXT4_INODE_FLAG_HUGE_FILE
                        } else {
                            old(self).inode.flags & !EXT4_INODE_FLAG_HUGE_FILE
                        },
                        ..old(self).inode
                    },
                    dirty: true,
                    ..*old(self)
                })
            }),
    {
        let block_size = self.sb.block_size();
        if count <= 0xFFFF_FFFF_FFFF {
            let (lo, hi) = split_u64(count);
            let (hi_lo, _hi_hi) = split_u32(hi);
            self.inode.blocks_count_lo = lo;
            self.inode.blocks_high = hi_lo;
            self.inode.flags = self.inode.flags & !EXT4_INODE_FLAG_HUGE_FILE;
        } else {
            let block_bits = inode_block_bits_count(block_size);
            self.inode.flags = self.inode.flags | EXT4_INODE_FLAG_HUGE_FILE;
            let scaled_count = count >> ((block_bits - 9) as u64);
            let (lo, hi) = split_u64(scaled_count);
            let (hi_lo, _hi_hi) = split_u32(hi);
            self.inode.blocks_count_lo = lo;
            self.inode.blocks_high = hi_lo;
        }
        self.dirty = true;
        Ok(())
    }

    /// Adds `blocks` filesystem blocks to the sector count.
    pub fn add_blocks(&mut self, blocks: u32) -> (r: Result<()>)
        requires
            old(self).sb@.log_block_size < 32,
            spec_block_bits(old(self).sb@.spec_block_size()) >= 9,
            spec_ref_blocks_count(old(self).sb@, old(self).inode) + blocks as int * (old(self).sb@.spec_block_size() as int / 512) <= u64::MAX,
        ensures
            r is Ok,
            ({
                let n = (spec_ref_blocks_count(old(self).sb@, old(self).inode) + blocks as int * (old(self).sb@.spec_block_size() as int / 512)) as u64;
                let (v, huge) = spec_ref_blocks_encoding(old(self).sb@, n);
                *final(self) == (InodeRef {
                    inode: ext4_inode {
                        blocks_count_lo: (v % 0x1_0000_0000) as u32,
                        blocks_high: (v / 0x1_0000_0000) as u16,
                        flags: if huge {
                            old(self).inode.flags | EXT4_INODE_FLAG_HUGE_FILE
                        } else {
                            old(self).inode.flags & !EXT4_INODE_FLAG_HUGE_FILE
                        },
                        ..old(self).inode
                    },
                    dirty: true,
                    ..*old(self)
                })
            }),
    {
        let block_size = self.sb.block_size();
        let per = block_size as u64 / 512;
        assert(blocks as u64 * per <= 0xffff_ffffu64 * 0x80_0000u64) by (nonlinear_arith)
            requires
                per <= 0x80_0000u64,
        ;
        let blocks_512 = blocks as u64 * per;
        let current = match self.blocks_count() {
            Ok(c) => c,
            Err(e) => { return Err(e); },
        };
        self.set_blocks_count(current + blocks_512)
    }

    /// Removes `blocks` filesystem blocks from the sector count, stopping
    /// at zero.
    pub fn sub_blocks(&mut self, blocks: u32) -> (r: Result<()>)
        requires
            old(self).sb@.log_block_size < 32,
            spec_block_bits(old(self).sb@.spec_block_size()) >= 9,
        ensures
            r is Ok,
            ({
                let c = spec_ref_blocks_count(old(self).sb@, old(self).inode) as int;
                let d = blocks as int * (old(self).sb@.spec_block_size() as int / 512);
                let n = (if c >= d { c - d } else { 0 }) as u64;
                let (v, huge) = spec_ref_blocks_encoding(old(self).sb@, n);
                *final(self) == (InodeRef {
                    inode: ext4_inode {
                        blocks_count_lo: (v % 0x1_0000_0000) as u32,
                        blocks_high: (v / 0x1_0000_0000) as u16,
                        flags: if huge {
                            old(self).inode.flags | EXT4_INODE_FLAG_HUGE_FILE
                        } else {
                            old(self).inode.flags & !EXT4_INODE_FLAG_HUGE_FILE
                        },
                        ..old(self).inode
                    },
                    dirty: true,
                    ..*old(self)
                })
            }),
    {
        let block_size = self.sb.block_size();
        let per = block_size as u64 / 512;
        assert(blocks as u64 * per <= 0xffff_ffffu64 * 0x80_0000u64) by (nonlinear_arith)
            requires
                per <= 0x80_0000u64,
        ;
        let blocks_512 = blocks as u64 * per;
        let current = match self.blocks_count() {
            Ok(c) => c,
            Err(e) => { return Err(e); },
        };
        if current >= blocks_512 {
            self.set_blocks_count(current - blocks_512)
        } else {
            self.set_blocks_count(0)
        }
    }

    /// Sets the permission bits (the low 12 bits of `mode`), keeping the
    /// file type.
    pub fn set_mode(&mut self, mode: u16) -> (r: Result<()>)
        ensures
            r is Ok,
            *final(self) == (InodeRef {
                inode: ext4_inode { mode: (old(self).inode.mode & 0xF000) | (mode & 0x0FFF), ..old(self).inode },
                dirty: true,
                ..*old(self)
            }),
    {
        let current_mode = self.inode.mode;
        self.inode.mode = (current_mode & 0xF000) | (mode & 0x0FFF);
        self.dirty = true;
        Ok(())
    }

    /// Sets the 32-bit owner user and group ids.
    pub fn set_owner(&mut self, uid: u32, gid: u32) -> (r: Result<()>)
        ensures
            r is Ok,
            *final(self) == (InodeRef {
                inode: ext4_inode {
                    uid: (uid as int % 0x1_0000) as u16,
                    uid_high: (uid as int / 0x1_0000) as u16,
                    gid: (gid as int % 0x1_0000) as u16,
                    gid_high: (gid as int / 0x1_0000) as u16,
                    ..old(self).inode
                },
                dirty: true,
                ..*old(self)
            }),
            spec_uid(final(self).inode) == uid,
            spec_gid(final(self).inode) == gid,
    {
        let (ul, uh) = split_u32(uid);
        let (gl, gh) = split_u32(gid);
        self.inode.uid = ul;
        self.inode.uid_high = uh;
        self.inode.gid = gl;
        self.inode.gid_high = gh;
        self.dirty = true;
        Ok(())
    }

    /// Sets the access time.
    pub fn set_atime(&mut self, atime: u32) -> (r: Result<()>)
        ensures
            r is Ok,
            *final(self) == (InodeRef { inode: ext4_inode { atime, ..old(self).inode }, dirty: true, ..*old(self) }),
    {
        self.inode.atime = atime;
        self.dirty = true;
        Ok(())
    }

    /// Sets the modification time.
    pub fn set_mtime(&mut self, mtime: u32) -> (r: Result<()>)
        ensures
            r is Ok,
            *final(self) == (InodeRef { inode: ext4_inode { mtime, ..old(self).inode }, dirty: true, ..*old(self) }),
    {
        self.inode.mtime = mtime;
        self.dirty = true;
        Ok(())
    }

    /// Sets the change time.
    pub fn set_ctime(&mut self, ctime: u32) -> (r: Result<()>)
        ensures
            r is Ok,
            *final(self) == (InodeRef { inode: ext4_inode { ctime, ..old(self).inode }, dirty: true, ..*old(self) }),
    {
        self.inode.ctime = ctime;
        self.dirty = true;
        Ok(())
    }

    /// Whether the inode is a directory.
    pub fn is_dir(&self) -> (r: Result<bool>)
        ensures
            r == Ok::<bool, Error>(self.inode.spec_type_bits() == EXT4_INODE_MODE_DIRECTORY),
    {
        Ok(self.inode.is_dir())
    }

    /// Whether the inode is a regular file.
    pub fn is_file(&self) -> (r: Result<bool>)
        ensures
            r == Ok::<bool, Error>(self.inode.spec_type_bits() == EXT4_INODE_MODE_FILE),
    {
        Ok(self.inode.is_file())
    }

    /// Whether the inode maps its blocks with extents.
    pub fn has_extents(&self) -> (r: Result<bool>)
        ensures
            r == Ok::<bool, Error>(self.inode.flags & EXT4_INODE_FLAG_EXTENTS != 0),
    {
        Ok((self.inode.flags & EXT4_INODE_FLAG_EXTENTS) != 0)
    }

    /// A copy of the record.
    pub fn get_inode_copy(&self) -> (r: Result<ext4_inode>)
        ensures
            r == Ok::<ext4_inode, Error>(self.inode),
    {
        Ok(self.inode)
    }

    /// The generation number.
    pub fn generation(&self) -> (r: Result<u32>)
        ensures
            r == Ok::<u32, Error>(self.inode.generation),
    {
        Ok(self.inode.generation)
    }

    /// The inode as an `Inode` value.
    pub fn get_inode(&self) -> (r: Result<Inode>)
        ensures
            r matches Ok(i) && i.inner == self.inode && i.inode_num == self.inode_num,
    {
        Ok(Inode::from_raw(self.inode, self.inode_num))
    }

    /// The extended-attribute block address.
    pub fn get_xattr_block_addr(&self) -> (r: Result<u64>)
        ensures
            r == Ok::<u64, Error>(spec_xattr_block(self.sb@, self.inode) as u64),
    {
        let has_64bit = self.sb.has_incompat_feature(EXT4_FEATURE_INCOMPAT_64BIT);
        if has_64bit {
            Ok(join_u32_u16(self.inode.file_acl_lo, self.inode.file_acl_high))
        } else {
            Ok(self.inode.file_acl_lo as u64)
        }
    }

    /// Sets the extended-attribute block address: its low 32 bits, and bits
    /// 32 to 47 on 64-bit filesystems.
    pub fn set_xattr_block_addr(&mut self, addr: u64) -> (r: Result<()>)
        ensures
            r is Ok,
            *final(self) == (if old(self).sb@.feature_incompat & EXT4_FEATURE_INCOMPAT_64BIT != 0 {
                InodeRef {
                    inode: ext4_inode {
                        file_acl_lo: (addr as int % 0x1_0000_0000) as u32,
                        file_acl_high: ((addr as int / 0x1_0000_0000) % 0x1_0000) as u16,
                        ..old(self).inode
                    },
                    dirty: true,
                    ..*old(self)
                }
            } else {
                InodeRef {
                    inode: ext4_inode { file_acl_lo: (addr as int % 0x1_0000_0000) as u32, ..old(self).inode },
                    dirty: true,
                    ..*old(self)
                }
            }),
    {
        let has_64bit = self.sb.has_incompat_feature(EXT4_FEATURE_INCOMPAT_64BIT);
        let (lo, hi) = split_u64(addr);
        self.inode.file_acl_lo = lo;
        if has_64bit {
            let (hi_lo, _hi_hi) = split_u32(hi);
            self.inode.file_acl_high = hi_lo;
        }
        self.dirty = true;
        Ok(())
    }

    /// Number of blocks the file size spans (rounded up), truncated to 32
    /// bits.
    pub fn get_next_logical_block(&self) -> (r: Result<u32>)
        requires
            self.sb@.log_block_size < 32,
            self.sb@.spec_block_size() > 0,
            self.inode.spec_file_size() + self.sb@.spec_block_size() <= u64::MAX,
        ensures
            r == Ok::<u32, Error>(((self.inode.spec_file_size() + self.sb@.spec_block_size() - 1)
                / (self.sb@.spec_block_size() as int)) as u32),
    {
        let file_size = self.inode.file_size();
        let block_size = self.sb.block_size() as u64;
        Ok(((file_size + block_size - 1) / block_size) as u32)
    }

    /// The block group to allocate near: the group holding the inode
    /// (inodes are numbered from 1); group 0 for the unused number 0.
    pub fn get_alloc_goal(&self) -> (r: u32)
        requires
            self.sb@.inodes_per_group != 0,
        ensures
            r == (if self.inode_num == 0 { 0 } else { (self.inode_num - 1) / (self.sb@.inodes_per_group as int) }),
    {
        if self.inode_num == 0 {
            0
        } else {
            (self.inode_num - 1) / self.sb.inodes_per_group()
        }
    }
}


/// A sector count stored by `InodeRef::set_blocks_count` reads back with
/// `InodeRef::blocks_count`: exactly when it fits in 48 bits (or, without
/// the huge-file feature, in 32 bits); rounded down to whole filesystem
/// blocks when it is larger and stored in blocks.
pub proof fn lemma_blocks_count_roundtrip(sb: ext4_sblock, old_inode: ext4_inode, new_inode: ext4_inode, count: u64)
    requires
        sb.log_block_size < 32,
        count > 0xFFFF_FFFF_FFFF ==> spec_block_bits(sb.spec_block_size()) >= 9,
        ({
            let (v, huge) = spec_ref_blocks_encoding(sb, count);
            new_inode == (ext4_inode {
                blocks_count_lo: (v % 0x1_0000_0000) as u32,
                blocks_high: (v / 0x1_0000_0000) as u16,
                flags: if huge {
                    old_inode.flags | EXT4_INODE_FLAG_HUGE_FILE
                } else {
                    old_inode.flags & !EXT4_INODE_FLAG_HUGE_FILE
                },
                ..old_inode
            })
        }),
        sb.feature_ro_compat & EXT4_FEATURE_RO_COMPAT_HUGE_FILE != 0 || count <= 0xFFFF_FFFF,
        count > 0xFFFF_FFFF_FFFF ==> (count >> ((spec_block_bits(sb.spec_block_size()) - 9) as u64))
            < 0x1_0000_0000_0000,
    ensures
        spec_ref_blocks_count(sb, new_inode) == (if count <= 0xFFFF_FFFF_FFFF {
            count
        } else {
            let s = (spec_block_bits(sb.spec_block_size()) - 9) as u64;
            (count >> s) << s
        }),
{
    let f = old_inode.flags;
    let h = EXT4_INODE_FLAG_HUGE_FILE;
    assert((f & !h) & h == 0) by (bit_vector);
    assert((f | h) & h != 0) by (bit_vector)
        requires
            h == 0x0004_0000u32,
    ;
    if count > 0xFFFF_FFFF_FFFF {
        let s = (spec_block_bits(sb.spec_block_size()) - 9) as u64;
        let v = count >> s;
        assert(new_inode.spec_blocks_count() == v);
    } else {
        assert(new_inode.spec_blocks_count() == count);
    }
}

} // verus!
