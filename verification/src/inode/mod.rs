//! Inodes: a raw `ext4_inode` together with its number, its field
//! accessors, its setters and its CRC32C checksum.

pub mod checksum;
pub mod write;

use vstd::prelude::*;
use crate::consts::{
    EXT4_INODE_DIRECT_BLOCKS, EXT4_INODE_DOUBLE_INDIRECT_BLOCK, EXT4_INODE_FLAG_EXTENTS,
    EXT4_INODE_INDIRECT_BLOCK, EXT4_INODE_TRIPLE_INDIRECT_BLOCK,
};
use crate::bytes::join_u16;
use crate::types::ext4_inode;

verus! {

/// An inode as read from the inode table: its raw record and its number.
#[derive(Debug, Clone, Copy)]
pub struct Inode {
    /// The raw on-disk record.
    pub inner: ext4_inode,
    /// The inode number (1-based).
    pub inode_num: u32,
}

/// The 32-bit user id from its two 16-bit halves.
pub open spec fn spec_uid(i: ext4_inode) -> int {
    i.uid as int + i.uid_high as int * 0x1_0000
}

/// The 32-bit group id from its two 16-bit halves.
pub open spec fn spec_gid(i: ext4_inode) -> int {
    i.gid as int + i.gid_high as int * 0x1_0000
}

/// Whether the extents flag is set.
pub open spec fn spec_has_extents(i: ext4_inode) -> bool {
    i.flags & EXT4_INODE_FLAG_EXTENTS != 0
}

impl Inode {
    /// Wraps a raw inode record read for inode number `inode_num`.
    pub fn from_raw(inner: ext4_inode, inode_num: u32) -> (r: Self)
        ensures
            r.inner == inner,
            r.inode_num == inode_num,
    {
        Inode { inner, inode_num }
    }

    /// The raw record.
    pub fn inner(&self) -> (r: &ext4_inode)
        ensures
            *r == self.inner,
    {
        &self.inner
    }

    /// The inode number.
    pub fn inode_num(&self) -> (r: u32)
        ensures
            r == self.inode_num,
    {
        self.inode_num
    }

    /// The mode: file type and permission bits.
    pub fn mode(&self) -> (r: u16)
        ensures
            r == self.inner.mode,
    {
        self.inner.mode
    }

    /// The 32-bit owner user id.
    pub fn uid(&self) -> (r: u32)
        ensures
            r == spec_uid(self.inner),
    {
        join_u16(self.inner.uid, self.inner.uid_high)
    }

    /// The 32-bit owner group id.
    pub fn gid(&self) -> (r: u32)
        ensures
            r == spec_gid(self.inner),
    {
        join_u16(self.inner.gid, self.inner.gid_high)
    }

    /// The file size in bytes.
    pub fn file_size(&self) -> (r: u64)
        ensures
            r == self.inner.spec_file_size(),
    {
        self.inner.file_size()
    }

    /// The hard link count.
    pub fn links_count(&self) -> (r: u16)
        ensures
            r == self.inner.links_count,
    {
        self.inner.links_count
    }

    /// The inode flags.
    pub fn flags(&self) -> (r: u32)
        ensures
            r == self.inner.flags,
    {
        self.inner.flags
    }

    /// Whether the inode maps its blocks with an extent tree.
    pub fn has_extents(&self) -> (r: bool)
        ensures
            r == spec_has_extents(self.inner),
    {
        (self.inner.flags & EXT4_INODE_FLAG_EXTENTS) != 0
    }

    /// Whether the inode is a directory.
    pub fn is_dir(&self) -> (r: bool)
        ensures
            r == (self.inner.spec_type_bits() == crate::consts::EXT4_INODE_MODE_DIRECTORY),
    {
        self.inner.is_dir()
    }

    /// Whether the inode is a regular file.
    pub fn is_file(&self) -> (r: bool)
        ensures
            r == (self.inner.spec_type_bits() == crate::consts::EXT4_INODE_MODE_FILE),
    {
        self.inner.is_file()
    }

    /// Whether the inode is a symbolic link.
    pub fn is_symlink(&self) -> (r: bool)
        ensures
            r == (self.inner.spec_type_bits() == crate::consts::EXT4_INODE_MODE_SOFTLINK),
    {
        self.inner.is_symlink()
    }

    /// The count of 512-byte sectors, from its 32-bit and 16-bit parts.
    pub fn blocks_count(&self) -> (r: u64)
        ensures
            r == self.inner.spec_blocks_count(),
    {
        self.inner.blocks_count()
    }

    /// Last access time.
    pub fn access_time(&self) -> (r: u32)
        ensures
            r == self.inner.atime,
    {
        self.inner.atime
    }

    /// Last inode change time.
    pub fn change_time(&self) -> (r: u32)
        ensures
            r == self.inner.ctime,
    {
        self.inner.ctime
    }

    /// Last modification time.
    pub fn modification_time(&self) -> (r: u32)
        ensures
            r == self.inner.mtime,
    {
        self.inner.mtime
    }

    /// Deletion time.
    pub fn deletion_time(&self) -> (r: u32)
        ensures
            r == self.inner.dtime,
    {
        self.inner.dtime
    }

    /// The generation number.
    pub fn generation(&self) -> (r: u32)
        ensures
            r == self.inner.generation,
    {
        self.inner.generation
    }

    /// Direct block pointer `index`, or `None` past the direct pointers.
    pub fn get_direct_block(&self, index: usize) -> (r: Option<u32>)
        ensures
            index < EXT4_INODE_DIRECT_BLOCKS ==> r == Some(self.inner.blocks[index as int]),
            index >= EXT4_INODE_DIRECT_BLOCKS ==> r is None,
    {
        if index < EXT4_INODE_DIRECT_BLOCKS {
            Some(self.inner.blocks[index])
        } else {
            None
        }
    }

    /// The single indirect block pointer.
    pub fn get_indirect_block(&self) -> (r: u32)
        ensures
            r == self.inner.blocks[EXT4_INODE_INDIRECT_BLOCK as int],
    {
        self.inner.blocks[EXT4_INODE_INDIRECT_BLOCK]
    }

    /// The double indirect block pointer.
    pub fn get_double_indirect_block(&self) -> (r: u32)
        ensures
            r == self.inner.blocks[EXT4_INODE_DOUBLE_INDIRECT_BLOCK as int],
    {
        self.inner.blocks[EXT4_INODE_DOUBLE_INDIRECT_BLOCK]
    }

    /// The triple indirect block pointer.
    pub fn get_triple_indirect_block(&self) -> (r: u32)
        ensures
            r == self.inner.blocks[EXT4_INODE_TRIPLE_INDIRECT_BLOCK as int],
    {
        self.inner.blocks[EXT4_INODE_TRIPLE_INDIRECT_BLOCK]
    }
}

} // verus!
