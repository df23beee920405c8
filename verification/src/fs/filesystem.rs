//! The mounted filesystem: its superblock, and the statistics derived from
//! it. Device access stays with the caller, which reads the superblock to
//! mount and writes back the bytes returned on unmount.

use vstd::prelude::*;
use crate::bytes::join_u32;
use crate::error::{Error, ErrorKind, Result};
use crate::superblock::write::spec_with_checksum;
use crate::superblock::Superblock;
use crate::consts::{
    EXT4_FEATURE_RO_COMPAT_HUGE_FILE, EXT4_INODE_FLAG_HUGE_FILE, EXT4_INODE_MODE_DIRECTORY,
    EXT4_INODE_MODE_FILE, EXT4_INODE_MODE_SOFTLINK, EXT4_INODE_MODE_TYPE_MASK,
};
use crate::fs::inode_ref::{spec_ref_blocks_count, InodeRef};
use crate::fs::metadata::{FileMetadata, FileType};
use crate::inode::write::spec_block_bits;
use crate::types::ext4_sblock;

verus! {

/// Longest file name ext4 stores.
pub const EXT4_NAME_LEN: u32 = 255;

/// Usage figures of a filesystem.
#[derive(Debug, Clone, Copy)]
pub struct FileSystemStats {
    /// Block size in bytes.
    pub block_size: u32,
    /// Total blocks.
    pub blocks_total: u64,
    /// Free blocks.
    pub blocks_free: u64,
    /// Free blocks beyond the reserved ones.
    pub blocks_available: u64,
    /// Total inodes.
    pub inodes_total: u32,
    /// Free inodes.
    pub inodes_free: u32,
    /// The first 8 bytes of the UUID, little-endian.
    pub filesystem_id: u64,
    /// Longest file name.
    pub max_filename_len: u32,
}

/// A mounted filesystem.
#[derive(Debug)]
pub struct Ext4FileSystem {
    sb: Superblock,
}

/// The reserved block count from its two halves.
pub open spec fn spec_reserved_blocks(sb: ext4_sblock) -> int {
    sb.r_blocks_count_lo as int + sb.r_blocks_count_hi as int * 0x1_0000_0000
}

/// The 64-bit little-endian value of the first 8 bytes of the UUID.
pub open spec fn spec_filesystem_id(uuid: Seq<u8>) -> int {
    uuid[0] as int + uuid[1] as int * 0x100 + uuid[2] as int * 0x1_0000 + uuid[3] as int * 0x100_0000
        + uuid[4] as int * 0x1_0000_0000 + uuid[5] as int * 0x100_0000_0000 + uuid[6] as int
        * 0x1_0000_0000_0000 + uuid[7] as int * 0x100_0000_0000_0000
}

impl Ext4FileSystem {
    /// The superblock, as a specification value.
    pub closed spec fn spec_sb(&self) -> ext4_sblock {
        self.sb@
    }

    /// Mounts the filesystem whose superblock bytes were read from byte
    /// 1024 of the device; `Corrupted` when the magic number is not the
    /// ext4 one.
    pub fn mount(sb_bytes: &[u8]) -> (r: Result<Self>)
        requires
            sb_bytes@.len() >= crate::consts::EXT4_SUPERBLOCK_SIZE,
        ensures
            match r {
                Ok(fs) => fs.spec_sb().spec_to_bytes() == sb_bytes@.take(1024)
                    && fs.spec_sb().magic == crate::consts::EXT4_SUPERBLOCK_MAGIC,
                Err(e) => e.spec_kind() == ErrorKind::Corrupted && forall|x: ext4_sblock|
                    #[trigger] x.spec_to_bytes() == sb_bytes@.take(1024) ==> x.magic != crate::consts::EXT4_SUPERBLOCK_MAGIC,
            },
    {
        match Superblock::load(sb_bytes) {
            Ok(sb) => Ok(Ext4FileSystem { sb }),
            Err(e) => Err(e),
        }
    }

    /// Unmounts: the superblock's bytes, with its checksum set, to write
    /// back to the device.
    pub fn unmount(self) -> (r: Result<Vec<u8>>)
        ensures
            r matches Ok(bytes) && bytes@ == spec_with_checksum(self.spec_sb()).spec_to_bytes(),
    {
        let mut sb = self.sb;
        Ok(sb.write())
    }

    /// The superblock.
    pub fn superblock(&self) -> (r: &Superblock)
        ensures
            r@ == self.spec_sb(),
    {
        &self.sb
    }

    /// The superblock, for changing.
    pub fn superblock_mut(&mut self) -> (r: &mut Superblock)
        ensures
            r@ == old(self).spec_sb(),
            final(self).spec_sb() == final(r)@,
    {
        &mut self.sb
    }

    /// Usage figures from the superblock.
    pub fn stats(&self) -> (r: Result<FileSystemStats>)
        requires
            self.spec_sb().log_block_size < 32,
        ensures
            ({
                let sb = self.spec_sb();
                let free = sb.spec_free_blocks_count();
                let reserved = spec_reserved_blocks(sb);
                r matches Ok(s) && s.block_size == sb.spec_block_size() && s.blocks_total == sb.spec_blocks_count()
                    && s.blocks_free == free && s.blocks_available == (if free > reserved { free - reserved } else { 0 })
                    && s.inodes_total == sb.inodes_count && s.inodes_free == sb.free_inodes_count
                    && s.filesystem_id == spec_filesystem_id(sb.uuid@) && s.max_filename_len == EXT4_NAME_LEN
            }),
    {
        let sb_inner = self.sb.inner();
        let blocks_free = join_u32(sb_inner.free_blocks_count_lo, sb_inner.free_blocks_count_hi);
        let reserved = join_u32(sb_inner.r_blocks_count_lo, sb_inner.r_blocks_count_hi);
        let blocks_available = if blocks_free > reserved { blocks_free - reserved } else { 0 };
        let uuid = &sb_inner.uuid;
        let filesystem_id = (uuid[0] as u64) + (uuid[1] as u64) * 0x100 + (uuid[2] as u64) * 0x1_0000
            + (uuid[3] as u64) * 0x100_0000 + (uuid[4] as u64) * 0x1_0000_0000 + (uuid[5] as u64)
            * 0x100_0000_0000 + (uuid[6] as u64) * 0x1_0000_0000_0000 + (uuid[7] as u64)
            * 0x100_0000_0000_0000;
        Ok(FileSystemStats {
            block_size: self.sb.block_size(),
            blocks_total: join_u32(sb_inner.blocks_count_lo, sb_inner.blocks_count_hi),
            blocks_free,
            blocks_available,
            inodes_total: sb_inner.inodes_count,
            inodes_free: sb_inner.free_inodes_count,
            filesystem_id,
            max_filename_len: EXT4_NAME_LEN,
        })
    }
}


/// The file type as the attribute query reports it: regular files,
/// directories and symbolic links; everything else is `Unknown`.
pub open spec fn spec_attr_file_type(mode: u16) -> FileType {
    let t = mode & EXT4_INODE_MODE_TYPE_MASK;
    if t == EXT4_INODE_MODE_FILE {
        FileType::RegularFile
    } else if t == EXT4_INODE_MODE_DIRECTORY {
        FileType::Directory
    } else if t == EXT4_INODE_MODE_SOFTLINK {
        FileType::Symlink
    } else {
        FileType::Unknown
    }
}

impl Ext4FileSystem {
    /// The attributes of the inode held by `inode_ref`: type, size,
    /// permission bits, link count, owner, times and the block count (as
    /// huge-file aware as `InodeRef::blocks_count`).
    pub fn get_inode_attr(&self, inode_ref: &InodeRef) -> (r: Result<FileMetadata>)
        requires
            inode_ref.sb@.log_block_size < 32,
            inode_ref.sb@.feature_ro_compat & EXT4_FEATURE_RO_COMPAT_HUGE_FILE != 0 && inode_ref.inode.flags
                & EXT4_INODE_FLAG_HUGE_FILE != 0 ==> spec_block_bits(inode_ref.sb@.spec_block_size()) >= 9,
        ensures
            r matches Ok(m) && m.inode_num == inode_ref.inode_num && m.file_type == spec_attr_file_type(inode_ref.inode.mode)
                && m.size == inode_ref.inode.spec_file_size() && m.permissions == inode_ref.inode.mode & 0o7777
                && m.links_count == inode_ref.inode.links_count
                && m.uid == inode_ref.inode.uid as int + inode_ref.inode.uid_high as int * 0x1_0000
                && m.gid == inode_ref.inode.gid as int + inode_ref.inode.gid_high as int * 0x1_0000
                && m.atime == inode_ref.inode.atime && m.mtime == inode_ref.inode.mtime
                && m.ctime == inode_ref.inode.ctime
                && m.blocks_count == spec_ref_blocks_count(inode_ref.sb@, inode_ref.inode),
    {
        let inode = &inode_ref.inode;
        let mode = inode.mode;
        let size = match inode_ref.size() {
            Ok(s) => s,
            Err(e) => { return Err(e); },
        };
        let t = mode & EXT4_INODE_MODE_TYPE_MASK;
        let file_type = if t == EXT4_INODE_MODE_FILE {
            FileType::RegularFile
        } else if t == EXT4_INODE_MODE_DIRECTORY {
            FileType::Directory
        } else if t == EXT4_INODE_MODE_SOFTLINK {
            FileType::Symlink
        } else {
            FileType::Unknown
        };
        let blocks_count = match inode_ref.blocks_count() {
            Ok(b) => b,
            Err(e) => { return Err(e); },
        };
        Ok(FileMetadata {
            inode_num: inode_ref.inode_num,
            file_type,
            size,
            permissions: mode & 0o7777,
            links_count: inode.links_count,
            uid: crate::bytes::join_u16(inode.uid, inode.uid_high),
            gid: crate::bytes::join_u16(inode.gid, inode.gid_high),
            atime: inode.atime as i64,
            mtime: inode.mtime as i64,
            ctime: inode.ctime as i64,
            blocks_count,
        })
    }
}

} // verus!
