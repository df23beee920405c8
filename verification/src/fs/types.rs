//! Filesystem-level value types: inode types, configuration, statistics
//! and file attributes.

use vstd::prelude::*;
use crate::consts::{
    EXT4_INODE_MODE_BLOCKDEV, EXT4_INODE_MODE_CHARDEV, EXT4_INODE_MODE_DIRECTORY,
    EXT4_INODE_MODE_FIFO, EXT4_INODE_MODE_FILE, EXT4_INODE_MODE_SOCKET, EXT4_INODE_MODE_SOFTLINK,
    EXT4_INODE_MODE_TYPE_MASK,
};

verus! {

/// Filesystem configuration.
#[derive(Debug, Clone, Copy)]
pub struct FsConfig {
    /// Number of blocks the block cache holds.
    pub bcache_size: u32,
}

impl Default for FsConfig {
    fn default() -> (r: Self)
        ensures
            r.bcache_size == 256,
    {
        FsConfig { bcache_size: 256 }
    }
}

/// Filesystem statistics.
#[derive(Debug, Clone, Copy)]
pub struct StatFs {
    /// Total inodes.
    pub inodes_count: u32,
    /// Free inodes.
    pub free_inodes_count: u32,
    /// Total blocks.
    pub blocks_count: u64,
    /// Free blocks.
    pub free_blocks_count: u64,
    /// Block size.
    pub block_size: u32,
}

impl Default for StatFs {
    fn default() -> (r: Self)
        ensures
            r.inodes_count == 0,
            r.free_inodes_count == 0,
            r.blocks_count == 0,
            r.free_blocks_count == 0,
            r.block_size == 0,
    {
        StatFs { inodes_count: 0, free_inodes_count: 0, blocks_count: 0, free_blocks_count: 0, block_size: 0 }
    }
}

/// Type of an inode.
#[derive(Debug, Clone, Copy, PartialEq, Eq, Structural)]
pub enum InodeType {
    /// Unknown type.
    Unknown,
    /// Named pipe.
    Fifo,
    /// Character device.
    CharacterDevice,
    /// Directory.
    Directory,
    /// Block device.
    BlockDevice,
    /// Regular file.
    RegularFile,
    /// Symbolic link.
    Symlink,
    /// Socket.
    Socket,
}

impl Default for InodeType {
    fn default() -> (r: Self)
        ensures
            r == InodeType::Unknown,
    {
        InodeType::Unknown
    }
}

/// Attributes of a file.
#[derive(Debug, Clone, Copy)]
pub struct FileAttr {
    /// Device id.
    pub device: u64,
    /// Hard link count.
    pub nlink: u32,
    /// Mode.
    pub mode: u32,
    /// Inode type.
    pub node_type: InodeType,
    /// Owner user id.
    pub uid: u32,
    /// Owner group id.
    pub gid: u32,
    /// Size in bytes.
    pub size: u64,
    /// Block size.
    pub block_size: u64,
    /// Blocks used.
    pub blocks: u64,
    /// Access time.
    pub atime: u64,
    /// Modification time.
    pub mtime: u64,
    /// Change time.
    pub ctime: u64,
}

impl Default for FileAttr {
    fn default() -> (r: Self)
        ensures
            r.device == 0 && r.nlink == 0 && r.mode == 0 && r.node_type == InodeType::Unknown
                && r.uid == 0 && r.gid == 0 && r.size == 0 && r.block_size == 0 && r.blocks == 0
                && r.atime == 0 && r.mtime == 0 && r.ctime == 0,
    {
        FileAttr {
            device: 0,
            nlink: 0,
            mode: 0,
            node_type: InodeType::Unknown,
            uid: 0,
            gid: 0,
            size: 0,
            block_size: 0,
            blocks: 0,
            atime: 0,
            mtime: 0,
            ctime: 0,
        }
    }
}

/// The inode type named by the type bits of a 16-bit mode.
pub open spec fn spec_type_from_bits(type_bits: u16) -> InodeType {
    if type_bits == EXT4_INODE_MODE_FIFO {
        InodeType::Fifo
    } else if type_bits == EXT4_INODE_MODE_CHARDEV {
        InodeType::CharacterDevice
    } else if type_bits == EXT4_INODE_MODE_DIRECTORY {
        InodeType::Directory
    } else if type_bits == EXT4_INODE_MODE_BLOCKDEV {
        InodeType::BlockDevice
    } else if type_bits == EXT4_INODE_MODE_FILE {
        InodeType::RegularFile
    } else if type_bits == EXT4_INODE_MODE_SOFTLINK {
        InodeType::Symlink
    } else if type_bits == EXT4_INODE_MODE_SOCKET {
        InodeType::Socket
    } else {
        InodeType::Unknown
    }
}

/// The type bits of each inode type (0 for `Unknown`).
pub open spec fn spec_mode_bits(t: InodeType) -> u16 {
    match t {
        InodeType::Fifo => EXT4_INODE_MODE_FIFO,
        InodeType::CharacterDevice => EXT4_INODE_MODE_CHARDEV,
        InodeType::Directory => EXT4_INODE_MODE_DIRECTORY,
        InodeType::BlockDevice => EXT4_INODE_MODE_BLOCKDEV,
        InodeType::RegularFile => EXT4_INODE_MODE_FILE,
        InodeType::Symlink => EXT4_INODE_MODE_SOFTLINK,
        InodeType::Socket => EXT4_INODE_MODE_SOCKET,
        InodeType::Unknown => 0,
    }
}

/// The inode type of a directory entry type code.
pub open spec fn spec_from_de_type(de_type: u8) -> InodeType {
    if de_type == 1 {
        InodeType::RegularFile
    } else if de_type == 2 {
        InodeType::Directory
    } else if de_type == 3 {
        InodeType::CharacterDevice
    } else if de_type == 4 {
        InodeType::BlockDevice
    } else if de_type == 5 {
        InodeType::Fifo
    } else if de_type == 6 {
        InodeType::Socket
    } else if de_type == 7 {
        InodeType::Symlink
    } else {
        InodeType::Unknown
    }
}

/// The directory entry type code of an inode type.
pub open spec fn spec_to_de_type(t: InodeType) -> u8 {
    match t {
        InodeType::RegularFile => 1,
        InodeType::Directory => 2,
        InodeType::CharacterDevice => 3,
        InodeType::BlockDevice => 4,
        InodeType::Fifo => 5,
        InodeType::Socket => 6,
        InodeType::Symlink => 7,
        InodeType::Unknown => 0,
    }
}

impl InodeType {
    /// The type given by the type bits of the low 16 bits of `mode`.
    pub fn from_mode(mode: u32) -> (r: Self)
        ensures
            r == spec_type_from_bits((mode as u16) & EXT4_INODE_MODE_TYPE_MASK),
    {
        let type_bits = (mode as u16) & EXT4_INODE_MODE_TYPE_MASK;
        if type_bits == EXT4_INODE_MODE_FIFO {
            InodeType::Fifo
        } else if type_bits == EXT4_INODE_MODE_CHARDEV {
            InodeType::CharacterDevice
        } else if type_bits == EXT4_INODE_MODE_DIRECTORY {
            InodeType::Directory
        } else if type_bits == EXT4_INODE_MODE_BLOCKDEV {
            InodeType::BlockDevice
        } else if type_bits == EXT4_INODE_MODE_FILE {
            InodeType::RegularFile
        } else if type_bits == EXT4_INODE_MODE_SOFTLINK {
            InodeType::Symlink
        } else if type_bits == EXT4_INODE_MODE_SOCKET {
            InodeType::Socket
        } else {
            InodeType::Unknown
        }
    }

    /// The type bits of the mode for this type.
    pub fn to_mode_bits(self) -> (r: u16)
        ensures
            r == spec_mode_bits(self),
    {
        match self {
            InodeType::Fifo => EXT4_INODE_MODE_FIFO,
            InodeType::CharacterDevice => EXT4_INODE_MODE_CHARDEV,
            InodeType::Directory => EXT4_INODE_MODE_DIRECTORY,
            InodeType::BlockDevice => EXT4_INODE_MODE_BLOCKDEV,
            InodeType::RegularFile => EXT4_INODE_MODE_FILE,
            InodeType::Symlink => EXT4_INODE_MODE_SOFTLINK,
            InodeType::Socket => EXT4_INODE_MODE_SOCKET,
            InodeType::Unknown => 0,
        }
    }

    /// The type of a directory entry type code.
    pub fn from_de_type(de_type: u8) -> (r: Self)
        ensures
            r == spec_from_de_type(de_type),
    {
        match de_type {
            1 => InodeType::RegularFile,
            2 => InodeType::Directory,
            3 => InodeType::CharacterDevice,
            4 => InodeType::BlockDevice,
            5 => InodeType::Fifo,
            6 => InodeType::Socket,
            7 => InodeType::Symlink,
            _ => InodeType::Unknown,
        }
    }

    /// The directory entry type code of this type.
    pub fn to_de_type(self) -> (r: u8)
        ensures
            r == spec_to_de_type(self),
    {
        match self {
            InodeType::RegularFile => 1,
            InodeType::Directory => 2,
            InodeType::CharacterDevice => 3,
            InodeType::BlockDevice => 4,
            InodeType::Fifo => 5,
            InodeType::Socket => 6,
            InodeType::Symlink => 7,
            InodeType::Unknown => 0,
        }
    }

    /// Whether this is a directory.
    pub fn is_dir(self) -> (r: bool)
        ensures
            r == (self == InodeType::Directory),
    {
        self == InodeType::Directory
    }

    /// Whether this is a regular file.
    pub fn is_file(self) -> (r: bool)
        ensures
            r == (self == InodeType::RegularFile),
    {
        self == InodeType::RegularFile
    }

    /// Whether this is a symbolic link.
    pub fn is_symlink(self) -> (r: bool)
        ensures
            r == (self == InodeType::Symlink),
    {
        self == InodeType::Symlink
    }
}

/// Converting a type to its directory entry code and back gives the type.
pub proof fn lemma_de_type_roundtrip(t: InodeType)
    ensures
        spec_from_de_type(spec_to_de_type(t)) == t,
{
}

/// Converting a type to its mode bits and back gives the type.
pub proof fn lemma_mode_bits_roundtrip(t: InodeType)
    ensures
        spec_type_from_bits(spec_mode_bits(t) & EXT4_INODE_MODE_TYPE_MASK) == t,
{
    assert({
        &&& EXT4_INODE_MODE_FIFO & EXT4_INODE_MODE_TYPE_MASK == EXT4_INODE_MODE_FIFO
        &&& EXT4_INODE_MODE_CHARDEV & EXT4_INODE_MODE_TYPE_MASK == EXT4_INODE_MODE_CHARDEV
        &&& EXT4_INODE_MODE_DIRECTORY & EXT4_INODE_MODE_TYPE_MASK == EXT4_INODE_MODE_DIRECTORY
        &&& EXT4_INODE_MODE_BLOCKDEV & EXT4_INODE_MODE_TYPE_MASK == EXT4_INODE_MODE_BLOCKDEV
        &&& EXT4_INODE_MODE_FILE & EXT4_INODE_MODE_TYPE_MASK == EXT4_INODE_MODE_FILE
        &&& EXT4_INODE_MODE_SOFTLINK & EXT4_INODE_MODE_TYPE_MASK == EXT4_INODE_MODE_SOFTLINK
        &&& EXT4_INODE_MODE_SOCKET & EXT4_INODE_MODE_TYPE_MASK == EXT4_INODE_MODE_SOCKET
        &&& 0u16 & EXT4_INODE_MODE_TYPE_MASK == 0u16
    }) by (bit_vector);
}

} // verus!
