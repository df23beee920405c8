//! File metadata as the filesystem API reports it.

use vstd::prelude::*;
use crate::consts::{
    EXT4_INODE_MODE_BLOCKDEV, EXT4_INODE_MODE_CHARDEV, EXT4_INODE_MODE_DIRECTORY,
    EXT4_INODE_MODE_FIFO, EXT4_INODE_MODE_FILE, EXT4_INODE_MODE_SOCKET, EXT4_INODE_MODE_SOFTLINK,
    EXT4_INODE_MODE_TYPE_MASK,
};
use crate::inode::{spec_gid, spec_uid, Inode};

verus! {

/// Type of a file.
#[derive(Debug, Clone, Copy, PartialEq, Eq, Structural)]
pub enum FileType {
    /// Regular file.
    RegularFile,
    /// Directory.
    Directory,
    /// Symbolic link.
    Symlink,
    /// Character device.
    CharDevice,
    /// Block device.
    BlockDevice,
    /// Named pipe.
    Fifo,
    /// Socket.
    Socket,
    /// Unknown type.
    Unknown,
}

/// The file type named by the type bits of a mode.
pub open spec fn spec_file_type(mode: u16) -> FileType {
    let t = mode & EXT4_INODE_MODE_TYPE_MASK;
    if t == EXT4_INODE_MODE_FILE {
        FileType::RegularFile
    } else if t == EXT4_INODE_MODE_DIRECTORY {
        FileType::Directory
    } else if t == EXT4_INODE_MODE_SOFTLINK {
        FileType::Symlink
    } else if t == EXT4_INODE_MODE_CHARDEV {
        FileType::CharDevice
    } else if t == EXT4_INODE_MODE_BLOCKDEV {
        FileType::BlockDevice
    } else if t == EXT4_INODE_MODE_FIFO {
        FileType::Fifo
    } else if t == EXT4_INODE_MODE_SOCKET {
        FileType::Socket
    } else {
        FileType::Unknown
    }
}

impl FileType {
    /// The file type of a mode.
    pub fn from_mode(mode: u16) -> (r: Self)
        ensures
            r == spec_file_type(mode),
    {
        let t = mode & EXT4_INODE_MODE_TYPE_MASK;
        if t == EXT4_INODE_MODE_FILE {
            FileType::RegularFile
        } else if t == EXT4_INODE_MODE_DIRECTORY {
            FileType::Directory
        } else if t == EXT4_INODE_MODE_SOFTLINK {
            FileType::Symlink
        } else if t == EXT4_INODE_MODE_CHARDEV {
            FileType::CharDevice
        } else if t == EXT4_INODE_MODE_BLOCKDEV {
            FileType::BlockDevice
        } else if t == EXT4_INODE_MODE_FIFO {
            FileType::Fifo
        } else if t == EXT4_INODE_MODE_SOCKET {
            FileType::Socket
        } else {
            FileType::Unknown
        }
    }

    /// Whether this is a directory.
    pub fn is_dir(&self) -> (r: bool)
        ensures
            r == (*self == FileType::Directory),
    {
        *self == FileType::Directory
    }

    /// Whether this is a regular file.
    pub fn is_file(&self) -> (r: bool)
        ensures
            r == (*self == FileType::RegularFile),
    {
        *self == FileType::RegularFile
    }

    /// Whether this is a symbolic link.
    pub fn is_symlink(&self) -> (r: bool)
        ensures
            r == (*self == FileType::Symlink),
    {
        *self == FileType::Symlink
    }
}

/// Metadata of a file.
#[derive(Debug, Clone, Copy)]
pub struct FileMetadata {
    /// File type.
    pub file_type: FileType,
    /// Size in bytes.
    pub size: u64,
    /// Inode number.
    pub inode_num: u32,
    /// Permission bits (the low 12 bits of the mode).
    pub permissions: u16,
    /// Owner user id.
    pub uid: u32,
    /// Owner group id.
    pub gid: u32,
    /// Access time.
    pub atime: i64,
    /// Modification time.
    pub mtime: i64,
    /// Change time.
    pub ctime: i64,
    /// Hard link count.
    pub links_count: u16,
    /// 512-byte sectors used.
    pub blocks_count: u64,
}

impl FileMetadata {
    /// The metadata of inode `inode_num` from its record.
    pub fn from_inode(inode: &Inode, inode_num: u32) -> (r: Self)
        ensures
            r.file_type == spec_file_type(inode.inner.mode),
            r.size == inode.inner.spec_file_size(),
            r.inode_num == inode_num,
            r.permissions == inode.inner.mode & 0o7777,
            r.uid == spec_uid(inode.inner),
            r.gid == spec_gid(inode.inner),
            r.atime == inode.inner.atime,
            r.mtime == inode.inner.mtime,
            r.ctime == inode.inner.ctime,
            r.links_count == inode.inner.links_count,
            r.blocks_count == inode.inner.spec_blocks_count(),
    {
        let mode = inode.mode();
        FileMetadata {
            file_type: FileType::from_mode(mode),
            size: inode.file_size(),
            inode_num,
            permissions: mode & 0o7777,
            uid: inode.uid(),
            gid: inode.gid(),
            atime: inode.access_time() as i64,
            mtime: inode.modification_time() as i64,
            ctime: inode.change_time() as i64,
            links_count: inode.links_count(),
            blocks_count: inode.blocks_count(),
        }
    }

    /// Whether the file is a directory.
    pub fn is_dir(&self) -> (r: bool)
        ensures
            r == (self.file_type == FileType::Directory),
    {
        self.file_type.is_dir()
    }

    /// Whether the file is a regular file.
    pub fn is_file(&self) -> (r: bool)
        ensures
            r == (self.file_type == FileType::RegularFile),
    {
        self.file_type.is_file()
    }

    /// Whether the file is a symbolic link.
    pub fn is_symlink(&self) -> (r: bool)
        ensures
            r == (self.file_type == FileType::Symlink),
    {
        self.file_type.is_symlink()
    }
}

} // verus!
