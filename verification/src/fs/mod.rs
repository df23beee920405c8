//! Filesystem-level types and the in-memory state behind inode and block
//! group references.

pub mod types;
pub mod metadata;
pub mod block_group_ref;
pub mod inode_ref;
pub mod file;
pub mod filesystem;
pub mod symlink;
pub mod truncate;
pub mod inode_io;
pub mod links;
pub mod dirops;

pub use block_group_ref::BlockGroupRef;
pub use file::File;
pub use filesystem::{Ext4FileSystem, FileSystemStats};
pub use inode_ref::InodeRef;
pub use metadata::{FileMetadata, FileType};
pub use types::{FileAttr, FsConfig, InodeType, StatFs};
