//! Inode numbering: from inode numbers to block groups and indices and
//! back, and freeing an inode in the in-memory group metadata.

pub mod helpers;
pub mod free;

pub use free::free_inode;
pub use helpers::{bgidx_to_inode, get_bgid_of_inode, inode_to_bgidx, inodes_in_group_cnt};
