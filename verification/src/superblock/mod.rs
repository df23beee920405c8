//! The superblock: reading its fields, checking it, updating it.

pub mod checksum;
pub mod decode;
pub mod read;
pub mod write;

pub use read::Superblock;
