//! Verified core of an ext4 filesystem library: on-disk structures,
//! superblock and inode field logic, CRC32C checksums, the JBD2 journal
//! bookkeeping and the extended-attribute byte formats.

#![allow(non_camel_case_types)]
#![allow(unused_imports)]

pub mod consts;
pub mod error;
pub mod crc;
pub mod bytes;
pub mod types;
pub mod superblock;
pub mod inode;
pub mod ialloc;
pub mod indirect;
pub mod journal;
pub mod xattr;
pub mod fs;
pub mod transaction;
