//! Extended attributes: namespace prefixes, the entry format shared by
//! attribute blocks and in-inode attribute areas, hashes and checksums,
//! and editing an attribute area in memory.

pub mod prefix;
pub mod search;
pub mod hash;
pub mod block;
pub mod write;
pub mod ibody;
pub mod api;
pub mod list;

pub use api::{get, remove};
pub use list::list;
pub use prefix::{extract_xattr_name, get_xattr_name_prefix};
