//! Block mapping through direct and indirect block pointers (the ext2/ext3
//! scheme used by inodes without extents).

pub mod mapper;

pub use mapper::{IndirectBlockMapper, MapStep};
