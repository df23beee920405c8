//! Constants of the ext4 and JBD2 on-disk formats.

use vstd::prelude::*;

verus! {

/// Magic number of the ext4 superblock.
pub const EXT4_SUPERBLOCK_MAGIC: u16 = 0xEF53;
/// Size of the superblock in bytes.
pub const EXT4_SUPERBLOCK_SIZE: usize = 1024;
/// Byte offset of the primary superblock on the device.
pub const EXT4_SUPERBLOCK_OFFSET: u64 = 1024;

/// Superblock state: cleanly unmounted.
pub const EXT4_SUPER_STATE_VALID: u16 = 0x0001;
/// Superblock state: errors detected.
pub const EXT4_SUPER_STATE_ERROR: u16 = 0x0002;

/// Creator OS: Linux.
pub const EXT4_SUPERBLOCK_OS_LINUX: u32 = 0;
/// Checksum type stored in the superblock for CRC32C.
pub const EXT4_CHECKSUM_CRC32C: u8 = 1;
/// Initial value of every ext4 CRC32C computation.
pub const EXT4_CRC32_INIT: u32 = 0xFFFF_FFFF;

/// Size of an inode in the first (revision 0) layout.
pub const EXT4_GOOD_OLD_INODE_SIZE: usize = 128;

/// Smallest block group descriptor size.
pub const EXT4_MIN_BLOCK_GROUP_DESCRIPTOR_SIZE: usize = 32;
/// Largest block group descriptor size.
pub const EXT4_MAX_BLOCK_GROUP_DESCRIPTOR_SIZE: usize = 64;
/// Block group descriptor size without the 64-bit feature.
pub const EXT4_GROUP_DESC_SIZE: usize = 32;
/// Default block group descriptor size with the 64-bit feature.
pub const EXT4_GROUP_DESC_SIZE_64: usize = 64;

// Compatible features.
pub const EXT4_FEATURE_COMPAT_DIR_PREALLOC: u32 = 0x0001;
pub const EXT4_FEATURE_COMPAT_IMAGIC_INODES: u32 = 0x0002;
pub const EXT4_FEATURE_COMPAT_HAS_JOURNAL: u32 = 0x0004;
pub const EXT4_FEATURE_COMPAT_EXT_ATTR: u32 = 0x0008;
pub const EXT4_FEATURE_COMPAT_RESIZE_INODE: u32 = 0x0010;
pub const EXT4_FEATURE_COMPAT_DIR_INDEX: u32 = 0x0020;

// Read-only compatible features.
pub const EXT4_FEATURE_RO_COMPAT_SPARSE_SUPER: u32 = 0x0001;
pub const EXT4_FEATURE_RO_COMPAT_LARGE_FILE: u32 = 0x0002;
pub const EXT4_FEATURE_RO_COMPAT_BTREE_DIR: u32 = 0x0004;
pub const EXT4_FEATURE_RO_COMPAT_HUGE_FILE: u32 = 0x0008;
pub const EXT4_FEATURE_RO_COMPAT_GDT_CSUM: u32 = 0x0010;
pub const EXT4_FEATURE_RO_COMPAT_DIR_NLINK: u32 = 0x0020;
pub const EXT4_FEATURE_RO_COMPAT_EXTRA_ISIZE: u32 = 0x0040;
pub const EXT4_FEATURE_RO_COMPAT_QUOTA: u32 = 0x0100;
pub const EXT4_FEATURE_RO_COMPAT_BIGALLOC: u32 = 0x0200;
pub const EXT4_FEATURE_RO_COMPAT_METADATA_CSUM: u32 = 0x0400;

// Incompatible features.
pub const EXT4_FEATURE_INCOMPAT_COMPRESSION: u32 = 0x0001;
pub const EXT4_FEATURE_INCOMPAT_FILETYPE: u32 = 0x0002;
pub const EXT4_FEATURE_INCOMPAT_RECOVER: u32 = 0x0004;
pub const EXT4_FEATURE_INCOMPAT_JOURNAL_DEV: u32 = 0x0008;
pub const EXT4_FEATURE_INCOMPAT_META_BG: u32 = 0x0010;
pub const EXT4_FEATURE_INCOMPAT_EXTENTS: u32 = 0x0040;
pub const EXT4_FEATURE_INCOMPAT_64BIT: u32 = 0x0080;
pub const EXT4_FEATURE_INCOMPAT_MMP: u32 = 0x0100;
pub const EXT4_FEATURE_INCOMPAT_FLEX_BG: u32 = 0x0200;
pub const EXT4_FEATURE_INCOMPAT_EA_INODE: u32 = 0x0400;
pub const EXT4_FEATURE_INCOMPAT_DIRDATA: u32 = 0x1000;
pub const EXT4_FEATURE_INCOMPAT_CSUM_SEED: u32 = 0x2000;
pub const EXT4_FEATURE_INCOMPAT_LARGEDIR: u32 = 0x4000;
pub const EXT4_FEATURE_INCOMPAT_INLINE_DATA: u32 = 0x8000;

// Inode mode: file type bits.
pub const EXT4_INODE_MODE_FIFO: u16 = 0x1000;
pub const EXT4_INODE_MODE_CHARDEV: u16 = 0x2000;
pub const EXT4_INODE_MODE_DIRECTORY: u16 = 0x4000;
pub const EXT4_INODE_MODE_BLOCKDEV: u16 = 0x6000;
pub const EXT4_INODE_MODE_FILE: u16 = 0x8000;
pub const EXT4_INODE_MODE_SOFTLINK: u16 = 0xA000;
pub const EXT4_INODE_MODE_SOCKET: u16 = 0xC000;
pub const EXT4_INODE_MODE_TYPE_MASK: u16 = 0xF000;

// Directory entry file type codes.
pub const EXT4_DE_UNKNOWN: u8 = 0;
pub const EXT4_DE_REG_FILE: u8 = 1;
pub const EXT4_DE_DIR: u8 = 2;
pub const EXT4_DE_CHRDEV: u8 = 3;
pub const EXT4_DE_BLKDEV: u8 = 4;
pub const EXT4_DE_FIFO: u8 = 5;
pub const EXT4_DE_SOCK: u8 = 6;
pub const EXT4_DE_SYMLINK: u8 = 7;

// Inode flags.
pub const EXT4_INODE_FLAG_SECRM: u32 = 0x0000_0001;
pub const EXT4_INODE_FLAG_UNRM: u32 = 0x0000_0002;
pub const EXT4_INODE_FLAG_COMPR: u32 = 0x0000_0004;
pub const EXT4_INODE_FLAG_SYNC: u32 = 0x0000_0008;
pub const EXT4_INODE_FLAG_IMMUTABLE: u32 = 0x0000_0010;
pub const EXT4_INODE_FLAG_APPEND: u32 = 0x0000_0020;
pub const EXT4_INODE_FLAG_NODUMP: u32 = 0x0000_0040;
pub const EXT4_INODE_FLAG_NOATIME: u32 = 0x0000_0080;
pub const EXT4_INODE_FLAG_INDEX: u32 = 0x0000_1000;
pub const EXT4_INODE_FLAG_HUGE_FILE: u32 = 0x0004_0000;
pub const EXT4_INODE_FLAG_EXTENTS: u32 = 0x0008_0000;
pub const EXT4_INODE_FLAG_EA_INODE: u32 = 0x0020_0000;
pub const EXT4_INODE_FLAG_INLINE_DATA: u32 = 0x1000_0000;

/// Number of block pointers in an inode.
pub const EXT4_INODE_BLOCKS: usize = 15;
/// Number of direct block pointers.
pub const EXT4_INODE_DIRECT_BLOCKS: usize = 12;
/// Index of the single-indirect block pointer.
pub const EXT4_INODE_INDIRECT_BLOCK: usize = 12;
/// Index of the double-indirect block pointer.
pub const EXT4_INODE_DOUBLE_INDIRECT_BLOCK: usize = 13;
/// Index of the triple-indirect block pointer.
pub const EXT4_INODE_TRIPLE_INDIRECT_BLOCK: usize = 14;

/// Inode number of the journal.
pub const EXT4_JOURNAL_INO: u32 = 8;

// Extended attributes.
pub const EXT4_XATTR_MAGIC: u32 = 0xEA02_0000;
pub const EXT4_XATTR_REFCOUNT_MAX: u32 = 1024;
pub const EXT4_XATTR_PAD_BITS: u32 = 2;
pub const EXT4_XATTR_PAD: u32 = 4;
pub const EXT4_XATTR_ROUND: u32 = 3;
pub const NAME_HASH_SHIFT: u32 = 5;
pub const VALUE_HASH_SHIFT: u32 = 16;
pub const BLOCK_HASH_SHIFT: u32 = 16;

pub const EXT4_XATTR_INDEX_USER: u8 = 1;
pub const EXT4_XATTR_INDEX_POSIX_ACL_ACCESS: u8 = 2;
pub const EXT4_XATTR_INDEX_POSIX_ACL_DEFAULT: u8 = 3;
pub const EXT4_XATTR_INDEX_TRUSTED: u8 = 4;
pub const EXT4_XATTR_INDEX_LUSTRE: u8 = 5;
pub const EXT4_XATTR_INDEX_SECURITY: u8 = 6;
pub const EXT4_XATTR_INDEX_SYSTEM: u8 = 7;
pub const EXT4_XATTR_INDEX_RICHACL: u8 = 8;

// JBD2 block types, as the journal scanner names them.
pub const JBD_BLOCKTYPE_DESCRIPTOR: u32 = 1;
pub const JBD_BLOCKTYPE_COMMIT: u32 = 2;
pub const JBD_BLOCKTYPE_SB_V1: u32 = 3;
pub const JBD_BLOCKTYPE_SB_V2: u32 = 4;
pub const JBD_BLOCKTYPE_REVOKE: u32 = 5;

} // verus!
