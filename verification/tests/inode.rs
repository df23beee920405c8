use lwext4_core::consts::{
    EXT4_FEATURE_RO_COMPAT_HUGE_FILE, EXT4_FEATURE_RO_COMPAT_METADATA_CSUM, EXT4_INODE_FLAG_EXTENTS,
    EXT4_INODE_FLAG_HUGE_FILE, EXT4_INODE_FLAG_IMMUTABLE, EXT4_SUPERBLOCK_MAGIC,
};
use lwext4_core::error::ErrorKind;
use lwext4_core::inode::checksum::{compute_checksum, get_checksum, set_checksum, verify_checksum};
use lwext4_core::inode::write::inode_block_bits_count;
use lwext4_core::inode::Inode;
use lwext4_core::superblock::Superblock;
use lwext4_core::types::{ext4_inode, ext4_sblock};

#[test]
fn test_checksum_without_feature() {
    let mut sb = ext4_sblock::default();
    sb.magic = EXT4_SUPERBLOCK_MAGIC.to_le();
    sb.inode_size = 128u16.to_le();
    sb.feature_ro_compat = 0u32.to_le();
    let superblock = Superblock::new(sb);
    let inode = ext4_inode::default();
    assert!(verify_checksum(&superblock, 1, &inode));
}

#[test]
fn test_checksum_with_feature() {
    let mut sb = ext4_sblock::default();
    sb.magic = EXT4_SUPERBLOCK_MAGIC.to_le();
    sb.inode_size = 256u16.to_le();
    sb.feature_ro_compat = EXT4_FEATURE_RO_COMPAT_METADATA_CSUM.to_le();
    let superblock = Superblock::new(sb);
    let mut inode = ext4_inode::default();
    let csum = compute_checksum(&superblock, 1, &inode);
    set_checksum(&superblock, &mut inode, csum);
    assert!(verify_checksum(&superblock, 1, &inode));
}

#[test]
fn test_checksum_corruption() {
    let mut sb = ext4_sblock::default();
    sb.magic = EXT4_SUPERBLOCK_MAGIC.to_le();
    sb.inode_size = 256u16.to_le();
    sb.feature_ro_compat = EXT4_FEATURE_RO_COMPAT_METADATA_CSUM.to_le();
    let superblock = Superblock::new(sb);
    let mut inode = ext4_inode::default();
    let csum = compute_checksum(&superblock, 1, &inode);
    set_checksum(&superblock, &mut inode, csum);
    assert!(verify_checksum(&superblock, 1, &inode));
    inode.size_lo = 12345u32.to_le();
    assert!(!verify_checksum(&superblock, 1, &inode));
}

#[test]
fn test_checksum_get_set() {
    let mut sb = ext4_sblock::default();
    sb.magic = EXT4_SUPERBLOCK_MAGIC.to_le();
    sb.inode_size = 256u16.to_le();
    let superblock = Superblock::new(sb);
    let mut inode = ext4_inode::default();
    set_checksum(&superblock, &mut inode, 0x12345678);
    assert_eq!(get_checksum(&superblock, &inode), 0x12345678);
}

#[test]
fn test_setter_methods() {
    let inode_inner = ext4_inode::default();
    let mut inode = Inode { inner: inode_inner, inode_num: 2 };
    inode.set_size(4096);
    assert_eq!(inode.file_size(), 4096);
    inode.set_links_count(5);
    assert_eq!(inode.links_count(), 5);
    inode.set_flags(EXT4_INODE_FLAG_EXTENTS);
    assert_eq!(inode.flags(), EXT4_INODE_FLAG_EXTENTS);
    assert!(inode.has_extents());
}

#[test]
fn test_flag_operations() {
    let mut inode = Inode { inner: ext4_inode::default(), inode_num: 2 };
    inode.set_flag(EXT4_INODE_FLAG_EXTENTS);
    assert!(inode.flags() & EXT4_INODE_FLAG_EXTENTS != 0);
    inode.set_flag(EXT4_INODE_FLAG_IMMUTABLE);
    assert!(inode.flags() & EXT4_INODE_FLAG_EXTENTS != 0);
    assert!(inode.flags() & EXT4_INODE_FLAG_IMMUTABLE != 0);
    inode.clear_flag(EXT4_INODE_FLAG_EXTENTS);
    assert!(inode.flags() & EXT4_INODE_FLAG_EXTENTS == 0);
    assert!(inode.flags() & EXT4_INODE_FLAG_IMMUTABLE != 0);
}

#[test]
fn test_block_pointers() {
    let mut inode = Inode { inner: ext4_inode::default(), inode_num: 2 };
    inode.set_direct_block(0, 100);
    inode.set_direct_block(5, 200);
    assert_eq!(inode.get_direct_block(0), Some(100));
    assert_eq!(inode.get_direct_block(5), Some(200));
    inode.set_indirect_block(0, 300);
    assert_eq!(inode.get_indirect_block(), 300);
}

#[test]
fn test_uid_gid() {
    let mut inode = Inode { inner: ext4_inode::default(), inode_num: 2 };
    inode.set_uid(0x12345678);
    inode.set_gid(0x87654321);
    assert_eq!(inode.uid(), 0x12345678);
    assert_eq!(inode.gid(), 0x87654321);
}

#[test]
fn inode_size_above_32_bits_roundtrips() {
    let mut inode = Inode::from_raw(ext4_inode::default(), 7);
    inode.set_size(0x1_2345_6789);
    assert_eq!(inode.file_size(), 0x1_2345_6789);
    assert_eq!(inode.inner().size_hi, 1);
    assert_eq!(inode.inode_num(), 7);
}

#[test]
fn inode_direct_block_out_of_range_is_ignored() {
    let mut inode = Inode::from_raw(ext4_inode::default(), 2);
    inode.set_direct_block(12, 55);
    assert_eq!(inode.get_direct_block(12), None);
    assert_eq!(inode.get_indirect_block(), 0);
    inode.set_indirect_block(7, 9);
    assert_eq!(inode.get_triple_indirect_block(), 9);
    inode.set_indirect_block(1, 8);
    assert_eq!(inode.get_double_indirect_block(), 8);
}

#[test]
fn inode_block_bits_of_common_sizes() {
    assert_eq!(inode_block_bits_count(256), 8);
    assert_eq!(inode_block_bits_count(1024), 10);
    assert_eq!(inode_block_bits_count(4096), 12);
    assert_eq!(inode_block_bits_count(0), 8);
}

#[test]
fn inode_blocks_count_encodings() {
    let mut sb = ext4_sblock::default();
    sb.log_block_size = 2;
    let plain = Superblock::new(sb);
    let mut inode = Inode::from_raw(ext4_inode::default(), 2);
    inode.set_blocks_count(&plain, 100).unwrap();
    assert_eq!(inode.blocks_count(), 100);
    let err = inode.set_blocks_count(&plain, 0x1_0000_0000).unwrap_err();
    assert_eq!(err.kind(), ErrorKind::InvalidInput);
    assert_eq!(inode.blocks_count(), 100);

    sb.feature_ro_compat = EXT4_FEATURE_RO_COMPAT_HUGE_FILE;
    let huge = Superblock::new(sb);
    inode.set_blocks_count(&huge, 0x1_0000_0000).unwrap();
    assert_eq!(inode.blocks_count(), 0x1_0000_0000);
    assert_eq!(inode.flags() & EXT4_INODE_FLAG_HUGE_FILE, 0);
    inode.set_blocks_count(&huge, 0x1_0000_0000_0000).unwrap();
    assert_ne!(inode.flags() & EXT4_INODE_FLAG_HUGE_FILE, 0);
    assert_eq!(inode.inner().blocks_count_lo, 0);
    assert_eq!(inode.inner().blocks_high, 0x2000);
}

#[test]
fn inode_update_checksum_then_verify() {
    let mut sb = ext4_sblock::default();
    sb.inode_size = 256;
    sb.feature_ro_compat = EXT4_FEATURE_RO_COMPAT_METADATA_CSUM;
    let superblock = Superblock::new(sb);
    let mut inode = Inode::from_raw(ext4_inode::default(), 12);
    inode.set_size(77);
    inode.update_checksum(&superblock);
    assert!(inode.verify_checksum(&superblock));
    assert_eq!(inode.get_checksum(&superblock), inode.compute_checksum(&superblock));
    let record = inode.write(&superblock);
    assert_eq!(record.len(), 256);
    assert!(record[160..].iter().all(|b| *b == 0));
}

#[test]
fn inode_checksum_depends_on_inode_number() {
    let mut sb = ext4_sblock::default();
    sb.inode_size = 256;
    let superblock = Superblock::new(sb);
    let inode = ext4_inode::default();
    assert_ne!(compute_checksum(&superblock, 1, &inode), compute_checksum(&superblock, 2, &inode));
}

#[test]
fn inode_small_record_keeps_low_checksum_half() {
    let mut sb = ext4_sblock::default();
    sb.inode_size = 128;
    let superblock = Superblock::new(sb);
    let mut inode = ext4_inode::default();
    set_checksum(&superblock, &mut inode, 0x12345678);
    assert_eq!(get_checksum(&superblock, &inode), 0x5678);
    assert_eq!(inode.checksum_hi, 0);
}
