use lwext4_core::consts::{
    EXT4_CHECKSUM_CRC32C, EXT4_FEATURE_RO_COMPAT_METADATA_CSUM, EXT4_SUPERBLOCK_MAGIC,
    EXT4_SUPER_STATE_ERROR, EXT4_SUPER_STATE_VALID,
};
use lwext4_core::superblock::checksum::{compute_checksum, set_checksum, verify_checksum};
use lwext4_core::superblock::Superblock;
use lwext4_core::types::ext4_sblock;

#[test]
fn checksum_test_checksum_without_feature() {
    let mut sb = ext4_sblock::default();
    sb.magic = EXT4_SUPERBLOCK_MAGIC.to_le();
    sb.feature_ro_compat = 0u32.to_le();
    assert!(verify_checksum(&sb));
    set_checksum(&mut sb);
    assert_eq!(sb.checksum, 0);
}

#[test]
fn checksum_test_checksum_with_feature() {
    let mut sb = ext4_sblock::default();
    sb.magic = EXT4_SUPERBLOCK_MAGIC.to_le();
    sb.feature_ro_compat = EXT4_FEATURE_RO_COMPAT_METADATA_CSUM.to_le();
    sb.checksum_type = EXT4_CHECKSUM_CRC32C;
    set_checksum(&mut sb);
    assert!(verify_checksum(&sb));
}

#[test]
fn checksum_test_checksum_corruption() {
    let mut sb = ext4_sblock::default();
    sb.magic = EXT4_SUPERBLOCK_MAGIC.to_le();
    sb.feature_ro_compat = EXT4_FEATURE_RO_COMPAT_METADATA_CSUM.to_le();
    sb.checksum_type = EXT4_CHECKSUM_CRC32C;
    set_checksum(&mut sb);
    assert!(verify_checksum(&sb));
    sb.blocks_count_lo = 12345u32.to_le();
    assert!(!verify_checksum(&sb));
}

#[test]
fn test_compute_checksum_deterministic() {
    let mut sb = ext4_sblock::default();
    sb.magic = EXT4_SUPERBLOCK_MAGIC.to_le();
    sb.blocks_count_lo = 1000u32.to_le();
    let csum1 = compute_checksum(&sb);
    let csum2 = compute_checksum(&sb);
    assert_eq!(csum1, csum2);
}

#[test]
fn test_superblock_validation() {
    let mut sb = ext4_sblock::default();
    assert!(!sb.is_valid());
    sb.magic = EXT4_SUPERBLOCK_MAGIC.to_le();
    assert!(sb.is_valid());
}

#[test]
fn test_superblock_helpers() {
    let mut sb = ext4_sblock::default();
    sb.magic = EXT4_SUPERBLOCK_MAGIC.to_le();
    sb.log_block_size = 2u32.to_le();
    sb.blocks_count_lo = 1000u32.to_le();
    sb.blocks_per_group = 100u32.to_le();
    assert_eq!(sb.block_size(), 4096);
    assert_eq!(sb.blocks_count(), 1000);
    assert_eq!(sb.block_group_count(), 10);
}

#[test]
fn test_blocks_in_group_cnt() {
    let mut sb = ext4_sblock::default();
    sb.magic = EXT4_SUPERBLOCK_MAGIC.to_le();
    sb.log_block_size = 2u32.to_le();
    sb.blocks_count_lo = 950u32.to_le();
    sb.blocks_per_group = 100u32.to_le();
    let superblock = Superblock::new(sb);
    assert_eq!(superblock.block_group_count(), 10);
    for bgid in 0..9 {
        assert_eq!(superblock.blocks_in_group_cnt(bgid), 100);
    }
    assert_eq!(superblock.blocks_in_group_cnt(9), 50);
}

#[test]
fn test_inodes_in_group_cnt() {
    let mut sb = ext4_sblock::default();
    sb.magic = EXT4_SUPERBLOCK_MAGIC.to_le();
    sb.log_block_size = 2u32.to_le();
    sb.blocks_count_lo = 1000u32.to_le();
    sb.blocks_per_group = 100u32.to_le();
    sb.inodes_count = 9050u32.to_le();
    sb.inodes_per_group = 1000u32.to_le();
    let superblock = Superblock::new(sb);
    assert_eq!(superblock.block_group_count(), 10);
    for bgid in 0..9 {
        assert_eq!(superblock.inodes_in_group_cnt(bgid), 1000);
    }
    assert_eq!(superblock.inodes_in_group_cnt(9), 50);
}

#[test]
fn test_superblock_modification() {
    let mut sb = ext4_sblock::default();
    sb.magic = EXT4_SUPERBLOCK_MAGIC;
    sb.free_blocks_count_lo = 1000;
    sb.free_blocks_count_hi = 0;
    sb.free_inodes_count = 500;
    let mut superblock = Superblock::new(sb);
    assert_eq!(superblock.free_blocks_count(), 1000);
    superblock.add_free_blocks(100);
    assert_eq!(superblock.free_blocks_count(), 1100);
    superblock.sub_free_blocks(50);
    assert_eq!(superblock.free_blocks_count(), 1050);
    assert_eq!(superblock.free_inodes_count(), 500);
    superblock.add_free_inodes(50);
    assert_eq!(superblock.free_inodes_count(), 550);
    superblock.sub_free_inodes(100);
    assert_eq!(superblock.free_inodes_count(), 450);
    let _bytes = superblock.write();
}

#[test]
fn test_superblock_state() {
    let mut superblock = Superblock::new(ext4_sblock::default());
    superblock.mark_clean();
    assert_eq!(superblock.inner().state, EXT4_SUPER_STATE_VALID);
    superblock.mark_error();
    assert_eq!(superblock.inner().state, EXT4_SUPER_STATE_ERROR);
}

#[test]
fn superblock_encoding_is_1024_bytes() {
    let sb = ext4_sblock::default();
    assert_eq!(sb.to_bytes().len(), 1024);
    assert_eq!(Superblock::new(sb).write().len(), 1024);
}

#[test]
fn superblock_write_stores_checksum_when_enabled() {
    let mut sb = ext4_sblock::default();
    sb.magic = EXT4_SUPERBLOCK_MAGIC;
    sb.feature_ro_compat = EXT4_FEATURE_RO_COMPAT_METADATA_CSUM;
    sb.checksum_type = EXT4_CHECKSUM_CRC32C;
    let mut superblock = Superblock::new(sb);
    let bytes = superblock.write();
    let stored = u32::from_le_bytes([bytes[1020], bytes[1021], bytes[1022], bytes[1023]]);
    assert_eq!(stored, superblock.compute_checksum());
    assert!(superblock.verify_checksum());
}

#[test]
fn superblock_free_counts_saturate_at_zero() {
    let mut sb = ext4_sblock::default();
    sb.free_blocks_count_lo = 10;
    sb.free_inodes_count = 3;
    let mut superblock = Superblock::new(sb);
    superblock.sub_free_blocks(100);
    assert_eq!(superblock.free_blocks_count(), 0);
    superblock.sub_free_inodes(5);
    assert_eq!(superblock.free_inodes_count(), 0);
    superblock.set_free_blocks_count(0x1_0000_0005);
    assert_eq!(superblock.free_blocks_count(), 0x1_0000_0005);
    assert_eq!(superblock.inner().free_blocks_count_hi, 1);
}

#[test]
fn superblock_sparse_groups() {
    assert!(Superblock::is_sparse_group(0));
    assert!(Superblock::is_sparse_group(1));
    assert!(Superblock::is_sparse_group(3));
    assert!(Superblock::is_sparse_group(25));
    assert!(Superblock::is_sparse_group(49));
    assert!(!Superblock::is_sparse_group(2));
    assert!(!Superblock::is_sparse_group(15));
}

#[test]
fn superblock_check_rejects_bad_magic() {
    let superblock = Superblock::new(ext4_sblock::default());
    let err = superblock.check().unwrap_err();
    assert_eq!(err.kind(), lwext4_core::error::ErrorKind::Corrupted);
}

#[test]
fn test_volume_name() {
    let mut sb = ext4_sblock::default();
    sb.volume_name[..5].copy_from_slice(b"rootf");
    assert_eq!(Superblock::new(sb).volume_name(), Some("rootf"));
    let mut full = ext4_sblock::default();
    full.volume_name = *b"0123456789abcdef";
    assert_eq!(Superblock::new(full).volume_name(), Some("0123456789abcdef"));
    let mut bad = ext4_sblock::default();
    bad.volume_name[0] = 0xff;
    assert_eq!(Superblock::new(bad).volume_name(), None);
    assert_eq!(Superblock::new(ext4_sblock::default()).volume_name(), Some(""));
}

#[test]
fn test_superblock_load_roundtrip() {
    let mut sb = ext4_sblock::default();
    sb.magic = EXT4_SUPERBLOCK_MAGIC;
    sb.inodes_count = 1234;
    sb.blocks_count_hi = 7;
    sb.uuid = [9u8; 16];
    sb.hash_seed = [1, 2, 3, 4];
    sb.reserved[97] = 0xdead_beef;
    sb.checksum = 0x1234_5678;
    let bytes = sb.to_bytes();
    assert_eq!(bytes.len(), 1024);
    let loaded = Superblock::load(&bytes).unwrap();
    assert_eq!(loaded.inner().to_bytes(), bytes);
    assert_eq!(loaded.inodes_count(), 1234);
    assert_eq!(loaded.inner().hash_seed, [1, 2, 3, 4]);
    assert_eq!(loaded.inner().reserved[97], 0xdead_beef);
    assert_eq!(loaded.inner().checksum, 0x1234_5678);
    let decoded = ext4_sblock::from_bytes(&bytes);
    assert_eq!(decoded.blocks_count_hi, 7);
}

#[test]
fn test_superblock_load_bad_magic() {
    let bytes = ext4_sblock::default().to_bytes();
    let err = lwext4_core::superblock::read::read_superblock(&bytes).unwrap_err();
    assert_eq!(err.kind(), lwext4_core::error::ErrorKind::Corrupted);
}

#[test]
fn free_counts_come_back_after_add_and_sub() {
    let mut raw = lwext4_core::types::ext4_sblock::default();
    raw.free_blocks_count_lo = 0xffff_fff0;
    raw.free_inodes_count = 7;
    let mut sb = lwext4_core::superblock::Superblock::new(raw);
    sb.add_free_blocks(0x20);
    assert_eq!(sb.free_blocks_count(), 0x1_0000_0010);
    sb.sub_free_blocks(0x20);
    assert_eq!(sb.inner().free_blocks_count_lo, 0xffff_fff0);
    assert_eq!(sb.inner().free_blocks_count_hi, 0);
    sb.add_free_inodes(5);
    sb.sub_free_inodes(5);
    assert_eq!(sb.free_inodes_count(), 7);
    sb.sub_free_inodes(100);
    assert_eq!(sb.free_inodes_count(), 0);
}

#[test]
fn superblock_check_accepts_a_normal_filesystem() {
    let mut s = ext4_sblock::default();
    s.magic = EXT4_SUPERBLOCK_MAGIC;
    s.inodes_count = 2048;
    s.blocks_count_lo = 8192;
    s.blocks_per_group = 8192;
    s.inodes_per_group = 2048;
    s.log_block_size = 2;
    s.inode_size = 256;
    s.first_ino = 11;
    s.first_data_block = 0;
    let sb = Superblock::new(s);
    assert!(sb.check().is_ok());
    let mut low = s;
    low.first_ino = 10;
    assert_eq!(Superblock::new(low).check().unwrap_err().kind(), lwext4_core::error::ErrorKind::Corrupted);
}
