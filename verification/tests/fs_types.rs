use lwext4_core::consts::{
    EXT4_FEATURE_INCOMPAT_64BIT, EXT4_INODE_MODE_DIRECTORY, EXT4_INODE_MODE_FILE,
    EXT4_INODE_MODE_SOFTLINK,
};
use lwext4_core::fs::block_group_ref::BlockGroupRef;
use lwext4_core::fs::inode_ref::InodeRef;
use lwext4_core::fs::metadata::{FileMetadata, FileType};
use lwext4_core::fs::types::{FsConfig, InodeType};
use lwext4_core::inode::Inode;
use lwext4_core::superblock::Superblock;
use lwext4_core::types::{ext4_group_desc, ext4_inode, ext4_sblock};
use lwext4_core::consts::{EXT4_DE_DIR, EXT4_DE_FIFO, EXT4_DE_REG_FILE, EXT4_DE_SYMLINK, EXT4_INODE_FLAG_EXTENTS};
use lwext4_core::error::ErrorKind;
use lwext4_core::fs::inode_io::{
    copy_piece_out, fill_piece, finish_alloc_lookup, first_piece, plan_write, read_prepare, zero_piece_out,
    BlockLookup, ReadStep,
};
use lwext4_core::fs::dirops::{plan_create, plan_remove_dir, plan_rename, symlink_entry_type, CreateStep, RenamePlan};
use lwext4_core::fs::links::{
    check_not_dir, check_parent_dir, dec_links, dir_entry_type, drop_inode, inc_links, link_entry_type,
    mode_for_entry, release_link, rename_entry_type, rename_moves_parent, UnlinkOutcome,
};
use lwext4_core::fs::symlink::{init_symlink_inode, link_target_from_block, read_link_target, LinkTarget};
use lwext4_core::fs::truncate::{zero_block_tail, BlockRange, BlockTail, TruncatePlan};

#[test]
fn test_block_group_ref_api() {}

#[test]
fn test_file_api() {}

#[test]
fn test_filesystem_api() {}

#[test]
fn test_inode_ref_api() {}

#[test]
fn test_file_type_from_mode() {
    assert_eq!(FileType::from_mode(EXT4_INODE_MODE_FILE), FileType::RegularFile);
    assert_eq!(FileType::from_mode(EXT4_INODE_MODE_DIRECTORY), FileType::Directory);
    assert_eq!(FileType::from_mode(EXT4_INODE_MODE_SOFTLINK), FileType::Symlink);
}

#[test]
fn test_file_type_checks() {
    assert!(FileType::Directory.is_dir());
    assert!(!FileType::Directory.is_file());
    assert!(!FileType::Directory.is_symlink());
    assert!(!FileType::RegularFile.is_dir());
    assert!(FileType::RegularFile.is_file());
    assert!(!FileType::RegularFile.is_symlink());
    assert!(!FileType::Symlink.is_dir());
    assert!(!FileType::Symlink.is_file());
    assert!(FileType::Symlink.is_symlink());
}

#[test]
fn test_inode_type_from_mode() {
    assert_eq!(InodeType::from_mode(EXT4_INODE_MODE_FILE as u32), InodeType::RegularFile);
    assert_eq!(InodeType::from_mode(EXT4_INODE_MODE_DIRECTORY as u32), InodeType::Directory);
    assert_eq!(InodeType::from_mode(EXT4_INODE_MODE_SOFTLINK as u32), InodeType::Symlink);
}

#[test]
fn test_inode_type_to_mode_bits() {
    assert_eq!(InodeType::RegularFile.to_mode_bits(), EXT4_INODE_MODE_FILE);
    assert_eq!(InodeType::Directory.to_mode_bits(), EXT4_INODE_MODE_DIRECTORY);
    assert_eq!(InodeType::Symlink.to_mode_bits(), EXT4_INODE_MODE_SOFTLINK);
}

#[test]
fn test_inode_type_de_conversion() {
    assert_eq!(InodeType::from_de_type(1), InodeType::RegularFile);
    assert_eq!(InodeType::from_de_type(2), InodeType::Directory);
    assert_eq!(InodeType::from_de_type(7), InodeType::Symlink);
    assert_eq!(InodeType::RegularFile.to_de_type(), 1);
    assert_eq!(InodeType::Directory.to_de_type(), 2);
    assert_eq!(InodeType::Symlink.to_de_type(), 7);
}

#[test]
fn test_inode_type_checks() {
    assert!(InodeType::Directory.is_dir());
    assert!(!InodeType::RegularFile.is_dir());
    assert!(InodeType::RegularFile.is_file());
    assert!(!InodeType::Directory.is_file());
    assert!(InodeType::Symlink.is_symlink());
    assert!(!InodeType::RegularFile.is_symlink());
}

#[test]
fn test_fs_config_default() {
    let config = FsConfig::default();
    assert_eq!(config.bcache_size, 256);
}

#[test]
fn inode_type_roundtrips_through_codes() {
    let all = [
        InodeType::Unknown,
        InodeType::Fifo,
        InodeType::CharacterDevice,
        InodeType::Directory,
        InodeType::BlockDevice,
        InodeType::RegularFile,
        InodeType::Symlink,
        InodeType::Socket,
    ];
    for t in all {
        assert_eq!(InodeType::from_de_type(t.to_de_type()), t);
        assert_eq!(InodeType::from_mode(t.to_mode_bits() as u32), t);
    }
    assert_eq!(InodeType::from_mode(0x1_8000), InodeType::RegularFile);
    assert_eq!(InodeType::from_de_type(9), InodeType::Unknown);
}

#[test]
fn file_metadata_from_inode() {
    let mut raw = ext4_inode::default();
    raw.mode = EXT4_INODE_MODE_FILE | 0o644;
    raw.size_lo = 10;
    raw.uid = 1;
    raw.uid_high = 2;
    raw.links_count = 3;
    raw.mtime = 99;
    let md = FileMetadata::from_inode(&Inode::from_raw(raw, 5), 5);
    assert!(md.is_file());
    assert!(!md.is_dir());
    assert_eq!(md.permissions, 0o644);
    assert_eq!(md.uid, 0x2_0001);
    assert_eq!(md.size, 10);
    assert_eq!(md.links_count, 3);
    assert_eq!(md.mtime, 99);
    assert_eq!(md.inode_num, 5);
}

#[test]
fn block_group_ref_counters() {
    let mut sb = ext4_sblock::default();
    sb.feature_incompat = EXT4_FEATURE_INCOMPAT_64BIT;
    sb.desc_size = 64;
    let wide = Superblock::new(sb);
    let mut desc = ext4_group_desc::default();
    desc.inode_table_lo = 7;
    desc.inode_table_hi = 1;
    let mut bg = BlockGroupRef::get(&wide, 3, desc, 64).unwrap();
    assert_eq!(bg.bgid(), 3);
    assert_eq!(bg.inode_table().unwrap(), 0x1_0000_0007);
    bg.set_free_blocks_count(0x12345).unwrap();
    assert_eq!(bg.free_blocks_count().unwrap(), 0x12345);
    bg.dec_free_blocks(0x20000).unwrap();
    assert_eq!(bg.free_blocks_count().unwrap(), 0);
    bg.inc_free_inodes(5).unwrap();
    assert_eq!(bg.free_inodes_count().unwrap(), 5);
    bg.dec_used_dirs().unwrap();
    assert_eq!(bg.used_dirs_count().unwrap(), 0);
    bg.inc_used_dirs().unwrap();
    assert_eq!(bg.used_dirs_count().unwrap(), 1);
    assert!(bg.is_dirty());
    bg.flush().unwrap();
    assert!(!bg.is_dirty());

    let narrow = Superblock::new(ext4_sblock::default());
    let mut bg = BlockGroupRef::get(&narrow, 0, desc, 0).unwrap();
    assert_eq!(bg.inode_table().unwrap(), 7);
    bg.set_free_blocks_count(0x12345).unwrap();
    assert_eq!(bg.free_blocks_count().unwrap(), 0x2345);
    bg.set_itable_unused(9).unwrap();
    assert_eq!(bg.itable_unused().unwrap(), 9);
    assert_eq!(bg.get_block_group_copy().unwrap().itable_unused_lo, 9);
}

#[test]
fn inode_ref_location_and_fields() {
    let mut sb = ext4_sblock::default();
    sb.inodes_per_group = 8192;
    sb.log_block_size = 2;
    sb.inode_size = 256;
    let superblock = Superblock::new(sb);
    let mut raw = ext4_inode::default();
    raw.mode = EXT4_INODE_MODE_DIRECTORY | 0o755;
    let mut ir = InodeRef::get(&superblock, 20, 1000, raw).unwrap();
    assert_eq!(ir.inode_block_addr(), 1001);
    assert_eq!(ir.offset_in_block(), 3 * 256);
    assert!(ir.is_dir().unwrap());
    ir.set_mode(0o700).unwrap();
    assert_eq!(ir.get_inode_copy().unwrap().mode, EXT4_INODE_MODE_DIRECTORY | 0o700);
    ir.set_owner(0x10002, 3).unwrap();
    assert_eq!(ir.get_inode().unwrap().uid(), 0x10002);
    ir.set_size(5000).unwrap();
    assert_eq!(ir.size().unwrap(), 5000);
    assert_eq!(ir.get_next_logical_block().unwrap(), 2);
    ir.add_blocks(2).unwrap();
    assert_eq!(ir.blocks_count().unwrap(), 16);
    ir.sub_blocks(5).unwrap();
    assert_eq!(ir.blocks_count().unwrap(), 0);
    ir.set_xattr_block_addr(0x1_0000_0002).unwrap();
    assert_eq!(ir.get_xattr_block_addr().unwrap(), 2);
    assert!(ir.is_dirty());
    assert!(InodeRef::get(&superblock, 0, 1000, raw).is_err());
}

use lwext4_core::fs::filesystem::{Ext4FileSystem, EXT4_NAME_LEN};

fn mounted() -> Ext4FileSystem {
    let mut sb = ext4_sblock::default();
    sb.magic = lwext4_core::consts::EXT4_SUPERBLOCK_MAGIC;
    sb.log_block_size = 2;
    sb.blocks_count_lo = 1000;
    sb.blocks_count_hi = 1;
    sb.free_blocks_count_lo = 300;
    sb.r_blocks_count_lo = 100;
    sb.inodes_count = 64;
    sb.free_inodes_count = 10;
    sb.inodes_per_group = 64;
    sb.inode_size = 256;
    sb.uuid[..8].copy_from_slice(&[1, 2, 3, 4, 5, 6, 7, 8]);
    Ext4FileSystem::mount(&sb.to_bytes()).unwrap()
}

#[test]
fn test_filesystem_stats() {
    let fs = mounted();
    let st = fs.stats().unwrap();
    assert_eq!(st.block_size, 4096);
    assert_eq!(st.blocks_total, (1u64 << 32) + 1000);
    assert_eq!(st.blocks_free, 300);
    assert_eq!(st.blocks_available, 200);
    assert_eq!(st.inodes_total, 64);
    assert_eq!(st.inodes_free, 10);
    assert_eq!(st.filesystem_id, u64::from_le_bytes([1, 2, 3, 4, 5, 6, 7, 8]));
    assert_eq!(st.max_filename_len, EXT4_NAME_LEN);
}

#[test]
fn test_filesystem_reserved_beyond_free() {
    let mut fs = mounted();
    fs.superblock_mut().inner_mut().r_blocks_count_lo = 500;
    assert_eq!(fs.stats().unwrap().blocks_available, 0);
}

#[test]
fn test_filesystem_mount_rejects_bad_magic() {
    let err = Ext4FileSystem::mount(&ext4_sblock::default().to_bytes()).unwrap_err();
    assert_eq!(err.kind(), lwext4_core::error::ErrorKind::Corrupted);
}

#[test]
fn test_filesystem_unmount_bytes() {
    let fs = mounted();
    let bytes = fs.unmount().unwrap();
    assert_eq!(bytes.len(), 1024);
    assert_eq!(u16::from_le_bytes([bytes[56], bytes[57]]), lwext4_core::consts::EXT4_SUPERBLOCK_MAGIC);
    // mounting the written bytes again gives the same superblock
    let again = Ext4FileSystem::mount(&bytes).unwrap();
    assert_eq!(again.superblock().inner().to_bytes(), bytes);
    assert_eq!(again.stats().unwrap().blocks_free, 300);
}

#[test]
fn test_filesystem_inode_attr() {
    let fs = mounted();
    let mut raw = ext4_inode::default();
    raw.mode = EXT4_INODE_MODE_DIRECTORY | 0o751;
    raw.size_lo = 4096;
    raw.links_count = 2;
    raw.uid = 7;
    raw.uid_high = 1;
    raw.blocks_count_lo = 8;
    raw.mtime = 99;
    let ir = InodeRef::get(fs.superblock(), 2, 10, raw).unwrap();
    let attr = fs.get_inode_attr(&ir).unwrap();
    assert_eq!(attr.inode_num, 2);
    assert_eq!(attr.file_type, FileType::Directory);
    assert_eq!(attr.size, 4096);
    assert_eq!(attr.permissions, 0o751);
    assert_eq!(attr.links_count, 2);
    assert_eq!(attr.uid, 0x10007);
    assert_eq!(attr.mtime, 99);
    assert_eq!(attr.blocks_count, 8);
    let mut fifo = raw;
    fifo.mode = 0x1000 | 0o644;
    let ir = InodeRef::get(fs.superblock(), 3, 10, fifo).unwrap();
    assert_eq!(fs.get_inode_attr(&ir).unwrap().file_type, FileType::Unknown);
}

fn symlink_ref() -> InodeRef {
    let mut sb = ext4_sblock::default();
    sb.inodes_per_group = 8192;
    sb.log_block_size = 2;
    sb.inode_size = 256;
    let superblock = Superblock::new(sb);
    let mut raw = ext4_inode::default();
    raw.mode = EXT4_INODE_MODE_FILE | 0o644;
    raw.links_count = 3;
    raw.mtime = 77;
    raw.blocks = [0xAAAA_AAAA; 15];
    InodeRef::get(&superblock, 12, 500, raw).unwrap()
}

#[test]
fn fast_symlink_is_stored_inline_and_read_back() {
    let mut ir = symlink_ref();
    assert!(init_symlink_inode(&mut ir, b"../target/file"));
    let inode = ir.get_inode_copy().unwrap();
    assert_eq!(inode.mode, EXT4_INODE_MODE_SOFTLINK | 0o777);
    assert_eq!(inode.links_count, 1);
    assert_eq!(inode.mtime, 0);
    assert_eq!(ir.size().unwrap(), 14);
    assert_eq!(inode.blocks[0], u32::from_le_bytes(*b"../t"));
    // bytes past the target keep what the block map area held
    assert_eq!(inode.blocks[3], u32::from_le_bytes([b'l', b'e', 0xAA, 0xAA]));
    assert_eq!(inode.blocks[14], 0xAAAA_AAAA);
    assert!(ir.is_dirty());
    match read_link_target(&ir).unwrap() {
        LinkTarget::Inline(s) => assert_eq!(s, "../target/file"),
        LinkTarget::InBlock(_) => panic!("expected an inline target"),
    }
}

#[test]
fn long_symlink_needs_a_block() {
    let mut ir = symlink_ref();
    let target = vec![b'x'; 60];
    assert!(!init_symlink_inode(&mut ir, &target));
    let inode = ir.get_inode_copy().unwrap();
    assert_eq!(inode.flags & EXT4_INODE_FLAG_EXTENTS, EXT4_INODE_FLAG_EXTENTS);
    assert_eq!(inode.blocks, [0xAAAA_AAAA; 15]);
    match read_link_target(&ir).unwrap() {
        LinkTarget::InBlock(n) => assert_eq!(n, 60),
        LinkTarget::Inline(_) => panic!("expected a block target"),
    }
    let mut block = vec![0u8; 4096];
    block[..60].copy_from_slice(&target);
    assert_eq!(link_target_from_block(&block, 60).unwrap(), "x".repeat(60));
    block[3] = 0xff;
    assert_eq!(
        link_target_from_block(&block, 60).unwrap_err().kind(),
        lwext4_core::error::ErrorKind::InvalidInput
    );
}

#[test]
fn readlink_rejects_other_inodes_and_handles_empty_links() {
    let ir = symlink_ref();
    assert_eq!(read_link_target(&ir).unwrap_err().kind(), lwext4_core::error::ErrorKind::InvalidInput);
    let mut raw = ir.get_inode_copy().unwrap();
    raw.mode = EXT4_INODE_MODE_SOFTLINK | 0o777;
    raw.size_lo = 0;
    let empty = InodeRef::get(ir.superblock(), 12, 500, raw).unwrap();
    match read_link_target(&empty).unwrap() {
        LinkTarget::Inline(s) => assert!(s.is_empty()),
        LinkTarget::InBlock(_) => panic!("expected an empty target"),
    }
    raw.size_lo = 2;
    raw.blocks[0] = u32::from_le_bytes([0xc3, 0x28, 0, 0]);
    let bad = InodeRef::get(ir.superblock(), 12, 500, raw).unwrap();
    assert_eq!(read_link_target(&bad).unwrap_err().kind(), lwext4_core::error::ErrorKind::InvalidInput);
}

#[test]
fn truncate_shrink_plans_zeroing_and_freeing() {
    let mut fs = mounted();
    let mut raw = ext4_inode::default();
    raw.mode = EXT4_INODE_MODE_FILE | 0o644;
    raw.size_lo = 5 * 4096 + 10;
    let mut ir = InodeRef::get(fs.superblock(), 2, 10, raw).unwrap();
    let plan = fs.truncate_file(&mut ir, 4096 + 100).unwrap();
    assert_eq!(
        plan,
        TruncatePlan {
            zero_tail: Some(BlockTail { block: 1, offset: 100 }),
            free_range: Some(BlockRange { first: 2, last: 5 }),
        }
    );
    assert_eq!(ir.size().unwrap(), 4196);
    assert!(ir.is_dirty());
    // block-aligned: nothing to zero; to zero: everything goes
    let plan = fs.truncate_file(&mut ir, 4096).unwrap();
    assert_eq!(plan, TruncatePlan { zero_tail: None, free_range: Some(BlockRange { first: 1, last: 1 }) });
    let plan = fs.truncate_file(&mut ir, 0).unwrap();
    assert_eq!(plan, TruncatePlan { zero_tail: None, free_range: Some(BlockRange { first: 0, last: 0 }) });
}

#[test]
fn truncate_grow_or_same_size_only_moves_the_size() {
    let mut fs = mounted();
    let mut raw = ext4_inode::default();
    raw.size_lo = 10;
    let mut ir = InodeRef::get(fs.superblock(), 2, 10, raw).unwrap();
    let before = ir.get_inode_copy().unwrap();
    let plan = fs.truncate_file(&mut ir, 10).unwrap();
    assert_eq!(plan, TruncatePlan { zero_tail: None, free_range: None });
    assert!(!ir.is_dirty());
    assert_eq!(ir.get_inode_copy().unwrap().size_lo, before.size_lo);
    let plan = fs.truncate_file(&mut ir, 1 << 33).unwrap();
    assert_eq!(plan, TruncatePlan { zero_tail: None, free_range: None });
    assert_eq!(ir.size().unwrap(), 1 << 33);
    assert!(ir.is_dirty());
}

#[test]
fn zero_block_tail_clears_from_offset() {
    let mut block = vec![7u8; 16];
    zero_block_tail(&mut block, 5);
    assert_eq!(&block[..5], &[7u8; 5]);
    assert!(block[5..].iter().all(|b| *b == 0));
}

#[test]
fn inode_write_splits_at_block_boundaries() {
    let fs = mounted();
    let pieces = fs.plan_inode_write(4000, 5000);
    let got: Vec<(u32, usize, usize)> =
        pieces.iter().map(|c| (c.logical_block, c.offset_in_block, c.len)).collect();
    assert_eq!(got, vec![(0, 4000, 96), (1, 0, 4096), (2, 0, 808)]);
    assert!(!pieces[0].covers_block(4096));
    assert!(pieces[1].covers_block(4096));
    assert!(plan_write(512, 7, 0).is_empty());
    let c = first_piece(512, 1030, 10);
    assert_eq!((c.logical_block, c.offset_in_block, c.len), (2, 6, 10));
}

#[test]
fn inode_write_fills_piece_and_moves_size() {
    let fs = mounted();
    let c = first_piece(8, 13, 10);
    assert_eq!((c.logical_block, c.offset_in_block, c.len), (1, 5, 3));
    let mut block = vec![1u8; 8];
    fill_piece(&mut block, &c, b"abcdefghij", 2);
    assert_eq!(block, vec![1, 1, 1, 1, 1, b'c', b'd', b'e']);

    let mut raw = ext4_inode::default();
    raw.size_lo = 100;
    let mut ir = InodeRef::get(fs.superblock(), 2, 10, raw).unwrap();
    assert_eq!(fs.finish_inode_write(&mut ir, 50, 20).unwrap(), 20);
    assert_eq!(ir.size().unwrap(), 100);
    assert!(!ir.is_dirty());
    assert_eq!(fs.finish_inode_write(&mut ir, 90, 20).unwrap(), 20);
    assert_eq!(ir.size().unwrap(), 110);
    assert!(ir.is_dirty());
}

#[test]
fn read_prepare_clamps_and_reads_fast_links() {
    let mut link = symlink_ref();
    init_symlink_inode(&mut link, b"/usr/bin/env");
    let mut buf = [0u8; 5];
    assert_eq!(read_prepare(&link, 4, &mut buf), ReadStep::Done(5));
    assert_eq!(&buf, b"/bin/");
    let mut buf = [9u8; 8];
    assert_eq!(read_prepare(&link, 10, &mut buf), ReadStep::Done(2));
    assert_eq!(&buf, &[b'n', b'v', 9, 9, 9, 9, 9, 9]);
    assert_eq!(read_prepare(&link, 12, &mut buf), ReadStep::Done(0));

    let fs = mounted();
    let mut raw = ext4_inode::default();
    raw.mode = EXT4_INODE_MODE_FILE | 0o644;
    raw.size_lo = 1000;
    raw.flags = EXT4_INODE_FLAG_EXTENTS;
    let file = InodeRef::get(fs.superblock(), 2, 10, raw).unwrap();
    let mut big = vec![3u8; 4096];
    assert_eq!(read_prepare(&file, 100, &mut big), ReadStep::Blocks { len: 900, extents: true });
    assert!(big.iter().all(|b| *b == 3));
    assert_eq!(read_prepare(&file, 1000, &mut big), ReadStep::Done(0));
    let mut empty: [u8; 0] = [];
    assert_eq!(read_prepare(&file, 0, &mut empty), ReadStep::Done(0));
}

#[test]
fn read_pieces_copy_data_or_zeros() {
    let c = first_piece(8, 10, 4);
    let block = [10u8, 11, 12, 13, 14, 15, 16, 17];
    let mut buf = [1u8; 6];
    copy_piece_out(&mut buf, 1, &block, &c);
    assert_eq!(buf, [1, 12, 13, 14, 15, 1]);
    zero_piece_out(&mut buf, 2, &c);
    assert_eq!(buf, [1, 12, 0, 0, 0, 0]);
}

fn inode_with(mode: u16, links: u16, size: u32) -> InodeRef {
    let fs = mounted();
    let mut raw = ext4_inode::default();
    raw.mode = mode;
    raw.links_count = links;
    raw.size_lo = size;
    InodeRef::get(fs.superblock(), 5, 10, raw).unwrap()
}

#[test]
fn entry_types_follow_inode_modes() {
    assert_eq!(dir_entry_type(EXT4_INODE_MODE_FILE | 0o644), EXT4_DE_REG_FILE);
    assert_eq!(dir_entry_type(EXT4_INODE_MODE_SOFTLINK | 0o777), EXT4_DE_SYMLINK);
    assert_eq!(dir_entry_type(0x1000), EXT4_DE_FIFO);
    assert_eq!(dir_entry_type(0), EXT4_DE_REG_FILE);
    assert_eq!(mode_for_entry(EXT4_DE_DIR), EXT4_INODE_MODE_DIRECTORY);
    assert_eq!(mode_for_entry(EXT4_DE_SYMLINK), EXT4_INODE_MODE_SOFTLINK);
    assert_eq!(mode_for_entry(EXT4_DE_FIFO), EXT4_INODE_MODE_FILE);
}

#[test]
fn hard_links_need_a_directory_and_a_non_directory() {
    let dir = inode_with(EXT4_INODE_MODE_DIRECTORY | 0o755, 2, 4096);
    let file = inode_with(EXT4_INODE_MODE_SOFTLINK | 0o777, 1, 5);
    assert_eq!(link_entry_type(&dir, &file).unwrap(), EXT4_DE_SYMLINK);
    assert_eq!(link_entry_type(&file, &file).unwrap_err().kind(), ErrorKind::InvalidInput);
    assert_eq!(link_entry_type(&dir, &dir).unwrap_err().kind(), ErrorKind::InvalidInput);
    assert!(check_parent_dir(&dir).is_ok());
    assert!(check_not_dir(&file).is_ok());
    assert!(check_not_dir(&dir).is_err());
}

#[test]
fn link_counts_go_up_and_down() {
    let mut ir = inode_with(EXT4_INODE_MODE_FILE | 0o644, 1, 10);
    inc_links(&mut ir);
    assert_eq!(ir.get_inode_copy().unwrap().links_count, 2);
    assert!(ir.is_dirty());
    assert_eq!(dec_links(&mut ir), 1);
    assert_eq!(dec_links(&mut ir), 0);
    assert_eq!(dec_links(&mut ir), 0);
}

#[test]
fn unlinking_the_last_link_frees_the_inode() {
    let mut file = inode_with(EXT4_INODE_MODE_FILE | 0o644, 2, 10);
    assert_eq!(release_link(&mut file), UnlinkOutcome { free: false, truncate: false });
    assert_eq!(release_link(&mut file), UnlinkOutcome { free: true, truncate: true });
    let mut fast = inode_with(EXT4_INODE_MODE_SOFTLINK | 0o777, 1, 10);
    assert_eq!(release_link(&mut fast), UnlinkOutcome { free: true, truncate: false });
    let mut slow = inode_with(EXT4_INODE_MODE_SOFTLINK | 0o777, 1, 100);
    assert_eq!(release_link(&mut slow), UnlinkOutcome { free: true, truncate: true });
}

#[test]
fn drop_inode_frees_only_unlinked_inodes() {
    let mut linked = inode_with(EXT4_INODE_MODE_FILE | 0o644, 1, 10);
    assert_eq!(drop_inode(&mut linked), None);
    assert_eq!(linked.size().unwrap(), 10);
    assert!(!linked.is_dirty());
    let mut gone = inode_with(EXT4_INODE_MODE_DIRECTORY | 0o755, 0, 4096);
    assert_eq!(drop_inode(&mut gone), Some(true));
    assert_eq!(gone.size().unwrap(), 0);
    assert!(gone.is_dirty());
}

#[test]
fn created_inodes_are_initialised() {
    let fs = mounted();
    let mut raw = ext4_inode::default();
    raw.links_count = 9;
    raw.mtime = 5;
    raw.size_lo = 77;
    let mut ir = InodeRef::get(fs.superblock(), 5, 10, raw).unwrap();
    assert_eq!(fs.new_inode_extra_isize(), 32);
    fs.init_created_inode(&mut ir, EXT4_DE_DIR, 0o750);
    let inode = ir.get_inode_copy().unwrap();
    assert_eq!(inode.mode, EXT4_INODE_MODE_DIRECTORY | 0o750);
    assert_eq!(inode.links_count, 1);
    assert_eq!(inode.mtime, 0);
    assert_eq!(inode.extra_isize, 32);
    assert_eq!(inode.flags & EXT4_INODE_FLAG_EXTENTS, EXT4_INODE_FLAG_EXTENTS);
    assert_eq!(ir.size().unwrap(), 0);
    assert!(ir.is_dirty());
}

#[test]
fn renames_keep_directories_and_move_parent_links() {
    let dir = inode_with(EXT4_INODE_MODE_DIRECTORY | 0o755, 2, 4096);
    let link = inode_with(EXT4_INODE_MODE_SOFTLINK | 0o777, 1, 3);
    assert_eq!(rename_entry_type(&dir), (true, EXT4_DE_DIR));
    assert_eq!(rename_entry_type(&link), (false, EXT4_DE_REG_FILE));
    assert!(rename_moves_parent(true, 2, 3));
    assert!(!rename_moves_parent(true, 2, 2));
    assert!(!rename_moves_parent(false, 2, 3));
}

#[test]
fn block_lookup_picks_the_mapping_path() {
    let fs = mounted();
    let mut raw = ext4_inode::default();
    raw.mode = EXT4_INODE_MODE_FILE | 0o644;
    let mut mapped = InodeRef::get(fs.superblock(), 2, 10, raw).unwrap();
    assert_eq!(mapped.lookup_start(3, false).unwrap(), BlockLookup::Indirect);
    assert_eq!(mapped.lookup_start(3, true).unwrap_err().kind(), ErrorKind::Unsupported);
    assert_eq!(mapped.finish_lookup(3, false, None).unwrap_err().kind(), ErrorKind::NotFound);
    assert_eq!(mapped.finish_lookup(3, false, Some(900)).unwrap(), 900);
    assert!(mapped.block_map_cache.is_none());

    raw.flags = EXT4_INODE_FLAG_EXTENTS;
    let mut extent = InodeRef::get(fs.superblock(), 2, 10, raw).unwrap();
    assert_eq!(extent.lookup_start(7, false).unwrap(), BlockLookup::Extent { create: false });
    assert_eq!(extent.finish_lookup(7, true, Some(1234)).unwrap(), 1234);
    assert_eq!(extent.lookup_start(7, false).unwrap(), BlockLookup::Cached(1234));
    assert_eq!(extent.lookup_start(7, true).unwrap(), BlockLookup::Extent { create: true });
    assert_eq!(extent.lookup_start(8, false).unwrap(), BlockLookup::Extent { create: false });
    assert_eq!(finish_alloc_lookup(0).unwrap_err().kind(), ErrorKind::NoSpace);
    assert_eq!(finish_alloc_lookup(55).unwrap(), 55);
}

#[test]
fn alloc_goal_is_the_group_holding_the_inode() {
    let mut sb = ext4_sblock::default();
    sb.inodes_per_group = 8192;
    let superblock = Superblock::new(sb);
    let raw = ext4_inode::default();
    let last_of_first = InodeRef::get(&superblock, 8192, 100, raw).unwrap();
    assert_eq!(last_of_first.get_alloc_goal(), 0);
    let first_of_second = InodeRef::get(&superblock, 8193, 100, raw).unwrap();
    assert_eq!(first_of_second.get_alloc_goal(), 1);
}

#[test]
fn block_counts_read_back_after_set() {
    let mut sb = ext4_sblock::default();
    sb.inodes_per_group = 8192;
    sb.log_block_size = 2;
    sb.feature_ro_compat = lwext4_core::consts::EXT4_FEATURE_RO_COMPAT_HUGE_FILE;
    let superblock = Superblock::new(sb);
    let mut ir = InodeRef::get(&superblock, 3, 10, ext4_inode::default()).unwrap();
    ir.set_blocks_count(0x1234_5678_9abc).unwrap();
    assert_eq!(ir.blocks_count().unwrap(), 0x1234_5678_9abc);
    let big = 0x0001_0000_0000_0005u64;
    ir.set_blocks_count(big).unwrap();
    assert_eq!(ir.blocks_count().unwrap(), (big >> 3) << 3);
}

#[test]
fn create_refuses_non_directories_and_taken_names() {
    let dir = inode_with(EXT4_INODE_MODE_DIRECTORY | 0o755, 2, 4096);
    let file = inode_with(EXT4_INODE_MODE_FILE | 0o644, 1, 0);
    assert_eq!(plan_create(&file, None, EXT4_DE_REG_FILE).unwrap_err().kind(), ErrorKind::InvalidInput);
    assert_eq!(plan_create(&dir, Some(12), EXT4_DE_REG_FILE).unwrap_err().kind(), ErrorKind::AlreadyExists);
    assert_eq!(plan_create(&dir, None, EXT4_DE_DIR).unwrap(), CreateStep { is_dir: true });
    assert_eq!(plan_create(&dir, None, EXT4_DE_REG_FILE).unwrap(), CreateStep { is_dir: false });
    assert_eq!(symlink_entry_type(), EXT4_DE_SYMLINK);
}

#[test]
fn only_empty_directories_are_removed() {
    let dir = inode_with(EXT4_INODE_MODE_DIRECTORY | 0o755, 2, 4096);
    let file = inode_with(EXT4_INODE_MODE_FILE | 0o644, 1, 0);
    let dots = vec![b".".to_vec(), b"..".to_vec()];
    assert!(plan_remove_dir(&dir, &dots).is_ok());
    assert_eq!(plan_remove_dir(&file, &dots).unwrap_err().kind(), ErrorKind::InvalidInput);
    let full = vec![b".".to_vec(), b"..".to_vec(), b"a".to_vec()];
    assert_eq!(plan_remove_dir(&dir, &full).unwrap_err().kind(), ErrorKind::NotEmpty);
    assert_eq!(plan_remove_dir(&dir, &[b".".to_vec()]).unwrap_err().kind(), ErrorKind::InvalidInput);
}

#[test]
fn rename_plans_link_changes() {
    let dir = inode_with(EXT4_INODE_MODE_DIRECTORY | 0o755, 2, 4096);
    let file = inode_with(EXT4_INODE_MODE_FILE | 0o644, 1, 0);
    assert_eq!(
        plan_rename(&dir, 2, 9, Some(&file)),
        RenamePlan { is_dir: true, entry_type: EXT4_DE_DIR, replaces: true, replaced_is_dir: false, moves_parent: true }
    );
    assert_eq!(
        plan_rename(&file, 2, 2, None),
        RenamePlan { is_dir: false, entry_type: EXT4_DE_REG_FILE, replaces: false, replaced_is_dir: false, moves_parent: false }
    );
}
