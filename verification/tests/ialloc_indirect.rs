use lwext4_core::error::ErrorKind;
use lwext4_core::ialloc::{bgidx_to_inode, get_bgid_of_inode, inode_to_bgidx, inodes_in_group_cnt};
use lwext4_core::indirect::mapper::read_block_pointer;
use lwext4_core::indirect::{IndirectBlockMapper, MapStep};
use lwext4_core::inode::Inode;
use lwext4_core::superblock::Superblock;
use lwext4_core::types::{ext4_inode, ext4_sblock};

#[test]
fn test_free_inode_placeholder() {
    assert!(true);
}

#[test]
fn test_inode_to_bgidx() {
    let mut sb_inner = ext4_sblock::default();
    sb_inner.inodes_per_group = 8192u32.to_le();
    let sb = Superblock::new(sb_inner);
    assert_eq!(inode_to_bgidx(&sb, 1), 0);
    assert_eq!(inode_to_bgidx(&sb, 8192), 8191);
    assert_eq!(inode_to_bgidx(&sb, 8193), 0);
}

#[test]
fn test_bgidx_to_inode() {
    let mut sb_inner = ext4_sblock::default();
    sb_inner.inodes_per_group = 8192u32.to_le();
    let sb = Superblock::new(sb_inner);
    assert_eq!(bgidx_to_inode(&sb, 0, 0), 1);
    assert_eq!(bgidx_to_inode(&sb, 8191, 0), 8192);
    assert_eq!(bgidx_to_inode(&sb, 0, 1), 8193);
}

#[test]
fn test_get_bgid_of_inode() {
    let mut sb_inner = ext4_sblock::default();
    sb_inner.inodes_per_group = 8192u32.to_le();
    let sb = Superblock::new(sb_inner);
    assert_eq!(get_bgid_of_inode(&sb, 1), 0);
    assert_eq!(get_bgid_of_inode(&sb, 8192), 0);
    assert_eq!(get_bgid_of_inode(&sb, 8193), 1);
}

#[test]
fn test_roundtrip() {
    let mut sb_inner = ext4_sblock::default();
    sb_inner.inodes_per_group = 8192u32.to_le();
    let sb = Superblock::new(sb_inner);
    for inode in [1u32, 100, 8192, 8193, 16384, 16385] {
        let bgid = get_bgid_of_inode(&sb, inode);
        let index = inode_to_bgidx(&sb, inode);
        let reconstructed = bgidx_to_inode(&sb, index, bgid);
        assert_eq!(inode, reconstructed, "Roundtrip failed for inode {}", inode);
    }
}

#[test]
fn test_mapper_initialization() {
    let mapper = IndirectBlockMapper::new(4096);
    assert_eq!(mapper.blocks_per_indirect, 1024);
    assert_eq!(mapper.block_limits[0], 12);
    assert_eq!(mapper.block_limits[1], 12 + 1024);
    assert_eq!(mapper.block_limits[2], 1036 + 1024 * 1024);
    assert_eq!(mapper.blocks_per_level[0], 1);
    assert_eq!(mapper.blocks_per_level[1], 1024);
    assert_eq!(mapper.blocks_per_level[2], 1024 * 1024);
}

#[test]
fn test_determine_indirect_level() {
    let mapper = IndirectBlockMapper::new(4096);
    assert_eq!(mapper.determine_indirect_level(12).unwrap(), 1);
    assert_eq!(mapper.determine_indirect_level(1035).unwrap(), 1);
    assert_eq!(mapper.determine_indirect_level(1036).unwrap(), 2);
    assert_eq!(mapper.determine_indirect_level(1049611).unwrap(), 2);
    assert_eq!(mapper.determine_indirect_level(1049612).unwrap(), 3);
}

#[test]
fn inodes_in_last_group() {
    let mut sb = ext4_sblock::default();
    sb.inodes_per_group = 1000;
    sb.inodes_count = 9050;
    sb.blocks_count_lo = 1000;
    sb.blocks_per_group = 100;
    let sb = Superblock::new(sb);
    assert_eq!(inodes_in_group_cnt(&sb, 0), 1000);
    assert_eq!(inodes_in_group_cnt(&sb, 9), 50);
}

#[test]
fn mapper_rejects_block_past_triple_indirect() {
    let mapper = IndirectBlockMapper::new(1024);
    let limit = mapper.block_limits[3];
    let err = mapper.determine_indirect_level(limit).unwrap_err();
    assert_eq!(err.kind(), ErrorKind::InvalidInput);
}

fn le_block(ptrs: &[(usize, u32)], size: usize) -> Vec<u8> {
    let mut b = vec![0u8; size];
    for (i, p) in ptrs {
        b[i * 4..i * 4 + 4].copy_from_slice(&p.to_le_bytes());
    }
    b
}

#[test]
fn mapper_walks_direct_and_indirect_blocks() {
    let mapper = IndirectBlockMapper::new(4096);
    let mut raw = ext4_inode::default();
    raw.blocks[3] = 77;
    raw.blocks[13] = 500;
    let inode = Inode::from_raw(raw, 2);
    match mapper.map_block(&inode, 3) {
        MapStep::Done(Ok(Some(b))) => assert_eq!(b, 77),
        _ => panic!("direct block"),
    }
    match mapper.map_block(&inode, 4) {
        MapStep::Done(Ok(None)) => {}
        _ => panic!("hole"),
    }
    match mapper.map_block(&inode, 20) {
        MapStep::Done(Ok(None)) => {}
        _ => panic!("missing single indirect block"),
    }
    let lb = 1036 + 1024 * 2 + 5;
    let (block, index, rest) = match mapper.map_block(&inode, lb) {
        MapStep::Read { block, index, rest } => (block, index, rest),
        _ => panic!("double indirect read"),
    };
    assert_eq!(block, 500);
    assert_eq!(index, 2);
    assert_eq!(rest, vec![5]);
    let first = le_block(&[(2, 600)], 4096);
    let (block, index, rest) = match mapper.resume_map(&first, index, rest) {
        MapStep::Read { block, index, rest } => (block, index, rest),
        _ => panic!("second level read"),
    };
    assert_eq!(block, 600);
    assert_eq!(index, 5);
    assert!(rest.is_empty());
    let second = le_block(&[(5, 9999)], 4096);
    match mapper.resume_map(&second, index, rest) {
        MapStep::Done(Ok(Some(b))) => assert_eq!(b, 9999),
        _ => panic!("data block"),
    }
}

#[test]
fn block_pointer_out_of_buffer() {
    let buf = vec![1u8; 8];
    assert_eq!(read_block_pointer(&buf, 1).unwrap(), Some(0x01010101));
    assert_eq!(read_block_pointer(&buf, 2).unwrap_err().kind(), ErrorKind::InvalidInput);
    let zero = vec![0u8; 8];
    assert_eq!(read_block_pointer(&zero, 0).unwrap(), None);
}

use lwext4_core::fs::BlockGroupRef;
use lwext4_core::ialloc::free_inode;
use lwext4_core::types::ext4_group_desc;

#[test]
fn test_free_inode_updates_bitmap_and_counters() {
    let mut inner = ext4_sblock::default();
    inner.inodes_per_group = 16;
    inner.free_inodes_count = 5;
    let mut sb = Superblock::new(inner);
    let mut desc = ext4_group_desc::default();
    desc.free_inodes_count_lo = 3;
    desc.used_dirs_count_lo = 2;
    // inode 21 is index 4 of group 1
    let mut bg = BlockGroupRef::get(&sb, 1, desc, 32).unwrap();
    let mut bitmap = vec![0xffu8, 0xff];
    let bytes = free_inode(&mut sb, &mut bg, &mut bitmap, 21, true).unwrap();
    assert_eq!(bitmap, vec![0xef, 0xff]);
    assert_eq!(bg.free_inodes_count().unwrap(), 4);
    assert_eq!(bg.used_dirs_count().unwrap(), 1);
    assert!(bg.is_dirty());
    assert_eq!(sb.free_inodes_count(), 6);
    assert_eq!(bytes.len(), 1024);
    // the free inode count sits at byte 16 of the superblock
    assert_eq!(u32::from_le_bytes([bytes[16], bytes[17], bytes[18], bytes[19]]), 6);
}

#[test]
fn test_free_inode_outside_bitmap() {
    let mut inner = ext4_sblock::default();
    inner.inodes_per_group = 64;
    let mut sb = Superblock::new(inner);
    let mut bg = BlockGroupRef::get(&sb, 0, ext4_group_desc::default(), 0).unwrap();
    let mut bitmap = vec![0xffu8];
    let err = free_inode(&mut sb, &mut bg, &mut bitmap, 40, false).unwrap_err();
    assert_eq!(err.kind(), ErrorKind::InvalidInput);
    assert_eq!(bitmap, vec![0xff]);
    assert_eq!(sb.free_inodes_count(), 0);
}
