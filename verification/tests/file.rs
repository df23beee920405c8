use lwext4_core::fs::file::{File, WriteChunk};
use lwext4_core::superblock::Superblock;
use lwext4_core::types::ext4_sblock;

fn sb_4k() -> Superblock {
    let mut sb = ext4_sblock::default();
    sb.log_block_size = 2;
    Superblock::new(sb)
}

#[test]
fn test_file_offsets() {
    let mut f = File::new(&sb_4k(), 12).unwrap();
    assert_eq!(f.inode_num(), 12);
    assert_eq!(f.position(), 0);
    assert_eq!(f.read_start(10), Some(0));
    f.advance(10);
    assert_eq!(f.position(), 10);
    assert_eq!(f.read_start(10), None);
    assert_eq!(f.seek(100_000), 100_000);
    assert_eq!(f.position(), 100_000);
    f.rewind();
    assert_eq!(f.position(), 0);
}

#[test]
fn test_file_write_chunk_and_size() {
    let mut f = File::new(&sb_4k(), 3).unwrap();
    f.seek(4096 + 4000);
    let c = f.write_chunk(500);
    assert_eq!(c, WriteChunk { logical_block: 1, offset_in_block: 4000, len: 96 });
    assert_eq!(f.finish_write(96, 5000), Some(8192));
    assert_eq!(f.position(), 8192);
    let c = f.write_chunk(10);
    assert_eq!(c, WriteChunk { logical_block: 2, offset_in_block: 0, len: 10 });
    assert_eq!(f.finish_write(10, 20000), None);
}

#[test]
fn test_file_truncate_moves_offset() {
    let mut f = File::new(&sb_4k(), 3).unwrap();
    f.seek(500);
    f.truncate(100).unwrap();
    assert_eq!(f.position(), 100);
    f.truncate(1000).unwrap();
    assert_eq!(f.position(), 100);
}
