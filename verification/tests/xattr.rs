use lwext4_core::consts::{EXT4_XATTR_INDEX_SECURITY, EXT4_XATTR_INDEX_USER, EXT4_XATTR_MAGIC};
use lwext4_core::error::ErrorKind;
use lwext4_core::superblock::Superblock;
use lwext4_core::types::{ext4_sblock, ext4_xattr_entry, ext4_xattr_header};
use lwext4_core::xattr::block::{
    dec_refcount, find_block_entry, get_block_header, get_refcount, inc_refcount, initialize_block,
    validate_block,
};
use lwext4_core::xattr::hash::{compute_entry_hash, rehash_block};
use lwext4_core::xattr::search::{is_last_entry, next_entry_offset, XattrSearch};
use lwext4_core::xattr::api::{remove_allowed, remove_block_entry_allowed, set_allowed, set_block_entry_allowed};
use lwext4_core::xattr::write::{edit_allowed, edit_in_bounds, entry_len, set_entry_in_memory, value_size};
use lwext4_core::xattr::{extract_xattr_name, get_xattr_name_prefix};

#[test]
fn test_extract_user_xattr() {
    let result = extract_xattr_name("user.comment");
    assert!(result.is_some());
    let (index, name, len) = result.unwrap();
    assert_eq!(index, EXT4_XATTR_INDEX_USER);
    assert_eq!(name, "comment");
    assert_eq!(len, 7);
}

#[test]
fn test_extract_security_xattr() {
    let result = extract_xattr_name("security.selinux");
    assert!(result.is_some());
    let (index, name, len) = result.unwrap();
    assert_eq!(index, EXT4_XATTR_INDEX_SECURITY);
    assert_eq!(name, "selinux");
    assert_eq!(len, 7);
}

#[test]
fn test_extract_empty_name() {
    let result = extract_xattr_name("user.");
    assert!(result.is_none());
}

#[test]
fn test_extract_invalid_prefix() {
    let result = extract_xattr_name("invalid.name");
    assert!(result.is_none());
}

#[test]
fn test_get_prefix() {
    let result = get_xattr_name_prefix(EXT4_XATTR_INDEX_USER);
    assert!(result.is_some());
    let (prefix, len) = result.unwrap();
    assert_eq!(prefix, "user.");
    assert_eq!(len, 5);
}

#[test]
fn test_get_prefix_not_found() {
    let result = get_xattr_name_prefix(255);
    assert!(result.is_none());
}

#[test]
fn test_is_last_entry() {
    let data = [0u8; 16];
    assert!(is_last_entry(&data, 0));
    let data = [1, 0, 0, 0, 0, 0, 0, 0];
    assert!(!is_last_entry(&data, 0));
}

#[test]
fn test_next_entry_offset() {
    let offset = next_entry_offset(0, 4);
    assert_eq!(offset, 20);
    let offset = next_entry_offset(0, 7);
    assert_eq!(offset, 24);
}

#[test]
fn test_search_empty() {
    let data = [0u8; 32];
    let search = XattrSearch::new(&data, 0);
    assert!(search.is_empty());
}

#[test]
fn test_search_find_entry() {
    let mut data = vec![0u8; 256];
    data[0] = 4;
    data[1] = 1;
    data[2..4].copy_from_slice(&100u16.to_le_bytes());
    data[4..8].copy_from_slice(&0u32.to_le_bytes());
    data[8..12].copy_from_slice(&5u32.to_le_bytes());
    data[16..20].copy_from_slice(b"test");
    data[100..105].copy_from_slice(b"hello");
    let mut search = XattrSearch::new(&data, 0);
    let result = search.find_entry(1, b"test");
    assert!(result.is_some());
    let (entry_offset, value_offset, value_size) = result.unwrap();
    assert_eq!(entry_offset, 0);
    assert_eq!(value_offset, 100);
    assert_eq!(value_size, 5);
    assert!(!search.not_found);
}

#[test]
fn test_search_not_found() {
    let mut data = vec![0u8; 256];
    data[0] = 4;
    data[1] = 1;
    data[16..20].copy_from_slice(b"test");
    let mut search = XattrSearch::new(&data, 0);
    let result = search.find_entry(1, b"other");
    assert!(result.is_none());
    assert!(search.not_found);
}

#[test]
fn test_initialize_block() {
    let mut block_data = vec![0u8; 4096];
    initialize_block(&mut block_data).unwrap();
    let header = get_block_header(&block_data).unwrap();
    assert_eq!(u32::from_le(header.h_magic), EXT4_XATTR_MAGIC);
    assert_eq!(u32::from_le(header.h_refcount), 1);
    assert_eq!(u32::from_le(header.h_blocks), 1);
}

#[test]
fn test_refcount_operations() {
    let mut block_data = vec![0u8; 4096];
    initialize_block(&mut block_data).unwrap();
    assert_eq!(get_refcount(&block_data).unwrap(), 1);
    let new_count = inc_refcount(&mut block_data).unwrap();
    assert_eq!(new_count, 2);
    assert_eq!(get_refcount(&block_data).unwrap(), 2);
    let new_count = dec_refcount(&mut block_data).unwrap();
    assert_eq!(new_count, 1);
    assert_eq!(get_refcount(&block_data).unwrap(), 1);
}

#[test]
fn test_validate_empty_block() {}

#[test]
fn test_compute_entry_hash_name_only() {
    let mut entry = ext4_xattr_entry::default();
    entry.e_name_len = 7;
    entry.e_value_block = 0;
    entry.e_value_size = 0;
    let name = b"comment";
    let hash = compute_entry_hash(&entry, name, None);
    assert_ne!(hash, 0);
}

#[test]
fn test_compute_entry_hash_with_value() {
    let mut entry = ext4_xattr_entry::default();
    entry.e_name_len = 4;
    entry.e_value_block = 0;
    entry.e_value_size = 5_u32.to_le();
    let name = b"test";
    let value = b"hello";
    let hash = compute_entry_hash(&entry, name, Some(value));
    assert_ne!(hash, 0);
}

#[test]
fn test_compute_entry_hash_empty_name() {
    let entry = ext4_xattr_entry::default();
    let hash = compute_entry_hash(&entry, b"", None);
    assert_eq!(hash, 0);
}

#[test]
fn test_entry_len() {
    assert_eq!(entry_len(4), 20);
    assert_eq!(entry_len(7), 24);
}

#[test]
fn test_value_size() {
    assert_eq!(value_size(5), 8);
    assert_eq!(value_size(8), 8);
    assert_eq!(value_size(9), 12);
}

#[test]
fn test_api_design() {}

#[test]
fn test_ibody_api_design() {}

#[test]
fn xattr_name_hash_of_one_byte() {
    let mut entry = ext4_xattr_entry::default();
    entry.e_name_len = 1;
    assert_eq!(compute_entry_hash(&entry, b"a", None), 97);
    entry.e_name_len = 2;
    assert_eq!(compute_entry_hash(&entry, b"ab", None), (97u32 << 5) + 98);
}

#[test]
fn xattr_refcount_limits() {
    let mut block = vec![0u8; 64];
    initialize_block(&mut block).unwrap();
    dec_refcount(&mut block).unwrap();
    let err = dec_refcount(&mut block).unwrap_err();
    assert_eq!(err.kind(), ErrorKind::InvalidInput);
    block[4..8].copy_from_slice(&1024u32.to_le_bytes());
    assert_eq!(inc_refcount(&mut block).unwrap_err().kind(), ErrorKind::InvalidInput);
    let mut tiny = vec![0u8; 8];
    assert!(initialize_block(&mut tiny).is_err());
}

#[test]
fn xattr_block_validation_and_lookup() {
    let mut sb = ext4_sblock::default();
    sb.log_block_size = 0;
    let superblock = Superblock::new(sb);
    let mut block = vec![0u8; 1024];
    initialize_block(&mut block).unwrap();
    assert!(validate_block(&superblock, &block).is_ok());
    block[32] = 4;
    block[33] = 1;
    block[34..36].copy_from_slice(&1000u16.to_le_bytes());
    block[40..44].copy_from_slice(&5u32.to_le_bytes());
    block[48..52].copy_from_slice(b"test");
    block[1000..1005].copy_from_slice(b"hello");
    assert!(validate_block(&superblock, &block).is_ok());
    let found = find_block_entry(&superblock, &block, 1, b"test").unwrap();
    assert_eq!(found, Some((32, 1000, 5)));
    assert_eq!(find_block_entry(&superblock, &block, 2, b"test").unwrap(), None);
    block[34..36].copy_from_slice(&1022u16.to_le_bytes());
    assert_eq!(validate_block(&superblock, &block).unwrap_err().kind(), ErrorKind::InvalidInput);
    block[0] = 0;
    assert!(validate_block(&superblock, &block).is_err());
}

#[test]
fn xattr_rehash_block_sets_hashes() {
    let mut header = ext4_xattr_header::default();
    let mut entry = ext4_xattr_entry::default();
    entry.e_name_len = 1;
    let mut entries = vec![0u8; 64];
    entries[0] = 1;
    entries[1] = 1;
    entries[12..16].copy_from_slice(&5u32.to_le_bytes());
    let h = rehash_block(&mut header, &mut entry, b"a", None, &entries);
    assert_eq!(entry.e_hash, 97);
    assert_eq!(h, 5);
    assert_eq!(header.h_hash, 5);
    entries[12..16].copy_from_slice(&0u32.to_le_bytes());
    assert_eq!(rehash_block(&mut header, &mut entry, b"a", None, &entries), 0);
}

#[test]
fn test_set_entry_new() {
    let mut data = vec![0u8; 256];
    let result = set_entry_in_memory(&mut data, 0, 256, 1, b"test", Some(b"hello"), false);
    assert!(result.is_ok());
    assert_eq!(data[0], 4);
    assert_eq!(data[1], 1);
    assert_eq!(&data[16..20], b"test");
}

#[test]
fn test_set_entry_no_space() {
    let mut data = vec![0u8; 32];
    let result = set_entry_in_memory(&mut data, 0, 32, 1, b"test", Some(&[0u8; 100]), false);
    assert!(result.is_err());
    assert_eq!(result.unwrap_err().kind(), ErrorKind::NoSpace);
}

#[test]
fn test_remove_nonexistent() {
    let mut data = vec![0u8; 256];
    let result = set_entry_in_memory(&mut data, 0, 256, 1, b"nonexistent", None, false);
    assert!(result.is_ok());
}

fn value_of(data: &[u8], name_index: u8, name: &[u8]) -> Option<Vec<u8>> {
    let mut search = XattrSearch::new(data, 0);
    search
        .find_entry(name_index, name)
        .map(|(_, off, size)| data[off..off + size as usize].to_vec())
}

#[test]
fn test_set_entry_layout_and_readback() {
    let mut data = vec![0u8; 256];
    set_entry_in_memory(&mut data, 0, 256, 1, b"test", Some(b"hello"), false).unwrap();
    // the value sits at the top of the area, padded to 8 bytes
    assert_eq!(u16::from_le_bytes([data[2], data[3]]), 248);
    assert_eq!(u32::from_le_bytes([data[8], data[9], data[10], data[11]]), 5);
    assert_eq!(&data[248..253], b"hello");
    assert_eq!(&data[253..256], &[0, 0, 0]);
    // terminator after the entry
    assert_eq!(&data[20..24], &[0, 0, 0, 0]);
    assert_eq!(value_of(&data, 1, b"test"), Some(b"hello".to_vec()));
}

#[test]
fn test_set_entry_second_and_replace() {
    let mut data = vec![0u8; 256];
    set_entry_in_memory(&mut data, 0, 256, 1, b"a", Some(b"one"), false).unwrap();
    set_entry_in_memory(&mut data, 0, 256, 1, b"bb", Some(b"second"), false).unwrap();
    assert_eq!(value_of(&data, 1, b"a"), Some(b"one".to_vec()));
    assert_eq!(value_of(&data, 1, b"bb"), Some(b"second".to_vec()));
    // replacing the first value moves the second one up and keeps it readable
    set_entry_in_memory(&mut data, 0, 256, 1, b"a", Some(b"a longer value"), false).unwrap();
    assert_eq!(value_of(&data, 1, b"a"), Some(b"a longer value".to_vec()));
    assert_eq!(value_of(&data, 1, b"bb"), Some(b"second".to_vec()));
}

#[test]
fn test_set_entry_remove_existing() {
    let mut data = vec![0u8; 256];
    set_entry_in_memory(&mut data, 0, 256, 1, b"a", Some(b"one"), false).unwrap();
    set_entry_in_memory(&mut data, 0, 256, 2, b"b", Some(b"two"), false).unwrap();
    set_entry_in_memory(&mut data, 0, 256, 1, b"a", None, false).unwrap();
    assert_eq!(value_of(&data, 1, b"a"), None);
    assert_eq!(value_of(&data, 2, b"b"), Some(b"two".to_vec()));
    // the remaining entry moved to the front of the list
    assert_eq!(data[0], 1);
    assert_eq!(data[1], 2);
}

#[test]
fn test_set_entry_dry_run_changes_nothing() {
    let mut data = vec![0u8; 256];
    let before = data.clone();
    assert!(set_entry_in_memory(&mut data, 0, 256, 1, b"x", Some(b"v"), true).is_ok());
    assert_eq!(data, before);
    let small = &mut [0u8; 24][..];
    let r = set_entry_in_memory(small, 0, 24, 1, b"x", Some(b"v"), true);
    assert_eq!(r.unwrap_err().kind(), ErrorKind::NoSpace);
}

use lwext4_core::fs::InodeRef;
use lwext4_core::types::ext4_inode;
use lwext4_core::xattr::ibody::{
    find_ibody_entry, initialize_ibody_xattr, set_ibody_entry, validate_ibody_xattr,
};

fn ibody_inode(extra_isize: u16, file_acl: u32) -> InodeRef {
    let mut sb = ext4_sblock::default();
    sb.inodes_per_group = 8192;
    sb.log_block_size = 2;
    sb.inode_size = 256;
    let superblock = Superblock::new(sb);
    let mut raw = ext4_inode::default();
    raw.extra_isize = extra_isize;
    raw.file_acl_lo = file_acl;
    InodeRef::get(&superblock, 12, 100, raw).unwrap()
}

#[test]
fn test_ibody_initialize_and_validate() {
    let ir = ibody_inode(32, 0);
    let mut data = vec![0xaau8; 256];
    assert_eq!(validate_ibody_xattr(&ir, &data).unwrap_err().kind(), ErrorKind::Io);
    initialize_ibody_xattr(&ir, &mut data).unwrap();
    assert_eq!(&data[..160], &[0xaau8; 160][..]);
    assert_eq!(u32::from_le_bytes([data[160], data[161], data[162], data[163]]), EXT4_XATTR_MAGIC);
    assert!(data[164..].iter().all(|&b| b == 0));
    assert!(validate_ibody_xattr(&ir, &data).is_ok());
}

#[test]
fn test_ibody_without_extra_fields() {
    let ir = ibody_inode(0, 0);
    let mut data = vec![0u8; 256];
    assert!(validate_ibody_xattr(&ir, &data).is_ok());
    assert_eq!(find_ibody_entry(&ir, &data, 1, b"a").unwrap(), None);
    assert_eq!(set_ibody_entry(&ir, &mut data, 1, b"a", Some(b"v")).unwrap(), false);
    initialize_ibody_xattr(&ir, &mut data).unwrap();
    assert_eq!(data, vec![0u8; 256]);
}

#[test]
fn test_ibody_set_find_get_remove() {
    let ir = ibody_inode(32, 0);
    let mut data = vec![0u8; 256];
    initialize_ibody_xattr(&ir, &mut data).unwrap();
    assert!(set_ibody_entry(&ir, &mut data, 1, b"color", Some(b"blue")).unwrap());
    let (entry, value_off, size) = find_ibody_entry(&ir, &data, 1, b"color").unwrap().unwrap();
    assert_eq!(entry, 164);
    assert_eq!(size, 4);
    assert_eq!(&data[value_off..value_off + 4], b"blue");
    let mut buf = [0u8; 16];
    assert_eq!(lwext4_core::xattr::get(&ir, &data, None, "user.color", &mut buf).unwrap(), 4);
    assert_eq!(&buf[..4], b"blue");
    // a value too large for the inode record does not fit
    assert_eq!(set_ibody_entry(&ir, &mut data, 1, b"big", Some(&[7u8; 200])).unwrap(), false);
    // removing
    assert!(set_ibody_entry(&ir, &mut data, 1, b"color", None).unwrap());
    assert_eq!(find_ibody_entry(&ir, &data, 1, b"color").unwrap(), None);
    assert_eq!(
        lwext4_core::xattr::get(&ir, &data, None, "user.color", &mut buf).unwrap_err().kind(),
        ErrorKind::NotFound
    );
}

#[test]
fn test_get_errors_and_block_lookup() {
    let ir = ibody_inode(32, 0);
    let mut data = vec![0u8; 256];
    initialize_ibody_xattr(&ir, &mut data).unwrap();
    let mut buf = [0u8; 2];
    assert_eq!(
        lwext4_core::xattr::get(&ir, &data, None, "nonsense", &mut buf).unwrap_err().kind(),
        ErrorKind::InvalidInput
    );
    assert!(set_ibody_entry(&ir, &mut data, 1, b"k", Some(b"long")).unwrap());
    assert_eq!(
        lwext4_core::xattr::get(&ir, &data, None, "user.k", &mut buf).unwrap_err().kind(),
        ErrorKind::InvalidInput
    );
    // an attribute kept in the attribute block
    let with_block = ibody_inode(32, 900);
    let mut block = vec![0u8; 1024];
    initialize_block(&mut block).unwrap();
    set_entry_in_memory(&mut block, 32, 1024, 6, b"label", Some(b"xyz"), false).unwrap();
    let mut out = [0u8; 8];
    assert_eq!(
        lwext4_core::xattr::get(&with_block, &data, Some(&block), "security.label", &mut out).unwrap(),
        3
    );
    assert_eq!(&out[..3], b"xyz");
    assert_eq!(
        lwext4_core::xattr::get(&with_block, &data, Some(&block), "security.other", &mut out)
            .unwrap_err()
            .kind(),
        ErrorKind::NotFound
    );
}

use lwext4_core::xattr::list::{list_block_xattr, list_ibody_xattr};

#[test]
fn test_list_ibody_and_block_names() {
    let ir = ibody_inode(32, 900);
    let mut data = vec![0u8; 256];
    initialize_ibody_xattr(&ir, &mut data).unwrap();
    assert!(set_ibody_entry(&ir, &mut data, 1, b"a", Some(b"1")).unwrap());
    assert!(set_ibody_entry(&ir, &mut data, 4, b"t", Some(b"2")).unwrap());
    let mut buf = [0u8; 64];
    let n = list_ibody_xattr(&ir, &data, &mut buf).unwrap();
    assert_eq!(&buf[..n], b"user.a\0trusted.t\0");
    // too small a buffer: the first name is written, then NoSpace
    let mut small = [0xeeu8; 10];
    let err = list_ibody_xattr(&ir, &data, &mut small).unwrap_err();
    assert_eq!(err.kind(), ErrorKind::NoSpace);
    assert_eq!(&small[..7], b"user.a\0");
    assert_eq!(&small[7..], &[0xee, 0xee, 0xee]);

    let mut block = vec![0u8; 1024];
    initialize_block(&mut block).unwrap();
    set_entry_in_memory(&mut block, 32, 1024, 6, b"s", Some(b"x"), false).unwrap();
    let mut all = [0u8; 64];
    let n = lwext4_core::xattr::list(&ir, &data, Some(&block), &mut all).unwrap();
    assert_eq!(&all[..n], b"user.a\0trusted.t\0security.s\0");
    // the block's names that do not fit are left out
    let mut tight = [0u8; 20];
    let n = lwext4_core::xattr::list(&ir, &data, Some(&block), &mut tight).unwrap();
    assert_eq!(&tight[..n], b"user.a\0trusted.t\0");
}

#[test]
fn test_list_block_xattr() {
    let mut sbi = ext4_sblock::default();
    sbi.log_block_size = 0;
    let sb = Superblock::new(sbi);
    let mut block = vec![0u8; 1024];
    initialize_block(&mut block).unwrap();
    set_entry_in_memory(&mut block, 32, 1024, 1, b"first", Some(b"v1"), false).unwrap();
    set_entry_in_memory(&mut block, 32, 1024, 9, b"odd", Some(b"v2"), false).unwrap();
    set_entry_in_memory(&mut block, 32, 1024, 7, b"", Some(b"v3"), false).unwrap();
    let mut buf = [0u8; 64];
    let n = list_block_xattr(&sb, &block, &mut buf).unwrap();
    // namespace 9 is unknown and not listed
    assert_eq!(&buf[..n], b"user.first\0system.\0");
    let mut bad = block.clone();
    bad[3] = 0;
    assert_eq!(list_block_xattr(&sb, &bad, &mut buf).unwrap_err().kind(), ErrorKind::InvalidInput);
}

use lwext4_core::xattr::api::{cow_block, remove_block_entry, set_block_entry};

#[test]
fn test_api_set_and_remove_in_inode() {
    let ir = ibody_inode(32, 0);
    let mut data = vec![0x55u8; 256];
    assert!(lwext4_core::xattr::api::set(&ir, &mut data, "user.k", b"v").unwrap());
    let mut buf = [0u8; 4];
    assert_eq!(lwext4_core::xattr::get(&ir, &data, None, "user.k", &mut buf).unwrap(), 1);
    assert_eq!(buf[0], b'v');
    assert!(lwext4_core::xattr::remove(&ir, &mut data, "user.k").unwrap());
    assert_eq!(
        lwext4_core::xattr::get(&ir, &data, None, "user.k", &mut buf).unwrap_err().kind(),
        ErrorKind::NotFound
    );
    assert_eq!(
        lwext4_core::xattr::api::set(&ir, &mut data, "bogus", b"v").unwrap_err().kind(),
        ErrorKind::InvalidInput
    );
    // a value too big for the inode is left to the attribute block
    assert!(!lwext4_core::xattr::api::set(&ir, &mut data, "user.big", &[1u8; 120]).unwrap());
}

#[test]
fn test_api_remove_without_extra_fields() {
    let no_block = ibody_inode(0, 0);
    let mut data = vec![0u8; 256];
    assert_eq!(
        lwext4_core::xattr::remove(&no_block, &mut data, "user.k").unwrap_err().kind(),
        ErrorKind::NotFound
    );
    let with_block = ibody_inode(0, 77);
    assert!(!lwext4_core::xattr::remove(&with_block, &mut data, "user.k").unwrap());
}

#[test]
fn test_block_entry_set_remove_cow() {
    let mut block = vec![0xffu8; 1024];
    set_block_entry(&mut block, 1024, true, 1, b"big", &[9u8; 100]).unwrap();
    assert_eq!(get_refcount(&block).unwrap(), 1);
    let mut search = XattrSearch::new(&block, 32);
    assert!(search.find_entry(1, b"big").is_some());
    // shared: copy to a new block
    inc_refcount(&mut block).unwrap();
    let mut fresh = vec![0u8; 1024];
    cow_block(&mut block, &mut fresh, 1024).unwrap();
    assert_eq!(get_refcount(&block).unwrap(), 1);
    assert_eq!(get_refcount(&fresh).unwrap(), 1);
    assert_eq!(&fresh[8..], &block[8..]);
    // removing the only entry leaves the block empty
    assert!(remove_block_entry(&mut fresh, 1024, 1, b"big").unwrap());
    assert!(!remove_block_entry(&mut block, 1024, 1, b"other").unwrap());
    let err = set_block_entry(&mut block, 1024, false, 1, b"huge", &[0u8; 2000]);
    assert_eq!(err.unwrap_err().kind(), ErrorKind::NoSpace);
}

#[test]
fn setting_an_attribute_keeps_the_others() {
    let ir = ibody_inode(32, 0);
    let mut data = vec![0x55u8; 256];
    assert!(lwext4_core::xattr::api::set(&ir, &mut data, "user.a", b"first").unwrap());
    assert!(lwext4_core::xattr::api::set(&ir, &mut data, "user.b", b"second").unwrap());
    let mut buf = [0u8; 8];
    assert_eq!(lwext4_core::xattr::get(&ir, &data, None, "user.a", &mut buf).unwrap(), 5);
    assert_eq!(&buf[..5], b"first");
    assert_eq!(lwext4_core::xattr::get(&ir, &data, None, "user.b", &mut buf).unwrap(), 6);
    assert_eq!(&buf[..6], b"second");
}

#[test]
fn reading_an_attribute_of_an_inode_without_any_is_not_found() {
    let ir = ibody_inode(32, 0);
    let data = vec![0u8; 256];
    let mut buf = [0u8; 8];
    assert_eq!(
        lwext4_core::xattr::get(&ir, &data, None, "user.a", &mut buf).unwrap_err().kind(),
        ErrorKind::NotFound
    );
}

#[test]
fn prefix_and_short_name_give_the_full_name() {
    let (idx, short, len) = extract_xattr_name("security.selinux").unwrap();
    let (prefix, plen) = get_xattr_name_prefix(idx).unwrap();
    assert_eq!(format!("{}{}", prefix, short), "security.selinux");
    assert_eq!(plen, prefix.len());
    assert_eq!(len, short.len());
    assert_eq!(get_xattr_name_prefix(EXT4_XATTR_INDEX_USER), Some(("user.", 5)));
    assert_eq!(get_xattr_name_prefix(255), None);
}

/// An area whose single entry "a" claims a 100-byte value at offset 250,
/// past the end of the 256-byte area, starting at `first`.
fn area_with_value_outside(first: usize) -> Vec<u8> {
    let mut data = vec![0u8; 256];
    data[first] = 1;
    data[first + 1] = 1;
    data[first + 2..first + 4].copy_from_slice(&250u16.to_le_bytes());
    data[first + 8..first + 12].copy_from_slice(&100u32.to_le_bytes());
    data[first + 16] = b'a';
    data
}

#[test]
fn edit_checks_accept_well_formed_area() {
    let mut data = vec![0u8; 256];
    set_entry_in_memory(&mut data, 0, 256, 1, b"a", Some(b"one"), false).unwrap();
    assert!(edit_in_bounds(&data, 0, 256, 1, b"b", Some(b"two")));
    assert!(edit_allowed(&data, 0, 256, 1, b"b", Some(b"two")));
    assert!(edit_allowed(&data, 0, 256, 1, b"a", Some(b"longer")));
    assert!(edit_allowed(&data, 0, 256, 1, b"a", None));
    assert!(edit_allowed(&data, 0, 256, 1, b"missing", None));
    let block = vec![0u8; 256];
    assert!(set_block_entry_allowed(&block, 256, true, 1, b"a", b"one"));
}

#[test]
fn edit_checks_refuse_value_outside_area() {
    let data = area_with_value_outside(0);
    assert!(!edit_in_bounds(&data, 0, 256, 1, b"a", Some(b"x")));
    assert!(!edit_allowed(&data, 0, 256, 1, b"a", Some(b"x")));
    assert!(!edit_allowed(&data, 0, 256, 1, b"a", None));
    // removing an absent attribute changes nothing
    assert!(edit_allowed(&data, 0, 256, 1, b"other", None));
    let block = area_with_value_outside(32);
    assert!(!remove_block_entry_allowed(&block, 256, 1, b"a"));
    assert!(!set_block_entry_allowed(&block, 256, false, 1, b"a", b"x"));
}

#[test]
fn replacing_or_removing_an_attribute_keeps_the_others() {
    let ir = ibody_inode(32, 0);
    let mut data = vec![0x55u8; 256];
    assert!(set_allowed(&ir, &data, "user.a", b"first"));
    assert!(lwext4_core::xattr::api::set(&ir, &mut data, "user.a", b"first").unwrap());
    assert!(lwext4_core::xattr::api::set(&ir, &mut data, "user.b", b"second").unwrap());
    assert!(set_allowed(&ir, &data, "user.a", b"a longer first value"));
    assert!(lwext4_core::xattr::api::set(&ir, &mut data, "user.a", b"a longer first value").unwrap());
    let mut buf = [0u8; 32];
    assert_eq!(lwext4_core::xattr::get(&ir, &data, None, "user.b", &mut buf).unwrap(), 6);
    assert_eq!(&buf[..6], b"second");
    assert_eq!(lwext4_core::xattr::get(&ir, &data, None, "user.a", &mut buf).unwrap(), 20);
    assert_eq!(&buf[..20], b"a longer first value");
    assert!(remove_allowed(&ir, &data, "user.a"));
    assert!(lwext4_core::xattr::remove(&ir, &mut data, "user.a").unwrap());
    assert_eq!(lwext4_core::xattr::get(&ir, &data, None, "user.b", &mut buf).unwrap(), 6);
    assert_eq!(&buf[..6], b"second");
    assert_eq!(
        lwext4_core::xattr::get(&ir, &data, None, "user.a", &mut buf).unwrap_err().kind(),
        ErrorKind::NotFound
    );
}
