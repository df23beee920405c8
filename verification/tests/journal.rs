use lwext4_core::journal::checkpoint::{
    calculate_descriptor_blocks_count, checkpoint_transaction, retire_front_transaction,
    should_checkpoint, update_journal_start,
};
use lwext4_core::journal::checksum::{
    block_csum, calculate_superblock_csum, verify_descriptor_block, verify_superblock_csum,
};
use lwext4_core::journal::commit::{calculate_descriptor_blocks, commit_transaction, fill_commit_block, fill_descriptor_block};
use lwext4_core::journal::jbd_fs::JbdFs;
use lwext4_core::journal::recovery::{next_block, recover_begin, scan_descriptor_block, scan_step};
use lwext4_core::journal::types::{
    jbd_bhdr, jbd_block_tag, jbd_block_tag3, jbd_commit_header, jbd_sb, JBD_DESCRIPTOR_BLOCK,
    JBD_FEATURE_INCOMPAT_CSUM_V3, JBD_MAGIC_NUMBER,
};
use lwext4_core::journal::{JbdBuf, JbdJournal, JbdTrans, JournalError};
use lwext4_core::error::ErrorKind;
use lwext4_core::journal::commit::plan_descriptor_chunks;
use lwext4_core::journal::commit::transaction_fs_lbas;

#[test]
fn test_should_checkpoint() {
    let mut journal = JbdJournal::new(0, 100, 4096);
    assert!(!should_checkpoint(&journal, 50));
    journal.start = 50;
    assert!(should_checkpoint(&journal, 50));
    assert!(!should_checkpoint(&journal, 51));
    journal.start = 75;
    assert!(should_checkpoint(&journal, 50));
    assert!(should_checkpoint(&journal, 75));
    assert!(!should_checkpoint(&journal, 76));
}

#[test]
fn test_checkpoint_api() {}

#[test]
fn test_update_journal_start() {
    let mut jbd_sb = jbd_sb::default();
    jbd_sb.header.magic = JBD_MAGIC_NUMBER.to_be();
    jbd_sb.first = 1u32.to_be();
    jbd_sb.start = 50u32.to_be();
    let mut jbd_fs = JbdFs { inode: 8, sb: jbd_sb, dirty: false };
    let jbd_journal = JbdJournal::new(1, 100, 4096);
    update_journal_start(&mut jbd_fs, &jbd_journal).unwrap();
    assert_eq!(jbd_fs.start(), jbd_journal.start);
}

#[test]
fn test_block_csum() {
    let uuid = [0u8; 16];
    let data = [1u8, 2, 3, 4, 5];
    let sequence = 100;
    let csum = block_csum(&uuid, &data, sequence);
    assert_ne!(csum, 0);
    let csum2 = block_csum(&uuid, &data, sequence);
    assert_eq!(csum, csum2);
}

#[test]
fn test_superblock_csum() {
    let mut sb = jbd_sb::default();
    sb.header.magic = JBD_MAGIC_NUMBER.to_be();
    sb.blocksize = 4096u32.to_be();
    sb.feature_incompat = JBD_FEATURE_INCOMPAT_CSUM_V3.to_be();
    calculate_superblock_csum(&mut sb);
    let checksum_value = sb.checksum;
    assert_ne!(checksum_value, 0);
    assert!(verify_superblock_csum(&sb));
    let mut sb_modified = sb;
    sb_modified.blocksize = 8192u32.to_be();
    assert!(!verify_superblock_csum(&sb_modified));
}

#[test]
fn test_csum_disabled() {
    let mut sb = jbd_sb::default();
    sb.header.magic = JBD_MAGIC_NUMBER.to_be();
    sb.feature_incompat = 0;
    assert!(verify_superblock_csum(&sb));
}

#[test]
fn test_calculate_descriptor_blocks() {
    assert_eq!(calculate_descriptor_blocks(0, 4096), 0);
    assert_eq!(calculate_descriptor_blocks(1, 4096), 1);
    assert_eq!(calculate_descriptor_blocks(340, 4096), 1);
    assert_eq!(calculate_descriptor_blocks(341, 4096), 2);
    assert_eq!(calculate_descriptor_blocks(680, 4096), 2);
    assert_eq!(calculate_descriptor_blocks(681, 4096), 3);
}

#[test]
fn test_commit_api() {}

#[test]
fn test_jbd_fs_api() {}

#[test]
fn test_jbd_fs_accessors() {
    let mut jbd_sb = jbd_sb::default();
    jbd_sb.header.magic = JBD_MAGIC_NUMBER.to_be();
    jbd_sb.blocksize = 4096u32.to_be();
    jbd_sb.maxlen = 1024u32.to_be();
    jbd_sb.first = 1u32.to_be();
    jbd_sb.sequence = 100u32.to_be();
    jbd_sb.start = 10u32.to_be();
    let jbd_fs = JbdFs { inode: 8, sb: jbd_sb, dirty: false };
    assert_eq!(jbd_fs.inode(), 8);
    assert_eq!(jbd_fs.block_size(), 4096);
    assert_eq!(jbd_fs.max_len(), 1024);
    assert_eq!(jbd_fs.first(), 1);
    assert_eq!(jbd_fs.sequence(), 100);
    assert_eq!(jbd_fs.start(), 10);
    assert!(!jbd_fs.is_dirty());
}

#[test]
fn test_jbd_fs_dirty_tracking() {
    let mut jbd_sb = jbd_sb::default();
    jbd_sb.header.magic = JBD_MAGIC_NUMBER.to_be();
    let mut jbd_fs = JbdFs { inode: 8, sb: jbd_sb, dirty: false };
    assert!(!jbd_fs.is_dirty());
    jbd_fs.mark_dirty();
    assert!(jbd_fs.is_dirty());
    jbd_fs.set_sequence(200);
    assert!(jbd_fs.is_dirty());
    assert_eq!(jbd_fs.sequence(), 200);
}

#[test]
fn test_journal_creation() {
    let journal = JbdJournal::new(100, 200, 4096);
    assert_eq!(journal.first, 100);
    assert_eq!(journal.start, 100);
    assert_eq!(journal.last, 200);
    assert_eq!(journal.trans_id, 1);
    assert_eq!(journal.block_size, 4096);
    assert_eq!(journal.total_blocks(), 100);
}

#[test]
fn test_alloc_trans_id() {
    let mut journal = JbdJournal::new(100, 200, 4096);
    assert_eq!(journal.alloc_trans_id(), 1);
    assert_eq!(journal.alloc_trans_id(), 2);
    assert_eq!(journal.alloc_trans_id(), 3);
    assert_eq!(journal.alloc_trans_id, 4);
}

#[test]
fn test_new_transaction() {
    let mut journal = JbdJournal::new(100, 200, 4096);
    let trans = journal.new_transaction();
    assert_eq!(trans.trans_id, 1);
    assert_eq!(trans.start_iblock, 100);
}

#[test]
fn test_block_record_management() {
    let mut journal = JbdJournal::new(100, 200, 4096);
    assert!(journal.add_block_record(500, 1));
    assert!(!journal.add_block_record(500, 2));
    let rec = journal.get_block_record(500).unwrap();
    assert_eq!(rec.lba, 500);
    assert_eq!(rec.trans_id, 1);
    let removed = journal.remove_block_record(500).unwrap();
    assert_eq!(removed.lba, 500);
    assert!(journal.get_block_record(500).is_none());
}

#[test]
fn test_checkpoint_queue() {
    let mut journal = JbdJournal::new(100, 200, 4096);
    assert_eq!(journal.checkpoint_queue_len(), 0);
    let trans = JbdTrans::new(1, 100);
    journal.add_to_checkpoint(trans);
    assert_eq!(journal.checkpoint_queue_len(), 1);
}

#[test]
fn test_block_allocation() {
    let mut journal = JbdJournal::new(100, 200, 4096);
    let start = journal.allocate_blocks(10).unwrap();
    assert_eq!(start, 100);
    assert_eq!(journal.start, 110);
    let start2 = journal.allocate_blocks(20).unwrap();
    assert_eq!(start2, 110);
    assert_eq!(journal.start, 130);
    assert!(journal.allocate_blocks(1000).is_none());
}

#[test]
fn test_has_space() {
    let journal = JbdJournal::new(100, 200, 4096);
    assert!(journal.has_space(50));
    assert!(journal.has_space(100));
    assert!(!journal.has_space(101));
    assert!(!journal.has_space(1000));
}

#[test]
fn test_trans_creation() {
    let trans = JbdTrans::new(1, 100);
    assert_eq!(trans.trans_id, 1);
    assert_eq!(trans.start_iblock, 100);
    assert_eq!(trans.alloc_blocks, 0);
    assert_eq!(trans.data_cnt, 0);
    assert_eq!(trans.buffer_count(), 0);
}

#[test]
fn test_add_buffer() {
    let mut trans = JbdTrans::new(1, 100);
    let buf = JbdBuf::new(200, 1000);
    trans.add_buffer(buf);
    assert_eq!(trans.buffer_count(), 1);
    assert_eq!(trans.data_cnt, 1);
}

#[test]
fn test_add_revoke() {
    let mut trans = JbdTrans::new(1, 100);
    assert!(trans.add_revoke(500));
    assert_eq!(trans.revoke_count(), 1);
    assert!(!trans.add_revoke(500));
    assert_eq!(trans.revoke_count(), 1);
    assert!(trans.add_revoke(600));
    assert_eq!(trans.revoke_count(), 2);
}

#[test]
fn test_is_revoked() {
    let mut trans = JbdTrans::new(1, 100);
    assert!(!trans.is_revoked(500));
    trans.add_revoke(500);
    assert!(trans.is_revoked(500));
    assert!(!trans.is_revoked(600));
}

#[test]
fn test_error_handling() {
    let mut trans = JbdTrans::new(1, 100);
    assert!(!trans.has_error());
    assert_eq!(trans.get_error(), 0);
    trans.set_error(-5);
    assert!(trans.has_error());
    assert_eq!(trans.get_error(), -5);
}

#[test]
fn test_journal_module_compiles() {
    assert_eq!(JBD_MAGIC_NUMBER, 0xC03B3998);
}

#[test]
fn test_next_block() {
    assert_eq!(next_block(10, 0, 100), 11);
    assert_eq!(next_block(99, 0, 100), 0);
    assert_eq!(next_block(149, 50, 100), 50);
}

#[test]
fn test_recovery_api() {}

#[test]
fn test_superblock_size() {
    assert_eq!(core::mem::size_of::<jbd_sb>(), 1024, "jbd_sb must be exactly 1024 bytes");
    assert_eq!(jbd_sb::default().to_bytes().len(), 1024);
}

#[test]
fn test_bhdr_size() {
    assert_eq!(core::mem::size_of::<jbd_bhdr>(), 12, "jbd_bhdr must be 12 bytes");
}

#[test]
fn test_commit_header_size() {
    let header = jbd_commit_header {
        header: jbd_bhdr::new(2, 0),
        chksum_type: 0,
        chksum_size: 0,
        padding: [0; 2],
        chksum: [0; 8],
        commit_sec: 0,
        commit_nsec: 0,
    };
    assert_eq!(header.to_bytes().len(), 60, "jbd_commit_header size mismatch");
}

#[test]
fn test_block_tag3_size() {
    assert_eq!(core::mem::size_of::<jbd_block_tag3>(), 16, "jbd_block_tag3 must be 16 bytes");
}

#[test]
fn test_block_tag_size() {
    assert_eq!(core::mem::size_of::<jbd_block_tag>(), 12, "jbd_block_tag must be 12 bytes");
}

#[test]
fn test_bhdr_endian() {
    let header = jbd_bhdr::new(JBD_DESCRIPTOR_BLOCK, 100);
    assert!(header.verify_magic());
    assert_eq!(header.get_blocktype(), JBD_DESCRIPTOR_BLOCK);
    assert_eq!(header.get_sequence(), 100);
}

#[test]
fn journal_allocation_wraps_around() {
    let mut journal = JbdJournal::new(100, 200, 4096);
    journal.start = 190;
    assert_eq!(journal.allocate_blocks(10), Some(190));
    assert_eq!(journal.start, 100);
    journal.start = 50;
    assert!(journal.has_space(50));
    assert!(!journal.has_space(51));
}

#[test]
fn journal_error_kinds() {
    assert_eq!(JournalError::NoSpace.to_error().kind(), ErrorKind::NoSpace);
    assert_eq!(JournalError::NoJournalInode.to_error().kind(), ErrorKind::NotFound);
    assert_eq!(JournalError::InvalidSuperblock.to_error().kind(), ErrorKind::Corrupted);
}

fn sample_fs(csum: bool) -> JbdFs {
    let mut sb = jbd_sb::default();
    sb.first = 1u32.to_be();
    sb.maxlen = 1000u32.to_be();
    sb.sequence = 7u32.to_be();
    sb.start = 1u32.to_be();
    if csum {
        sb.feature_incompat = JBD_FEATURE_INCOMPAT_CSUM_V3.to_be();
    }
    JbdFs { inode: 8, sb, dirty: false }
}

#[test]
fn commit_reserves_log_space() {
    let mut jbd_fs = sample_fs(false);
    let mut journal = JbdJournal::new(1, 1001, 4096);
    let mut empty = JbdTrans::new(1, 1);
    assert_eq!(commit_transaction(&mut jbd_fs, &mut journal, &mut empty).unwrap(), None);
    assert_eq!(jbd_fs.sequence(), 7);
    assert!(!jbd_fs.is_dirty());
    let mut trans = JbdTrans::new(2, 1);
    trans.add_buffer(JbdBuf::new(0, 55));
    trans.add_buffer(JbdBuf::new(0, 56));
    assert_eq!(commit_transaction(&mut jbd_fs, &mut journal, &mut trans).unwrap(), Some(1));
    assert_eq!(trans.alloc_blocks, 4);
    assert_eq!(journal.start, 5);
    assert_eq!(jbd_fs.sequence(), 8);
    assert!(jbd_fs.is_dirty());
    let mut small = JbdJournal::new(1, 3, 4096);
    let err = commit_transaction(&mut jbd_fs, &mut small, &mut trans).unwrap_err();
    assert_eq!(err.kind(), ErrorKind::NoSpace);
    assert_eq!(jbd_fs.sequence(), 8);
}

#[test]
fn descriptor_block_roundtrips_through_recovery_scan() {
    let jbd_fs = sample_fs(true);
    let mut block = vec![0xAAu8; 4096];
    fill_descriptor_block(&mut block, &jbd_fs, 7, &[55, 56, 57], true, &jbd_fs.sb.uuid);
    assert_eq!(&block[0..4], &JBD_MAGIC_NUMBER.to_be_bytes());
    assert!(verify_descriptor_block(&jbd_fs.sb.uuid, &block));
    let (info, next) = scan_descriptor_block(&jbd_fs, 1, 7, &block);
    let targets: Vec<u64> = info.blocks.iter().map(|b| b.fs_block).collect();
    assert_eq!(targets, vec![55, 56, 57]);
    let jblocks: Vec<u32> = info.blocks.iter().map(|b| b.journal_block).collect();
    assert_eq!(jblocks, vec![2, 3, 4]);
    assert_eq!(next, 5);
    block[100] ^= 1;
    assert!(!verify_descriptor_block(&jbd_fs.sb.uuid, &block));
}

#[test]
fn checkpoint_copies_and_retires() {
    let jbd_fs = sample_fs(false);
    let mut trans = JbdTrans::new(1, 998);
    trans.add_buffer(JbdBuf::new(0, 70));
    trans.add_buffer(JbdBuf::new(0, 71));
    trans.add_buffer(JbdBuf::new(0, 72));
    assert_eq!(calculate_descriptor_blocks_count(3, 4096), 1);
    let copies = checkpoint_transaction(&trans, &jbd_fs);
    assert_eq!(copies, vec![(999, 70), (1000, 71), (1, 72)]);
    let mut journal = JbdJournal::new(1, 1001, 4096);
    assert!(journal.add_block_record(70, 1));
    assert!(journal.add_block_record(90, 2));
    trans.add_block_record(lwext4_core::journal::JbdBlockRec::new(70, 1));
    journal.add_to_checkpoint(trans);
    retire_front_transaction(&mut journal);
    assert_eq!(journal.checkpoint_queue_len(), 0);
    assert!(journal.get_block_record(70).is_none());
    assert!(journal.get_block_record(90).is_some());
}

#[test]
fn revoke_block_layout_and_checksum() {
    let plain = sample_fs(false);
    let mut block = vec![0x11u8; 1024];
    lwext4_core::journal::commit::fill_revoke_block(&mut block, &plain, 9, &[1, 0x1_0000_0002], &plain.sb.uuid);
    assert_eq!(&block[0..4], &JBD_MAGIC_NUMBER.to_be_bytes());
    assert_eq!(&block[4..8], &5u32.to_be_bytes());
    assert_eq!(&block[8..12], &9u32.to_be_bytes());
    assert_eq!(&block[12..16], &2u32.to_be_bytes());
    assert_eq!(&block[16..24], &1u64.to_be_bytes());
    assert_eq!(&block[24..32], &0x1_0000_0002u64.to_be_bytes());
    assert_eq!(block[32], 0x11);
    let with_csum = sample_fs(true);
    let mut block = vec![0u8; 1024];
    lwext4_core::journal::commit::fill_revoke_block(&mut block, &with_csum, 9, &[7], &with_csum.sb.uuid);
    assert!(lwext4_core::journal::checksum::verify_revoke_block(&with_csum.sb.uuid, &block));
    block[20] ^= 0xff;
    assert!(!lwext4_core::journal::checksum::verify_revoke_block(&with_csum.sb.uuid, &block));
}

#[test]
fn descriptor_plan_splits_buffers_into_runs() {
    let mut plain = sample_fs(false);
    plain.sb.blocksize = 60u32.to_be();
    let (chunks, next) = plan_descriptor_chunks(&plain, 10, 100);
    let got: Vec<(u32, usize, usize, bool)> =
        chunks.iter().map(|c| (c.desc_jblock, c.first, c.count, c.last)).collect();
    assert_eq!(got, vec![(100, 0, 4, false), (105, 4, 4, false), (110, 8, 2, true)]);
    assert_eq!(next, 113);

    let mut with_csum = sample_fs(true);
    with_csum.sb.blocksize = 60u32.to_be();
    let (chunks, next) = plan_descriptor_chunks(&with_csum, 10, 100);
    let got: Vec<(u32, usize, usize, bool)> =
        chunks.iter().map(|c| (c.desc_jblock, c.first, c.count, c.last)).collect();
    assert_eq!(
        got,
        vec![(100, 0, 3, false), (104, 3, 3, false), (108, 6, 3, false), (112, 9, 1, true)]
    );
    assert_eq!(next, 114);

    let (chunks, next) = plan_descriptor_chunks(&plain, 0, 7);
    assert!(chunks.is_empty());
    assert_eq!(next, 7);
}

#[test]
fn transaction_lbas_follow_buffer_order() {
    let mut trans = JbdTrans::new(3, 1);
    trans.add_buffer(JbdBuf::new(0, 90));
    trans.add_buffer(JbdBuf::new(0, 12));
    trans.add_buffer(JbdBuf::new(0, 40));
    assert_eq!(transaction_fs_lbas(&trans), vec![90, 12, 40]);
}

#[test]
fn journal_errors_describe_themselves() {
    assert_eq!(JournalError::NoSpace.message(), "Journal has no space");
    assert_eq!(JournalError::UnsupportedFeature(3).message(), "Unsupported journal feature");
    let e = lwext4_core::error::Error::new(ErrorKind::Io, "device gone");
    assert_eq!(e.message(), "device gone");
    assert_eq!(JournalError::IoError.to_error().message(), JournalError::IoError.message());
}

#[test]
fn recovery_scan_keeps_only_committed_transactions() {
    let mut jbd_fs = sample_fs(false);
    jbd_fs.sb.start = 5u32.to_be();
    let uuid = jbd_fs.sb.uuid;
    let mut state = recover_begin(&jbd_fs).unwrap();
    let mut desc = vec![0u8; 4096];
    fill_descriptor_block(&mut desc, &jbd_fs, 7, &[300, 301], true, &uuid);
    assert!(scan_step(&mut state, &jbd_fs, &desc));
    assert!(state.transactions.is_empty());
    assert_eq!(state.pending.len(), 1);
    assert_eq!(state.current_block, 8);
    // the log ends before the commit block: nothing is to be replayed
    let garbage = vec![0u8; 4096];
    assert!(!scan_step(&mut state, &jbd_fs, &garbage));
    assert!(state.transactions.is_empty());
    // with the commit block, the transaction is committed
    let mut commit = vec![0u8; 4096];
    fill_commit_block(&mut commit, &jbd_fs, 7, &uuid);
    assert!(scan_step(&mut state, &jbd_fs, &commit));
    assert_eq!(state.transactions.len(), 1);
    assert!(state.pending.is_empty());
    assert_eq!(state.sequence, 8);
    let blocks: Vec<u64> = state.transactions[0].blocks.iter().map(|b| b.fs_block).collect();
    assert_eq!(blocks, vec![300, 301]);
}

#[test]
fn block_record_changes_through_a_mutable_lookup_stay() {
    let mut journal = JbdJournal::new(100, 200, 4096);
    assert!(journal.add_block_record(500, 1));
    assert!(journal.get_block_record_mut(501).is_none());
    journal.get_block_record_mut(500).unwrap().trans_id = 7;
    assert_eq!(journal.get_block_record(500).unwrap().trans_id, 7);
}
