use lwext4_core::error::ErrorKind;
use lwext4_core::transaction::{
    journal_init, journal_recover, journal_stop, JournalState, JournalTransaction, SimpleTransaction,
    TransactionState,
};

#[test]
fn test_journal_transaction_not_implemented() {}

#[test]
fn test_journal_state() {
    let state = JournalState::Uninitialized;
    assert_eq!(state, JournalState::Uninitialized);
}

#[test]
fn test_transaction_states() {
    let state = TransactionState::Active;
    assert_eq!(state, TransactionState::Active);
}

#[test]
fn test_dirty_blocks_tracking() {}

#[test]
fn simple_transaction_lifecycle() {
    let mut t = SimpleTransaction::begin().unwrap();
    assert_eq!(t.state(), TransactionState::Active);
    t.mark_dirty(5).unwrap();
    t.mark_dirty(6).unwrap();
    t.mark_dirty(5).unwrap();
    assert_eq!(t.dirty_count(), 2);
    assert_eq!(t.get_block(9).unwrap(), 9);
    let to_flush = t.commit().unwrap();
    assert_eq!(to_flush, vec![5, 6]);
    assert_eq!(t.state(), TransactionState::Committing);
    assert_eq!(t.mark_dirty(7).unwrap_err().kind(), ErrorKind::InvalidState);
    t.commit_done(true).unwrap();
    assert_eq!(t.state(), TransactionState::Committed);
}

#[test]
fn simple_transaction_failed_flush_aborts() {
    let mut t = SimpleTransaction::begin().unwrap();
    t.mark_dirty(1).unwrap();
    t.commit().unwrap();
    assert_eq!(t.commit_done(false).unwrap_err().kind(), ErrorKind::Io);
    assert_eq!(t.state(), TransactionState::Aborted);
    let mut u = SimpleTransaction::begin().unwrap();
    u.mark_dirty(3).unwrap();
    u.abort_internal();
    assert_eq!(u.state(), TransactionState::Aborted);
    assert_eq!(u.dirty_count(), 0);
    assert!(u.abort().is_ok());
}

#[test]
fn journal_transactions_are_unsupported() {
    assert_eq!(JournalTransaction::begin().err().unwrap().kind(), ErrorKind::Unsupported);
    assert_eq!(journal_init().unwrap_err().kind(), ErrorKind::Unsupported);
    assert_eq!(journal_recover().unwrap_err().kind(), ErrorKind::Unsupported);
    assert_eq!(journal_stop().unwrap_err().kind(), ErrorKind::Unsupported);
}

use lwext4_core::transaction::TransactionBlock;

#[test]
fn test_transaction_block_automatic_dirty_tracking() {
    let mut dirty_list: Vec<u64> = Vec::new();
    {
        let mut trans_block = TransactionBlock::new(vec![0u8; 4096], 0);
        trans_block.with_data_mut()[0] = 0x42;
        // nothing listed while the block is still held
        assert_eq!(dirty_list.len(), 0);
        trans_block.release(&mut dirty_list).unwrap();
    }
    assert_eq!(dirty_list.len(), 1);
    assert_eq!(dirty_list[0], 0);
}

#[test]
fn test_transaction_block_no_tracking_without_modification() {
    let mut dirty_list: Vec<u64> = Vec::new();
    {
        let trans_block = TransactionBlock::new(vec![0u8; 4096], 0);
        let _ = trans_block.with_data()[0];
        trans_block.release(&mut dirty_list).unwrap();
    }
    assert_eq!(dirty_list.len(), 0);
}

#[test]
fn test_transaction_block_no_duplicate_dirty_entries() {
    let mut dirty_list: Vec<u64> = Vec::new();
    {
        let mut trans_block = TransactionBlock::new(vec![0u8; 4096], 0);
        trans_block.with_data_mut()[0] = 0x42;
        trans_block.release(&mut dirty_list).unwrap();
    }
    assert_eq!(dirty_list.len(), 1);
    {
        let mut trans_block = TransactionBlock::new(vec![0u8; 4096], 0);
        trans_block.with_data_mut()[0] = 0x43;
        trans_block.release(&mut dirty_list).unwrap();
    }
    assert_eq!(dirty_list.len(), 1);
    assert_eq!(dirty_list[0], 0);
}

#[test]
fn test_transaction_block_keeps_changes_and_address() {
    let mut trans_block = TransactionBlock::new(vec![1u8, 2, 3], 77);
    assert_eq!(trans_block.lba(), 77);
    trans_block.with_data_mut()[1] = 9;
    assert_eq!(trans_block.with_data(), &[1u8, 9, 3]);
    let mut dirty_list: Vec<u64> = vec![5];
    trans_block.release(&mut dirty_list).unwrap();
    assert_eq!(dirty_list, vec![5, 77]);
}
