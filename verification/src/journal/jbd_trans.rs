//! Journal transactions: the buffers they log, the blocks they revoke and
//! the block records they hold.

use vstd::prelude::*;
use std::collections::{BTreeMap, VecDeque};
use crate::error::Result;
use crate::journal::jbd_buf::JbdBuf;

verus! {

/// A revoked block.
#[derive(Debug, Clone, Copy)]
pub struct JbdRevokeRec {
    /// The revoked block.
    pub lba: u64,
}

impl JbdRevokeRec {
    /// A record revoking `lba`.
    pub fn new(lba: u64) -> (r: Self)
        ensures
            r.lba == lba,
    {
        JbdRevokeRec { lba }
    }
}

/// Which transaction holds a filesystem block.
#[derive(Debug)]
pub struct JbdBlockRec {
    /// The filesystem block.
    pub lba: u64,
    /// The transaction holding it.
    pub trans_id: u64,
    /// Positions of its dirty buffers in the transaction's buffer queue.
    pub dirty_buf_queue: VecDeque<usize>,
}

impl JbdBlockRec {
    /// A record of block `lba` held by `trans_id`, with no dirty buffers.
    pub fn new(lba: u64, trans_id: u64) -> (r: Self)
        ensures
            r.lba == lba,
            r.trans_id == trans_id,
            r.dirty_buf_queue@ == Seq::<usize>::empty(),
    {
        JbdBlockRec { lba, trans_id, dirty_buf_queue: VecDeque::new() }
    }
}

/// A journal transaction.
#[derive(Debug)]
pub struct JbdTrans {
    /// Transaction id.
    pub trans_id: u64,
    /// First journal block of the transaction.
    pub start_iblock: u32,
    /// Journal blocks allocated to it.
    pub alloc_blocks: i32,
    /// Data blocks in it.
    pub data_cnt: i32,
    /// Checksum of its data.
    pub data_csum: u32,
    /// Blocks already written to the journal.
    pub written_cnt: i32,
    /// Error code, 0 when none.
    pub error: i32,
    /// Its buffers, in order.
    pub buf_queue: VecDeque<JbdBuf>,
    /// Blocks it revokes, by block number.
    pub revoke_root: BTreeMap<u64, JbdRevokeRec>,
    /// Block records it holds.
    pub tbrec_list: Vec<JbdBlockRec>,
}

impl JbdTrans {
    /// An empty transaction.
    pub fn new(trans_id: u64, start_iblock: u32) -> (r: Self)
        ensures
            r.trans_id == trans_id,
            r.start_iblock == start_iblock,
            r.alloc_blocks == 0,
            r.data_cnt == 0,
            r.data_csum == 0,
            r.written_cnt == 0,
            r.error == 0,
            r.buf_queue@.len() == 0,
            r.revoke_root@ == Map::<u64, JbdRevokeRec>::empty(),
            r.tbrec_list@.len() == 0,
    {
        JbdTrans {
            trans_id,
            start_iblock,
            alloc_blocks: 0,
            data_cnt: 0,
            data_csum: 0,
            written_cnt: 0,
            error: 0,
            buf_queue: VecDeque::new(),
            revoke_root: BTreeMap::new(),
            tbrec_list: Vec::new(),
        }
    }

    /// Appends a buffer and counts it as a data block.
    pub fn add_buffer(&mut self, buf: JbdBuf)
        requires
            old(self).data_cnt < i32::MAX,
        ensures
            final(self).buf_queue@ == old(self).buf_queue@.push(buf),
            final(self).data_cnt == old(self).data_cnt + 1,
            final(self).trans_id == old(self).trans_id,
            final(self).start_iblock == old(self).start_iblock,
            final(self).alloc_blocks == old(self).alloc_blocks,
            final(self).data_csum == old(self).data_csum,
            final(self).written_cnt == old(self).written_cnt,
            final(self).error == old(self).error,
            final(self).revoke_root@ == old(self).revoke_root@,
            final(self).tbrec_list@ == old(self).tbrec_list@,
    {
        self.buf_queue.push_back(buf);
        self.data_cnt = self.data_cnt + 1;
    }

    /// Records that `lba` is revoked; `true` when it was not yet.
    pub fn add_revoke(&mut self, lba: u64) -> (r: bool)
        ensures
            r == !old(self).revoke_root@.contains_key(lba),
            final(self).revoke_root@ == (if r {
                old(self).revoke_root@.insert(lba, JbdRevokeRec { lba })
            } else {
                old(self).revoke_root@
            }),
            final(self).trans_id == old(self).trans_id,
            final(self).start_iblock == old(self).start_iblock,
            final(self).alloc_blocks == old(self).alloc_blocks,
            final(self).data_cnt == old(self).data_cnt,
            final(self).data_csum == old(self).data_csum,
            final(self).written_cnt == old(self).written_cnt,
            final(self).error == old(self).error,
            final(self).buf_queue@ == old(self).buf_queue@,
            final(self).tbrec_list@ == old(self).tbrec_list@,
    {
        if self.revoke_root.contains_key(&lba) {
            false
        } else {
            self.revoke_root.insert(lba, JbdRevokeRec::new(lba));
            true
        }
    }

    /// `add_revoke`, as a `Result` that is always `Ok`.
    pub fn try_revoke(&mut self, lba: u64) -> (r: Result<bool>)
        ensures
            r is Ok,
            r->Ok_0 == !old(self).revoke_root@.contains_key(lba),
            final(self).revoke_root@ == (if r->Ok_0 {
                old(self).revoke_root@.insert(lba, JbdRevokeRec { lba })
            } else {
                old(self).revoke_root@
            }),
            final(self).trans_id == old(self).trans_id,
            final(self).start_iblock == old(self).start_iblock,
            final(self).alloc_blocks == old(self).alloc_blocks,
            final(self).data_cnt == old(self).data_cnt,
            final(self).data_csum == old(self).data_csum,
            final(self).written_cnt == old(self).written_cnt,
            final(self).error == old(self).error,
            final(self).buf_queue@ == old(self).buf_queue@,
            final(self).tbrec_list@ == old(self).tbrec_list@,
    {
        Ok(self.add_revoke(lba))
    }

    /// Whether `lba` is revoked.
    pub fn is_revoked(&self, lba: u64) -> (r: bool)
        ensures
            r == self.revoke_root@.contains_key(lba),
    {
        self.revoke_root.contains_key(&lba)
    }

    /// Appends a block record.
    pub fn add_block_record(&mut self, rec: JbdBlockRec)
        ensures
            final(self).tbrec_list@ == old(self).tbrec_list@.push(rec),
            final(self).trans_id == old(self).trans_id,
            final(self).start_iblock == old(self).start_iblock,
            final(self).alloc_blocks == old(self).alloc_blocks,
            final(self).data_cnt == old(self).data_cnt,
            final(self).data_csum == old(self).data_csum,
            final(self).written_cnt == old(self).written_cnt,
            final(self).error == old(self).error,
            final(self).buf_queue@ == old(self).buf_queue@,
            final(self).revoke_root@ == old(self).revoke_root@,
    {
        self.tbrec_list.push(rec);
    }

    /// Number of buffers.
    pub fn buffer_count(&self) -> (r: usize)
        ensures
            r == self.buf_queue@.len(),
    {
        self.buf_queue.len()
    }

    /// Number of revoked blocks.
    pub fn revoke_count(&self) -> (r: usize)
        ensures
            r == self.revoke_root@.len(),
    {
        self.revoke_root.len()
    }

    /// Records an error code.
    pub fn set_error(&mut self, error: i32)
        ensures
            final(self).error == error,
            final(self).trans_id == old(self).trans_id,
            final(self).start_iblock == old(self).start_iblock,
            final(self).alloc_blocks == old(self).alloc_blocks,
            final(self).data_cnt == old(self).data_cnt,
            final(self).data_csum == old(self).data_csum,
            final(self).written_cnt == old(self).written_cnt,
            final(self).buf_queue@ == old(self).buf_queue@,
            final(self).revoke_root@ == old(self).revoke_root@,
            final(self).tbrec_list@ == old(self).tbrec_list@,
    {
        self.error = error;
    }

    /// Whether an error is recorded.
    pub fn has_error(&self) -> (r: bool)
        ensures
            r == (self.error != 0),
    {
        self.error != 0
    }

    /// The recorded error code.
    pub fn get_error(&self) -> (r: i32)
        ensures
            r == self.error,
    {
        self.error
    }
}

} // verus!
