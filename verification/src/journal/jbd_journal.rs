//! The journal manager: transaction ids, the circular log space, the
//! checkpoint queue and the index of blocks held by transactions.

use vstd::prelude::*;
use std::collections::{BTreeMap, VecDeque};
use crate::journal::jbd_trans::{JbdBlockRec, JbdTrans};

verus! {

/// The journal manager.
#[derive(Debug)]
pub struct JbdJournal {
    /// First block of the log area.
    pub first: u32,
    /// Where the next transaction starts writing.
    pub start: u32,
    /// End of the log area (exclusive).
    pub last: u32,
    /// Next transaction id to use.
    pub trans_id: u64,
    /// Next transaction id to hand out.
    pub alloc_trans_id: u64,
    /// Journal block size.
    pub block_size: u32,
    /// Transactions waiting to be checkpointed, oldest first.
    pub cp_queue: VecDeque<JbdTrans>,
    /// Blocks held by transactions, by block number.
    pub block_rec_root: BTreeMap<u64, JbdBlockRec>,
}

/// `BTreeMap::get_mut` on a map keyed by block number: a mutable reference
/// to the value of `k` when there is one.
#[verifier::external_body]
fn btree_get_mut<'a, V>(m: &'a mut BTreeMap<u64, V>, k: u64) -> (r: Option<&'a mut V>)
    ensures
        r is Some <==> old(m)@.contains_key(k),
        r matches Some(v) ==> *v == old(m)@[k] && final(m)@ == old(m)@.insert(k, *final(v)),
        r is None ==> final(m)@ == old(m)@,
{
    m.get_mut(&k)
}

impl JbdJournal {
    /// Whether the log pointers describe a position inside the log area.
    pub open spec fn spec_space_ok(&self) -> bool {
        &&& self.first <= self.last
        &&& self.start >= self.first ==> self.start <= self.last
        &&& self.start < self.first ==> self.first - self.start <= self.last - self.first
    }

    /// Free blocks from `start` to the end of the log, or what the wrap
    /// leaves when `start` lies before `first`.
    pub open spec fn spec_available(&self) -> int {
        if self.start >= self.first {
            self.last - self.start
        } else {
            (self.last - self.first) - (self.first - self.start)
        }
    }

    /// A journal whose log spans `first..last`.
    pub fn new(first: u32, last: u32, block_size: u32) -> (r: Self)
        ensures
            r.first == first,
            r.start == first,
            r.last == last,
            r.trans_id == 1,
            r.alloc_trans_id == 1,
            r.block_size == block_size,
            r.cp_queue@.len() == 0,
            r.block_rec_root@ == Map::<u64, JbdBlockRec>::empty(),
    {
        JbdJournal {
            first,
            start: first,
            last,
            trans_id: 1,
            alloc_trans_id: 1,
            block_size,
            cp_queue: VecDeque::new(),
            block_rec_root: BTreeMap::new(),
        }
    }

    /// Hands out the next transaction id.
    pub fn alloc_trans_id(&mut self) -> (r: u64)
        requires
            old(self).alloc_trans_id < u64::MAX,
        ensures
            r == old(self).alloc_trans_id,
            final(self).alloc_trans_id == old(self).alloc_trans_id + 1,
            final(self).first == old(self).first,
            final(self).start == old(self).start,
            final(self).last == old(self).last,
            final(self).trans_id == old(self).trans_id,
            final(self).block_size == old(self).block_size,
            final(self).cp_queue@ == old(self).cp_queue@,
            final(self).block_rec_root@ == old(self).block_rec_root@,
    {
        let id = self.alloc_trans_id;
        self.alloc_trans_id = self.alloc_trans_id + 1;
        id
    }

    /// A new empty transaction with the next id, starting at `start`.
    pub fn new_transaction(&mut self) -> (r: JbdTrans)
        requires
            old(self).alloc_trans_id < u64::MAX,
        ensures
            r.trans_id == old(self).alloc_trans_id,
            r.start_iblock == old(self).start,
            r.alloc_blocks == 0,
            r.data_cnt == 0,
            r.error == 0,
            r.buf_queue@.len() == 0,
            r.revoke_root@ == Map::<u64, crate::journal::jbd_trans::JbdRevokeRec>::empty(),
            r.tbrec_list@.len() == 0,
            final(self).alloc_trans_id == old(self).alloc_trans_id + 1,
            final(self).first == old(self).first,
            final(self).start == old(self).start,
            final(self).last == old(self).last,
            final(self).trans_id == old(self).trans_id,
            final(self).block_size == old(self).block_size,
            final(self).cp_queue@ == old(self).cp_queue@,
            final(self).block_rec_root@ == old(self).block_rec_root@,
    {
        let trans_id = self.alloc_trans_id();
        let start_iblock = self.start;
        JbdTrans::new(trans_id, start_iblock)
    }

    /// Records that `trans_id` holds block `lba`, unless some transaction
    /// already does; `true` when the record was added.
    pub fn add_block_record(&mut self, lba: u64, trans_id: u64) -> (r: bool)
        ensures
            r == !old(self).block_rec_root@.contains_key(lba),
            r ==> final(self).block_rec_root@.dom() == old(self).block_rec_root@.dom().insert(lba),
            r ==> final(self).block_rec_root@[lba].lba == lba,
            r ==> final(self).block_rec_root@[lba].trans_id == trans_id,
            r ==> final(self).block_rec_root@[lba].dirty_buf_queue@.len() == 0,
            r ==> forall|k: u64|
                k != lba && #[trigger] old(self).block_rec_root@.contains_key(k)
                    ==> final(self).block_rec_root@[k] == old(self).block_rec_root@[k],
            !r ==> final(self).block_rec_root@ == old(self).block_rec_root@,
            final(self).first == old(self).first,
            final(self).start == old(self).start,
            final(self).last == old(self).last,
            final(self).trans_id == old(self).trans_id,
            final(self).alloc_trans_id == old(self).alloc_trans_id,
            final(self).block_size == old(self).block_size,
            final(self).cp_queue@ == old(self).cp_queue@,
    {
        if self.block_rec_root.contains_key(&lba) {
            false
        } else {
            let rec = JbdBlockRec::new(lba, trans_id);
            self.block_rec_root.insert(lba, rec);
            true
        }
    }

    /// Removes and returns the record of block `lba`.
    pub fn remove_block_record(&mut self, lba: u64) -> (r: Option<JbdBlockRec>)
        ensures
            r is Some <==> old(self).block_rec_root@.contains_key(lba),
            r matches Some(rec) ==> rec == old(self).block_rec_root@[lba],
            final(self).block_rec_root@ == old(self).block_rec_root@.remove(lba),
            final(self).first == old(self).first,
            final(self).start == old(self).start,
            final(self).last == old(self).last,
            final(self).trans_id == old(self).trans_id,
            final(self).alloc_trans_id == old(self).alloc_trans_id,
            final(self).block_size == old(self).block_size,
            final(self).cp_queue@ == old(self).cp_queue@,
    {
        self.block_rec_root.remove(&lba)
    }

    /// The record of block `lba`.
    pub fn get_block_record(&self, lba: u64) -> (r: Option<&JbdBlockRec>)
        ensures
            r is Some <==> self.block_rec_root@.contains_key(lba),
            r matches Some(rec) ==> *rec == self.block_rec_root@[lba],
    {
        self.block_rec_root.get(&lba)
    }

    /// The record of block `lba`, for changes.
    pub fn get_block_record_mut(&mut self, lba: u64) -> (r: Option<&mut JbdBlockRec>)
        ensures
            r is Some <==> old(self).block_rec_root@.contains_key(lba),
            r matches Some(rec) ==> *rec == old(self).block_rec_root@[lba]
                && final(self).block_rec_root@ == old(self).block_rec_root@.insert(lba, *final(rec)),
            r is None ==> final(self).block_rec_root@ == old(self).block_rec_root@,
            final(self).first == old(self).first,
            final(self).start == old(self).start,
            final(self).last == old(self).last,
            final(self).trans_id == old(self).trans_id,
            final(self).alloc_trans_id == old(self).alloc_trans_id,
            final(self).block_size == old(self).block_size,
            final(self).cp_queue@ == old(self).cp_queue@,
    {
        btree_get_mut(&mut self.block_rec_root, lba)
    }

    /// Queues a transaction for checkpointing.
    pub fn add_to_checkpoint(&mut self, trans: JbdTrans)
        ensures
            final(self).cp_queue@ == old(self).cp_queue@.push(trans),
            final(self).first == old(self).first,
            final(self).start == old(self).start,
            final(self).last == old(self).last,
            final(self).trans_id == old(self).trans_id,
            final(self).alloc_trans_id == old(self).alloc_trans_id,
            final(self).block_size == old(self).block_size,
            final(self).block_rec_root@ == old(self).block_rec_root@,
    {
        self.cp_queue.push_back(trans);
    }

    /// Number of transactions waiting for checkpointing.
    pub fn checkpoint_queue_len(&self) -> (r: usize)
        ensures
            r == self.cp_queue@.len(),
    {
        self.cp_queue.len()
    }

    /// Takes `count` blocks of log space at `start`, wrapping past the end
    /// of the log; `None`, with nothing changed, when fewer are free.
    pub fn allocate_blocks(&mut self, count: u32) -> (r: Option<u32>)
        requires
            old(self).spec_space_ok(),
        ensures
            count > old(self).spec_available() ==> r is None && final(self).start == old(self).start,
            count <= old(self).spec_available() ==> r == Some(old(self).start) && final(self).start
                == (if old(self).start + count >= old(self).last {
                old(self).first + (old(self).start + count - old(self).last)
            } else {
                old(self).start + count
            }),
            final(self).first == old(self).first,
            final(self).last == old(self).last,
            final(self).trans_id == old(self).trans_id,
            final(self).alloc_trans_id == old(self).alloc_trans_id,
            final(self).block_size == old(self).block_size,
            final(self).cp_queue@ == old(self).cp_queue@,
            final(self).block_rec_root@ == old(self).block_rec_root@,
    {
        let total_blocks = self.last - self.first;
        let available = if self.start >= self.first {
            self.last - self.start
        } else {
            total_blocks - (self.first - self.start)
        };
        if count > available {
            return None;
        }
        let allocated_start = self.start;
        self.start = self.start + count;
        if self.start >= self.last {
            self.start = self.first + (self.start - self.last);
        }
        Some(allocated_start)
    }

    /// Blocks in the log area.
    pub fn total_blocks(&self) -> (r: u32)
        requires
            self.first <= self.last,
        ensures
            r == self.last - self.first,
    {
        self.last - self.first
    }

    /// Whether `count` blocks of log space are free.
    pub fn has_space(&self, count: u32) -> (r: bool)
        requires
            self.spec_space_ok(),
        ensures
            r == (count <= self.spec_available()),
    {
        let available = if self.start >= self.first {
            self.last - self.start
        } else {
            self.total_blocks() - (self.first - self.start)
        };
        count <= available
    }
}

} // verus!
