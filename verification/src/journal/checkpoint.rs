//! Checkpoint bookkeeping: when to checkpoint, which journal blocks go back
//! to which filesystem blocks, and how the journal start moves once the
//! oldest transactions are written back.
//!
//! Copying the blocks is device I/O; callers run the loop: take the copy
//! list of the oldest checkpointable transaction, copy, retire it, and
//! finally move the journal start.

use vstd::prelude::*;
use crate::error::Result;
use crate::journal::jbd_fs::JbdFs;
use crate::journal::jbd_journal::JbdJournal;
use crate::journal::jbd_trans::JbdTrans;
use crate::bytes::swap32;

verus! {

/// Size of a block header.
pub const HEADER_SIZE: u32 = 12;
/// Size of a block tag.
pub const TAG_SIZE: u32 = 12;

/// Blocks of the log in use, counting from `first` to `start` around the
/// circle.
pub open spec fn spec_used_blocks(j: JbdJournal) -> int {
    if j.start >= j.first {
        j.start - j.first
    } else {
        (j.last - j.first) - (j.first - j.start)
    }
}

/// Whether the log is at least `threshold` percent full.
pub fn should_checkpoint(jbd_journal: &JbdJournal, threshold: u32) -> (r: bool)
    requires
        jbd_journal.first < jbd_journal.last,
        jbd_journal.start >= jbd_journal.first ==> jbd_journal.start - jbd_journal.first <= u32::MAX,
        jbd_journal.start < jbd_journal.first ==> jbd_journal.first - jbd_journal.start
            <= jbd_journal.last - jbd_journal.first,
    ensures
        r == (spec_used_blocks(*jbd_journal) * 100 / (jbd_journal.last - jbd_journal.first)
            >= threshold),
{
    let total_blocks = jbd_journal.total_blocks();
    let used_blocks = if jbd_journal.start >= jbd_journal.first {
        jbd_journal.start - jbd_journal.first
    } else {
        total_blocks - (jbd_journal.first - jbd_journal.start)
    };
    let usage_percent = (used_blocks as u64 * 100) / total_blocks as u64;
    usage_percent >= threshold as u64
}

/// Descriptor blocks needed for `data_blocks` tags.
pub open spec fn spec_descriptor_blocks(data_blocks: u32, block_size: u32) -> int {
    let per_block = (block_size - HEADER_SIZE) / (TAG_SIZE as int);
    if data_blocks == 0 {
        0
    } else {
        (data_blocks + per_block - 1) / per_block
    }
}

/// Descriptor blocks needed for `data_blocks` tags.
pub fn calculate_descriptor_blocks_count(data_blocks: u32, block_size: u32) -> (r: u32)
    requires
        block_size >= HEADER_SIZE + TAG_SIZE,
        data_blocks > 0 ==> data_blocks + (block_size - HEADER_SIZE) / (TAG_SIZE as int) <= u32::MAX,
    ensures
        r == spec_descriptor_blocks(data_blocks, block_size),
{
    let tags_per_block = (block_size - HEADER_SIZE) / TAG_SIZE;
    if data_blocks == 0 {
        0
    } else {
        (data_blocks + tags_per_block - 1) / tags_per_block
    }
}

/// The log block after `current`, wrapping from the end to `first`.
pub open spec fn spec_next_block(current: u32, first: u32, max_len: u32) -> u32 {
    if current + 1 >= first + max_len {
        first
    } else {
        (current + 1) as u32
    }
}

/// The log block `n` steps after `current`.
pub open spec fn spec_advance(current: u32, n: nat, first: u32, max_len: u32) -> u32
    decreases n,
{
    if n == 0 {
        current
    } else {
        spec_next_block(spec_advance(current, (n - 1) as nat, first, max_len), first, max_len)
    }
}

/// The log block after `current`, wrapping from the end to `first`.
pub fn next_journal_block(current: u32, first: u32, max_len: u32) -> (r: u32)
    requires
        current < u32::MAX,
        first + max_len <= u32::MAX,
    ensures
        r == spec_next_block(current, first, max_len),
{
    let next = current + 1;
    let last = first + max_len;
    if next >= last {
        first
    } else {
        next
    }
}

/// Whether a transaction can be checkpointed: it has no error.
pub fn is_transaction_checkpointable(trans: &JbdTrans) -> (r: bool)
    ensures
        r == (trans.error == 0),
{
    !trans.has_error()
}

/// Where the data of a transaction lies in the log: the first data block,
/// past the descriptor blocks.
pub open spec fn spec_first_data_block(trans: &JbdTrans, block_size: u32) -> int {
    trans.start_iblock + spec_descriptor_blocks(trans.buf_queue@.len() as u32, block_size)
}

/// Log block of the `k`-th buffer of a transaction: `k` steps after the
/// first data block, with wrap-around.
pub open spec fn spec_copy_block(trans: &JbdTrans, jbd_fs: &JbdFs, k: int) -> u32 {
    spec_advance(
        spec_first_data_block(trans, swap32(jbd_fs.sb.blocksize)) as u32,
        k as nat,
        swap32(jbd_fs.sb.first),
        swap32(jbd_fs.sb.maxlen),
    )
}

/// The copies that write a transaction back: for each buffer in order,
/// its log block (counting on from the first data block with wrap-around)
/// and its filesystem block.
pub fn checkpoint_transaction(trans: &JbdTrans, jbd_fs: &JbdFs) -> (r: Vec<(u32, u64)>)
    requires
        trans.buf_queue@.len() <= u32::MAX,
        swap32(jbd_fs.sb.blocksize) >= HEADER_SIZE + TAG_SIZE,
        trans.buf_queue@.len() > 0 ==> trans.buf_queue@.len() + (swap32(jbd_fs.sb.blocksize)
            - HEADER_SIZE) / (TAG_SIZE as int) <= u32::MAX,
        spec_first_data_block(trans, swap32(jbd_fs.sb.blocksize)) <= u32::MAX,
        trans.buf_queue@.len() > 0 ==> swap32(jbd_fs.sb.first) + swap32(jbd_fs.sb.maxlen)
            <= u32::MAX,
        forall|i: int|
            0 <= i < trans.buf_queue@.len() ==> #[trigger] spec_copy_block(trans, jbd_fs, i)
                < u32::MAX,
    ensures
        r@.len() == trans.buf_queue@.len(),
        forall|i: int|
            0 <= i < r@.len() ==> #[trigger] r@[i] == (
                spec_copy_block(trans, jbd_fs, i),
                trans.buf_queue@[i].fs_lba,
            ),
{
    let data_blocks = trans.buffer_count() as u32;
    let descriptor_blocks = calculate_descriptor_blocks_count(data_blocks, jbd_fs.block_size());
    let start = trans.start_iblock + descriptor_blocks;
    let first = jbd_fs.first();
    let max_len = jbd_fs.max_len();
    let mut current_jblock = start;
    let mut copies: Vec<(u32, u64)> = Vec::new();
    let n = trans.buf_queue.len();
    let mut i: usize = 0;
    while i < n
        invariant
            n == trans.buf_queue@.len(),
            i <= n,
            first == swap32(jbd_fs.sb.first),
            max_len == swap32(jbd_fs.sb.maxlen),
            n > 0 ==> first + max_len <= u32::MAX,
            current_jblock == spec_copy_block(trans, jbd_fs, i as int),
            copies@.len() == i,
            forall|k: int| 0 <= k < n ==> #[trigger] spec_copy_block(trans, jbd_fs, k) < u32::MAX,
            forall|k: int|
                0 <= k < i ==> #[trigger] copies@[k] == (
                    spec_copy_block(trans, jbd_fs, k),
                    trans.buf_queue@[k].fs_lba,
                ),
        decreases n - i,
    {
        let fs_lba = trans.buf_queue[i].fs_lba();
        copies.push((current_jblock, fs_lba));
        assert(spec_copy_block(trans, jbd_fs, i as int) < u32::MAX);
        current_jblock = next_journal_block(current_jblock, first, max_len);
        assert(spec_copy_block(trans, jbd_fs, i + 1) == spec_next_block(
            spec_copy_block(trans, jbd_fs, i as int),
            first,
            max_len,
        ));
        i = i + 1;
    }
    copies
}

/// Removes the oldest queued transaction, which has been written back,
/// together with the records of the blocks it held.
pub fn retire_front_transaction(jbd_journal: &mut JbdJournal)
    requires
        old(jbd_journal).cp_queue@.len() > 0,
    ensures
        final(jbd_journal).cp_queue@ == old(jbd_journal).cp_queue@.drop_first(),
        forall|k: u64|
            #[trigger] final(jbd_journal).block_rec_root@.contains_key(k) <==> (old(jbd_journal).block_rec_root@.contains_key(k) && !(exists|i: int|
                0 <= i < old(jbd_journal).cp_queue@[0].tbrec_list@.len() && #[trigger] old(jbd_journal).cp_queue@[0].tbrec_list@[i].lba == k)),
        forall|k: u64|
            #[trigger] final(jbd_journal).block_rec_root@.contains_key(k) ==> final(jbd_journal).block_rec_root@[k] == old(jbd_journal).block_rec_root@[k],
        final(jbd_journal).first == old(jbd_journal).first,
        final(jbd_journal).start == old(jbd_journal).start,
        final(jbd_journal).last == old(jbd_journal).last,
        final(jbd_journal).trans_id == old(jbd_journal).trans_id,
        final(jbd_journal).alloc_trans_id == old(jbd_journal).alloc_trans_id,
        final(jbd_journal).block_size == old(jbd_journal).block_size,
{
    let trans = jbd_journal.cp_queue.pop_front();
    let trans = match trans {
        Some(t) => t,
        None => { return; },
    };
    let ghost m0 = jbd_journal.block_rec_root@;
    let ghost q0 = jbd_journal.cp_queue@;
    assert(q0 =~= old(jbd_journal).cp_queue@.drop_first());
    let n = trans.tbrec_list.len();
    let mut i: usize = 0;
    while i < n
        invariant
            n == trans.tbrec_list@.len(),
            trans == old(jbd_journal).cp_queue@[0],
            m0 == old(jbd_journal).block_rec_root@,
            jbd_journal.cp_queue@ == q0,
            q0 == old(jbd_journal).cp_queue@.drop_first(),
            jbd_journal.first == old(jbd_journal).first,
            jbd_journal.start == old(jbd_journal).start,
            jbd_journal.last == old(jbd_journal).last,
            jbd_journal.trans_id == old(jbd_journal).trans_id,
            jbd_journal.alloc_trans_id == old(jbd_journal).alloc_trans_id,
            jbd_journal.block_size == old(jbd_journal).block_size,
            i <= n,
            forall|k: u64|
                #[trigger] jbd_journal.block_rec_root@.contains_key(k) <==> (m0.contains_key(k)
                    && !(exists|j: int| 0 <= j < i && #[trigger] trans.tbrec_list@[j].lba == k)),
            forall|k: u64|
                #[trigger] jbd_journal.block_rec_root@.contains_key(k)
                    ==> jbd_journal.block_rec_root@[k] == m0[k],
        decreases n - i,
    {
        let lba = trans.tbrec_list[i].lba;
        let _ = jbd_journal.remove_block_record(lba);
        proof {
            assert forall|k: u64|
                #[trigger] jbd_journal.block_rec_root@.contains_key(k) <==> (m0.contains_key(k)
                    && !(exists|j: int| 0 <= j < i + 1 && #[trigger] trans.tbrec_list@[j].lba == k)) by {
                if exists|j: int| 0 <= j < i + 1 && #[trigger] trans.tbrec_list@[j].lba == k {
                    let j = choose|j: int| 0 <= j < i + 1 && #[trigger] trans.tbrec_list@[j].lba == k;
                    if j < i {
                        assert(exists|j2: int| 0 <= j2 < i && #[trigger] trans.tbrec_list@[j2].lba == k);
                    }
                }
            }
        }
        i = i + 1;
    }
}

/// Moves the journal start to the first transaction still queued, or to
/// the log position when none is, and marks the superblock dirty.
pub fn update_journal_start(jbd_fs: &mut JbdFs, jbd_journal: &JbdJournal) -> (r: Result<()>)
    ensures
        r is Ok,
        swap32(final(jbd_fs).sb.start) == (if jbd_journal.cp_queue@.len() == 0 {
            jbd_journal.start
        } else {
            jbd_journal.cp_queue@[0].start_iblock
        }),
        final(jbd_fs).sb == (crate::journal::types::jbd_sb { start: final(jbd_fs).sb.start, ..old(jbd_fs).sb }),
        final(jbd_fs).inode == old(jbd_fs).inode,
        final(jbd_fs).dirty,
{
    if jbd_journal.checkpoint_queue_len() == 0 {
        let new_start = jbd_journal.start;
        jbd_fs.set_start(new_start);
    } else {
        let first_start = jbd_journal.cp_queue[0].start_iblock;
        jbd_fs.set_start(first_start);
    }
    Ok(())
}


/// Whether a checkpoint run, having checkpointed `processed` of at most
/// `limit` transactions, goes on with the front of the queue: there is
/// one, it is checkpointable, and the limit is not reached. The queue is
/// taken in order: the run stops at the first transaction that cannot be
/// checkpointed.
pub fn checkpoint_continues(jbd_journal: &JbdJournal, processed: usize, limit: usize) -> (r: bool)
    ensures
        r == (processed < limit && jbd_journal.cp_queue@.len() > 0 && jbd_journal.cp_queue@[0].error == 0),
{
    if processed >= limit {
        return false;
    }
    if jbd_journal.cp_queue.len() == 0 {
        return false;
    }
    is_transaction_checkpointable(&jbd_journal.cp_queue[0])
}

/// Ends a checkpoint run that checkpointed `completed` transactions: when
/// any was, the journal start moves past them (`update_journal_start`);
/// otherwise nothing changes.
pub fn finish_checkpoint(jbd_fs: &mut JbdFs, jbd_journal: &JbdJournal, completed: usize) -> (r: Result<()>)
    ensures
        r is Ok,
        completed == 0 ==> *final(jbd_fs) == *old(jbd_fs),
        completed > 0 ==> swap32(final(jbd_fs).sb.start) == (if jbd_journal.cp_queue@.len() == 0 {
            jbd_journal.start
        } else {
            jbd_journal.cp_queue@[0].start_iblock
        }) && final(jbd_fs).sb == (crate::journal::types::jbd_sb { start: final(jbd_fs).sb.start, ..old(jbd_fs).sb })
            && final(jbd_fs).inode == old(jbd_fs).inode && final(jbd_fs).dirty,
{
    if completed > 0 {
        let _ = update_journal_start(jbd_fs, jbd_journal);
    }
    Ok(())
}

/// Whether a forced checkpoint round made progress: `InvalidState` when
/// the queue is no shorter than the `before` transactions it held.
pub fn check_checkpoint_progress(jbd_journal: &JbdJournal, before: usize) -> (r: Result<()>)
    ensures
        jbd_journal.cp_queue@.len() < before <==> r is Ok,
        r matches Err(e) ==> e.spec_kind() == crate::error::ErrorKind::InvalidState,
{
    if jbd_journal.cp_queue.len() >= before {
        Err(crate::error::Error::new(crate::error::ErrorKind::InvalidState, "Checkpoint queue not progressing"))
    } else {
        Ok(())
    }
}

} // verus!
