//! Journal recovery: scanning the log from its start, collecting the
//! blocks of each transaction found, and moving the log start past them.
//!
//! Reading log blocks and replaying them is device I/O; callers feed each
//! block read to `scan_step` until it says to stop, replay the collected
//! transactions, then call `finish_recovery`.

use vstd::prelude::*;
use crate::bytes::{be16_at, be32_at, le16, le32, read_u16_be, read_u32_be, swap16, swap32};
use crate::journal::commit::{
    lemma_tags_len, spec_descriptor_prefix, spec_filled_descriptor, spec_jbd_has_csum, spec_tag, spec_tags,
};
use crate::consts::{JBD_BLOCKTYPE_COMMIT, JBD_BLOCKTYPE_DESCRIPTOR, JBD_BLOCKTYPE_REVOKE};
use crate::journal::checkpoint::{spec_advance, spec_next_block, next_journal_block};
use crate::journal::jbd_fs::JbdFs;
use crate::journal::types::{JBD_FLAG_LAST_TAG, JBD_MAGIC_NUMBER};

verus! {

/// A logged block: where it lies in the log and where it belongs.
#[derive(Debug, Clone, Copy)]
pub struct BlockRecord {
    /// Log block holding the data.
    pub journal_block: u32,
    /// Filesystem block the data belongs to.
    pub fs_block: u64,
}

/// A transaction found in the log.
#[derive(Debug)]
pub struct TransactionInfo {
    /// Its sequence number.
    pub sequence: u32,
    /// Its descriptor block.
    pub start_block: u32,
    /// Its logged blocks.
    pub blocks: Vec<BlockRecord>,
}

/// Progress of a log scan.
#[derive(Debug)]
pub struct ScanState {
    /// Log block to read next.
    pub current_block: u32,
    /// Sequence number expected next.
    pub sequence: u32,
    /// Transactions found so far whose commit block was seen: the ones to
    /// replay.
    pub transactions: Vec<TransactionInfo>,
    /// Descriptors of the current sequence number whose commit block has
    /// not been seen yet; dropped if the scan ends before it.
    pub pending: Vec<TransactionInfo>,
}

/// The log block after `current`, wrapping from the end to `first`.
pub fn next_block(current: u32, first: u32, max_len: u32) -> (r: u32)
    requires
        current < u32::MAX,
        first + max_len <= u32::MAX,
    ensures
        r == spec_next_block(current, first, max_len),
{
    next_journal_block(current, first, max_len)
}

/// The log parameters: first block and length, in host order.
pub open spec fn spec_log_ok(jbd_fs: &JbdFs) -> bool {
    swap32(jbd_fs.sb.first) + swap32(jbd_fs.sb.maxlen) < u32::MAX
}

/// Whether tag `i` of a descriptor block is flagged as the last one.
pub open spec fn spec_tag_is_last(data: Seq<u8>, i: int) -> bool {
    be16_at(data, 12 + 12 * i + 6) & JBD_FLAG_LAST_TAG != 0
}

/// What a scan of descriptor block `desc_block`, read into `data`,
/// returns: the transaction with its logged blocks and the log block
/// after them.
pub open spec fn spec_scan_result(jbd_fs: &JbdFs, desc_block: u32, sequence: u32, data: Seq<u8>, r: (TransactionInfo, u32)) -> bool {
    let first = swap32(jbd_fs.sb.first);
    let max_len = swap32(jbd_fs.sb.maxlen);
    let bs = swap32(jbd_fs.sb.blocksize);
    let n = r.0.blocks@.len();
    let s1 = spec_next_block(desc_block, first, max_len);
    &&& r.0.sequence == sequence
    &&& r.0.start_block == desc_block
    &&& n <= bs / 12
    &&& forall|i: int| 0 <= i < n ==> #[trigger] r.0.blocks@[i].fs_block == be32_at(data, 12 + 12 * i) as u64
    &&& forall|i: int| 0 <= i < n - 1 ==> !#[trigger] spec_tag_is_last(data, i)
    &&& (n > 0 && spec_tag_is_last(data, n - 1)) || 12 + 12 * n + 12 > bs
    &&& forall|i: int| 0 <= i < n ==> #[trigger] r.0.blocks@[i].journal_block == spec_advance(s1, i as nat, first, max_len)
    &&& r.1 == spec_advance(s1, n, first, max_len)
    &&& r.1 < u32::MAX
}

/// The bytes of tag `i` among the tags of `lbas`.
proof fn lemma_tag_at(lbas: Seq<u64>, n: nat, last_chunk: bool, i: int)
    requires
        0 <= i < n,
    ensures
        spec_tags(lbas, n, last_chunk).subrange(12 * i, 12 * i + 12) == spec_tag(
            lbas[i],
            last_chunk && i + 1 == lbas.len(),
        ).spec_to_bytes(),
    decreases n,
{
    lemma_tags_len(lbas, (n - 1) as nat, last_chunk);
    let prev = spec_tags(lbas, (n - 1) as nat, last_chunk);
    let t = spec_tag(lbas[n - 1], last_chunk && n == lbas.len()).spec_to_bytes();
    if i < n - 1 {
        lemma_tag_at(lbas, (n - 1) as nat, last_chunk, i);
        assert(spec_tags(lbas, n, last_chunk).subrange(12 * i, 12 * i + 12) =~= prev.subrange(12 * i, 12 * i + 12));
    } else {
        assert(spec_tags(lbas, n, last_chunk).subrange(12 * i, 12 * i + 12) =~= t);
    }
}

/// Reading big-endian what was stored little-endian after a swap gives the
/// value back.
proof fn lemma_be32_of_swapped(x: u32)
    ensures
        be32_at(le32(swap32(x)), 0) == x,
{
    let y = swap32(x);
    assert(((((y & 0xff) as u8) as u32) << 24u32 | ((((y >> 8u32) & 0xff) as u8) as u32) << 16u32
        | ((((y >> 16u32) & 0xff) as u8) as u32) << 8u32 | (((y >> 24u32) as u8) as u32)) == x)
        by (bit_vector)
        requires
            y == ((x & 0xff) << 24u32) | (((x >> 8u32) & 0xff) << 16u32) | (((x >> 16u32) & 0xff) << 8u32) | (x >> 24u32),
    ;
}

/// Reading big-endian what was stored little-endian after a swap gives the
/// value back.
proof fn lemma_be16_of_swapped(x: u16)
    ensures
        be16_at(le16(swap16(x)), 0) == x,
{
    let y = swap16(x);
    assert(((((y & 0xff) as u8) as u16) << 8u16 | (((y >> 8u16) as u8) as u16)) == x) by (bit_vector)
        requires
            y == ((x & 0xff) << 8u16) | (x >> 8u16),
    ;
}

/// Tag `i` of a filled descriptor block, as the scan reads it: its
/// filesystem block and whether it is flagged last.
proof fn lemma_filled_tag(jbd_fs: &JbdFs, old_data: Seq<u8>, sequence: u32, lbas: Seq<u64>, uuid: Seq<u8>, i: int)
    requires
        0 <= i < lbas.len(),
        12 + 12 * lbas.len() + (if spec_jbd_has_csum(jbd_fs) { 4int } else { 0 }) <= old_data.len(),
    ensures
        be32_at(spec_filled_descriptor(old_data, jbd_fs, sequence, lbas, true, uuid), 12 + 12 * i) == lbas[i] as u32,
        spec_tag_is_last(spec_filled_descriptor(old_data, jbd_fs, sequence, lbas, true, uuid), i) == (i + 1 == lbas.len()),
{
    let d = spec_filled_descriptor(old_data, jbd_fs, sequence, lbas, true, uuid);
    let p = spec_descriptor_prefix(sequence, lbas, true);
    let n = lbas.len();
    lemma_tags_len(lbas, n, true);
    assert(p.len() == 12 + 12 * n);
    assert forall|k: int| 0 <= k < p.len() implies d[k] == p[k] by {
        if spec_jbd_has_csum(jbd_fs) {
            let body = p + old_data.subrange(p.len() as int, old_data.len() - 4);
            assert(d[k] == body[k]);
        }
    }
    lemma_tag_at(lbas, n, true, i);
    let last = i + 1 == n;
    let tag = spec_tag(lbas[i], last);
    let tb = tag.spec_to_bytes();
    assert(d.subrange(12 + 12 * i, 24 + 12 * i) =~= tb) by {
        assert forall|k: int| 0 <= k < 12 implies d[12 + 12 * i + k] == tb[k] by {
            assert(p[12 + 12 * i + k] == spec_tags(lbas, n, true)[12 * i + k]);
            assert(spec_tags(lbas, n, true).subrange(12 * i, 12 * i + 12)[k] == tb[k]);
        }
    }
    lemma_be32_of_swapped(lbas[i] as u32);
    assert(tb.subrange(0, 4) =~= le32(swap32(lbas[i] as u32)));
    assert(be32_at(d, 12 + 12 * i) == be32_at(le32(swap32(lbas[i] as u32)), 0)) by {
        assert(d[12 + 12 * i] == tb[0] && d[12 + 12 * i + 1] == tb[1] && d[12 + 12 * i + 2] == tb[2]
            && d[12 + 12 * i + 3] == tb[3]);
    }
    assert(tb.subrange(6, 8) =~= le16(tag.flags));
    assert(be16_at(d, 12 + 12 * i + 6) == be16_at(le16(tag.flags), 0)) by {
        assert(d[12 + 12 * i + 6] == tb[6] && d[12 + 12 * i + 7] == tb[7]);
    }
    if last {
        lemma_be16_of_swapped(JBD_FLAG_LAST_TAG);
        assert(JBD_FLAG_LAST_TAG & JBD_FLAG_LAST_TAG != 0) by (bit_vector);
    } else {
        assert(be16_at(le16(0u16), 0) == 0) by {
            assert(((0u16 & 0xff) as u8) == 0 && ((0u16 >> 8u16) as u8) == 0) by (bit_vector);
            assert((((0u8 as u16) << 8u16) | (0u8 as u16)) == 0) by (bit_vector);
        }
        assert(0u16 & JBD_FLAG_LAST_TAG == 0) by (bit_vector);
    }
}

/// Recovery reads back what commit wrote: scanning a descriptor block
/// filled with the blocks `lbas` of a transaction (its last descriptor)
/// finds exactly those blocks, in order.
pub proof fn lemma_descriptor_roundtrip(jbd_fs: &JbdFs, old_data: Seq<u8>, sequence: u32, lbas: Seq<u64>, uuid: Seq<u8>, desc_block: u32, r: (TransactionInfo, u32))
    requires
        lbas.len() > 0,
        forall|i: int| 0 <= i < lbas.len() ==> lbas[i] <= u32::MAX,
        12 + 12 * lbas.len() <= swap32(jbd_fs.sb.blocksize),
        12 + 12 * lbas.len() + (if spec_jbd_has_csum(jbd_fs) { 4int } else { 0 }) <= old_data.len(),
        spec_scan_result(jbd_fs, desc_block, sequence, spec_filled_descriptor(old_data, jbd_fs, sequence, lbas, true, uuid), r),
    ensures
        r.0.blocks@.len() == lbas.len(),
        forall|i: int| 0 <= i < lbas.len() ==> #[trigger] r.0.blocks@[i].fs_block == lbas[i],
{
    let d = spec_filled_descriptor(old_data, jbd_fs, sequence, lbas, true, uuid);
    let n = lbas.len() as int;
    let m = r.0.blocks@.len() as int;
    if m < n {
        if m > 0 {
            lemma_filled_tag(jbd_fs, old_data, sequence, lbas, uuid, m - 1);
        }
        assert(12 + 12 * m + 12 <= 12 + 12 * n);
    }
    if m > n {
        lemma_filled_tag(jbd_fs, old_data, sequence, lbas, uuid, n - 1);
        assert(!spec_tag_is_last(d, n - 1));
    }
    assert(m == n);
    assert forall|i: int| 0 <= i < lbas.len() implies #[trigger] r.0.blocks@[i].fs_block == lbas[i] by {
        lemma_filled_tag(jbd_fs, old_data, sequence, lbas, uuid, i);
        assert(r.0.blocks@[i].fs_block == be32_at(d, 12 + 12 * i) as u64);
    }
}

/// Reads the tags of descriptor block `desc_block` (read into `data`):
/// each tag, up to the one flagged last or the end of the block, maps the
/// next log block to a filesystem block. Returns the transaction and the
/// log block after its last data block.
pub fn scan_descriptor_block(jbd_fs: &JbdFs, desc_block: u32, sequence: u32, data: &[u8]) -> (r: (
    TransactionInfo,
    u32,
))
    requires
        spec_log_ok(jbd_fs),
        data@.len() >= swap32(jbd_fs.sb.blocksize),
        desc_block < u32::MAX,
    ensures
        spec_scan_result(jbd_fs, desc_block, sequence, data@, r),
{
    let first = jbd_fs.first();
    let max_len = jbd_fs.max_len();
    let block_size = jbd_fs.block_size() as usize;
    let mut blocks: Vec<BlockRecord> = Vec::new();
    let mut current_block = next_block(desc_block, first, max_len);
    let ghost s1 = current_block;
    let mut offset: usize = 12;
    let mut done = false;
    while !done && offset as u64 + 12 <= block_size as u64
        invariant
            first == swap32(jbd_fs.sb.first),
            max_len == swap32(jbd_fs.sb.maxlen),
            first + max_len < u32::MAX,
            block_size == swap32(jbd_fs.sb.blocksize),
            data@.len() >= block_size,
            offset == 12 + 12 * blocks@.len(),
            current_block < u32::MAX,
            offset <= block_size + 12,
            forall|i: int|
                0 <= i < blocks@.len() ==> #[trigger] blocks@[i].fs_block == be32_at(
                    data@,
                    12 + 12 * i,
                ) as u64,
            forall|i: int| 0 <= i < blocks@.len() - 1 ==> !#[trigger] spec_tag_is_last(data@, i),
            !done ==> (blocks@.len() > 0 ==> !spec_tag_is_last(data@, blocks@.len() - 1)),
            done ==> blocks@.len() > 0 && spec_tag_is_last(data@, blocks@.len() - 1),
            s1 == spec_next_block(desc_block, first, max_len),
            forall|i: int|
                0 <= i < blocks@.len() ==> #[trigger] blocks@[i].journal_block == spec_advance(
                    s1,
                    i as nat,
                    first,
                    max_len,
                ),
            current_block == spec_advance(s1, blocks@.len(), first, max_len),
        decreases block_size + 12 - offset,
    {
        let fs_block = read_u32_be(data, offset) as u64;
        let flags = read_u16_be(data, offset + 6);
        let ghost n0 = blocks@.len();
        blocks.push(BlockRecord { journal_block: current_block, fs_block });
        offset = offset + 12;
        current_block = next_block(current_block, first, max_len);
        assert(current_block == spec_advance(s1, n0 + 1, first, max_len));
        if (flags & JBD_FLAG_LAST_TAG) != 0 {
            done = true;
        }
    }
    (TransactionInfo { sequence, start_block: desc_block, blocks }, current_block)
}

/// Starts recovery: `None` when the log is empty (its start is its first
/// block), else a scan from the log start at the expected sequence.
pub fn recover_begin(jbd_fs: &JbdFs) -> (r: Option<ScanState>)
    ensures
        swap32(jbd_fs.sb.start) == swap32(jbd_fs.sb.first) ==> r is None,
        swap32(jbd_fs.sb.start) != swap32(jbd_fs.sb.first) ==> (r matches Some(s)
            && s.current_block == swap32(jbd_fs.sb.start) && s.sequence == swap32(
            jbd_fs.sb.sequence,
        ) && s.transactions@.len() == 0 && s.pending@.len() == 0),
{
    let start_block = jbd_fs.start();
    let first_block = jbd_fs.first();
    if start_block == first_block {
        return None;
    }
    Some(ScanState { current_block: start_block, sequence: jbd_fs.sequence(), transactions: Vec::new(), pending: Vec::new() })
}

/// One scan step on the log block `current_block` read into `data`:
/// stops (returns `false`) on a block without the magic number or with
/// another sequence number, or of unknown type; keeps a descriptor's
/// transaction (as `scan_descriptor_block` reads it) as pending and moves
/// past its data blocks; on the commit block of the sequence, moves the
/// pending transactions to the ones to replay and expects the next
/// sequence; skips a revoke block. Only committed transactions are ever
/// replayed. Also stops once more transactions than log blocks have been
/// found.
pub fn scan_step(state: &mut ScanState, jbd_fs: &JbdFs, data: &[u8]) -> (r: bool)
    requires
        spec_log_ok(jbd_fs),
        data@.len() >= swap32(jbd_fs.sb.blocksize),
        old(state).current_block < u32::MAX,
        old(state).sequence < u32::MAX,
    ensures
        final(state).current_block < u32::MAX,
        (data@.len() < 12 || be32_at(data@, 0) != JBD_MAGIC_NUMBER || be32_at(data@, 8)
            != old(state).sequence) ==> !r && *final(state) == *old(state),
        (data@.len() >= 12 && be32_at(data@, 0) == JBD_MAGIC_NUMBER && be32_at(data@, 8) == old(state).sequence) ==> ({
            let t = be32_at(data@, 4);
            let next = spec_next_block(
                old(state).current_block,
                swap32(jbd_fs.sb.first),
                swap32(jbd_fs.sb.maxlen),
            );
            let found = final(state).transactions@.len() + final(state).pending@.len();
            &&& t == JBD_BLOCKTYPE_COMMIT ==> final(state).current_block == next
                && final(state).sequence == old(state).sequence + 1
                && final(state).transactions@ == old(state).transactions@ + old(state).pending@
                && final(state).pending@.len() == 0
                && r == (found <= swap32(jbd_fs.sb.maxlen))
            &&& t == JBD_BLOCKTYPE_REVOKE ==> final(state).current_block == next
                && final(state).sequence == old(state).sequence
                && final(state).transactions@ == old(state).transactions@
                && final(state).pending@ == old(state).pending@
                && r == (found <= swap32(jbd_fs.sb.maxlen))
            &&& t == JBD_BLOCKTYPE_DESCRIPTOR ==> final(state).sequence == old(state).sequence
                && final(state).transactions@ == old(state).transactions@
                && final(state).pending@.len() == old(state).pending@.len() + 1
                && final(state).pending@.drop_last() == old(state).pending@
                && spec_scan_result(jbd_fs, old(state).current_block, old(state).sequence, data@,
                    (final(state).pending@.last(), final(state).current_block))
                && r == (found <= swap32(jbd_fs.sb.maxlen))
            &&& (t != JBD_BLOCKTYPE_COMMIT && t != JBD_BLOCKTYPE_REVOKE && t
                != JBD_BLOCKTYPE_DESCRIPTOR) ==> !r && *final(state) == *old(state)
        }),
{
    if data.len() < 12 {
        return false;
    }
    let magic = read_u32_be(data, 0);
    let blocktype = read_u32_be(data, 4);
    let seq = read_u32_be(data, 8);
    if magic != JBD_MAGIC_NUMBER || seq != state.sequence {
        return false;
    }
    let first = jbd_fs.first();
    let max_len = jbd_fs.max_len();
    if blocktype == JBD_BLOCKTYPE_DESCRIPTOR {
        let (info, next) = scan_descriptor_block(jbd_fs, state.current_block, state.sequence, data);
        state.pending.push(info);
        state.current_block = next;
    } else if blocktype == JBD_BLOCKTYPE_COMMIT {
        state.current_block = next_block(state.current_block, first, max_len);
        state.sequence = state.sequence + 1;
        let mut committed: Vec<TransactionInfo> = Vec::new();
        core::mem::swap(&mut committed, &mut state.pending);
        state.transactions.append(&mut committed);
    } else if blocktype == JBD_BLOCKTYPE_REVOKE {
        state.current_block = next_block(state.current_block, first, max_len);
    } else {
        return false;
    }
    let committed_count = state.transactions.len();
    let pending_count = state.pending.len();
    committed_count <= max_len as usize && pending_count <= max_len as usize - committed_count
}

/// Ends recovery: moves the log start to where the scan stopped and marks
/// the superblock dirty.
pub fn finish_recovery(jbd_fs: &mut JbdFs, state: &ScanState)
    ensures
        swap32(final(jbd_fs).sb.start) == state.current_block,
        final(jbd_fs).sb == (crate::journal::types::jbd_sb { start: final(jbd_fs).sb.start, ..old(jbd_fs).sb }),
        final(jbd_fs).inode == old(jbd_fs).inode,
        final(jbd_fs).dirty,
{
    jbd_fs.set_start(state.current_block);
    jbd_fs.mark_dirty();
}

} // verus!
