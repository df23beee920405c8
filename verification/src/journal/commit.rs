//! Commit bookkeeping: log space for a transaction, and the contents of its
//! descriptor, commit and revoke blocks.
//!
//! Writing the blocks is device I/O; callers reserve the space with
//! `commit_transaction`, fill and write the descriptor, data and commit
//! blocks, and then call `finish_commit`.

use vstd::prelude::*;
use crate::bytes::{be32, push_u32_be, zeros, lemma_le32_zero, lemma_le32_seq_zero, be32_at, push_u32_le, le32, swap16, swap32, swap_bytes_u16, swap_bytes_u32, write_bytes_at, write_u32_le};
use crate::error::{Error, ErrorKind, Result};
use crate::journal::checksum::{calculate_commit_csum, calculate_descriptor_csum, calculate_revoke_csum, spec_header_csum};
use crate::journal::jbd_fs::JbdFs;
use crate::journal::jbd_journal::JbdJournal;
use crate::journal::jbd_trans::JbdTrans;
use crate::journal::types::{
    jbd_bhdr, jbd_block_tag, jbd_commit_header, jbd_revoke_header, JBD_CHECKSUM_BYTES,
    JBD_COMMIT_BLOCK, JBD_DESCRIPTOR_BLOCK, JBD_FEATURE_INCOMPAT_CSUM_V2,
    JBD_FEATURE_INCOMPAT_CSUM_V3, JBD_FLAG_LAST_TAG, JBD_REVOKE_BLOCK,
};
use crate::journal::JournalError;

verus! {

/// Descriptor blocks for `data_blocks` tags of 12 bytes after a 12-byte
/// header.
pub open spec fn spec_commit_descriptor_blocks(data_blocks: u32, block_size: u32) -> int {
    let per_block = (block_size - 12) / 12int;
    (data_blocks + per_block - 1) / per_block
}

/// Descriptor blocks for `data_blocks` tags.
pub fn calculate_descriptor_blocks(data_blocks: u32, block_size: u32) -> (r: u32)
    requires
        block_size >= 24,
        data_blocks + (block_size - 12) / 12int <= u32::MAX,
    ensures
        r == spec_commit_descriptor_blocks(data_blocks, block_size),
{
    let tags_per_block = (block_size - 12) / 12;
    (data_blocks + tags_per_block - 1) / tags_per_block
}

/// Log blocks a transaction needs: descriptors, data and one commit block.
pub open spec fn spec_commit_blocks(trans: &JbdTrans, block_size: u32) -> int {
    let n = trans.buf_queue@.len() as u32;
    spec_commit_descriptor_blocks(n, block_size) + n + 1
}

/// Commits a transaction to the log's bookkeeping: nothing for an empty
/// one (`Ok(None)`); `NoSpace`, with nothing changed, when the log has too
/// little room; otherwise the space is reserved (its first block is
/// returned and recorded in the transaction with the count) and the
/// journal superblock moves to the next sequence number and is marked
/// dirty. The caller writes the descriptor, data and commit blocks of the
/// record under the sequence number the superblock held before the call.
pub fn commit_transaction(jbd_fs: &mut JbdFs, jbd_journal: &mut JbdJournal, trans: &mut JbdTrans) -> (r:
    Result<Option<u32>>)
    requires
        old(jbd_journal).spec_space_ok(),
        swap32(old(jbd_fs).sb.blocksize) >= 24,
        old(trans).buf_queue@.len() > 0 ==> spec_commit_blocks(old(trans), swap32(old(jbd_fs).sb.blocksize))
            + (swap32(old(jbd_fs).sb.blocksize) - 12) / 12int <= i32::MAX,
        old(trans).buf_queue@.len() > 0 && spec_commit_blocks(old(trans), swap32(old(jbd_fs).sb.blocksize))
            <= old(jbd_journal).spec_available() ==> swap32(old(jbd_fs).sb.sequence) < u32::MAX,
    ensures
        ({
            let committed = old(trans).buf_queue@.len() > 0 && spec_commit_blocks(old(trans), swap32(
                old(jbd_fs).sb.blocksize)) <= old(jbd_journal).spec_available();
            &&& committed ==> swap32(final(jbd_fs).sb.sequence) == swap32(old(jbd_fs).sb.sequence) + 1
                && final(jbd_fs).sb == (crate::journal::types::jbd_sb { sequence: final(jbd_fs).sb.sequence, ..old(jbd_fs).sb })
                && final(jbd_fs).inode == old(jbd_fs).inode
                && final(jbd_fs).dirty
            &&& !committed ==> *final(jbd_fs) == *old(jbd_fs)
        }),
        old(trans).buf_queue@.len() == 0 ==> r == Ok::<Option<u32>, Error>(None) && *final(trans)
            == *old(trans) && final(jbd_journal).start == old(jbd_journal).start,
        old(trans).buf_queue@.len() > 0 ==> ({
            let total = spec_commit_blocks(old(trans), swap32(old(jbd_fs).sb.blocksize));
            if total > old(jbd_journal).spec_available() {
                r matches Err(e) && e.spec_kind() == ErrorKind::NoSpace && final(
                    jbd_journal).start == old(jbd_journal).start && *final(trans) == *old(trans)
            } else {
                &&& r == Ok::<Option<u32>, Error>(Some(old(jbd_journal).start))
                &&& final(trans).start_iblock == old(jbd_journal).start
                &&& final(trans).alloc_blocks == total
                &&& final(trans).buf_queue@ == old(trans).buf_queue@
                &&& final(trans).trans_id == old(trans).trans_id
                &&& final(jbd_journal).start == (if old(jbd_journal).start + total >= old(
                    jbd_journal).last {
                    old(jbd_journal).first + (old(jbd_journal).start + total - old(jbd_journal).last)
                } else {
                    old(jbd_journal).start + total
                })
            }
        }),
        final(jbd_journal).first == old(jbd_journal).first,
        final(jbd_journal).last == old(jbd_journal).last,
        final(jbd_journal).trans_id == old(jbd_journal).trans_id,
        final(jbd_journal).alloc_trans_id == old(jbd_journal).alloc_trans_id,
        final(jbd_journal).block_size == old(jbd_journal).block_size,
        final(jbd_journal).cp_queue@ == old(jbd_journal).cp_queue@,
        final(jbd_journal).block_rec_root@ == old(jbd_journal).block_rec_root@,
        *final(trans) == (JbdTrans {
            start_iblock: final(trans).start_iblock,
            alloc_blocks: final(trans).alloc_blocks,
            ..*old(trans)
        }),
{
    if trans.buffer_count() == 0 {
        return Ok(None);
    }
    let data_blocks = trans.buffer_count() as u32;
    let descriptor_blocks = calculate_descriptor_blocks(data_blocks, jbd_fs.block_size());
    let total_blocks = descriptor_blocks + data_blocks + 1;
    if !jbd_journal.has_space(total_blocks) {
        return Err(JournalError::NoSpace.to_error());
    }
    let journal_start = match jbd_journal.allocate_blocks(total_blocks) {
        Some(s) => s,
        None => { return Err(JournalError::NoSpace.to_error()); },
    };
    trans.start_iblock = journal_start;
    trans.alloc_blocks = total_blocks as i32;
    finish_commit(jbd_fs);
    Ok(Some(journal_start))
}

/// `commit_transaction` under its other name.
pub fn trans_commit(jbd_fs: &mut JbdFs, jbd_journal: &mut JbdJournal, trans: &mut JbdTrans) -> (r:
    Result<Option<u32>>)
    requires
        old(jbd_journal).spec_space_ok(),
        swap32(old(jbd_fs).sb.blocksize) >= 24,
        old(trans).buf_queue@.len() > 0 ==> spec_commit_blocks(old(trans), swap32(old(jbd_fs).sb.blocksize))
            + (swap32(old(jbd_fs).sb.blocksize) - 12) / 12int <= i32::MAX,
        old(trans).buf_queue@.len() > 0 && spec_commit_blocks(old(trans), swap32(old(jbd_fs).sb.blocksize))
            <= old(jbd_journal).spec_available() ==> swap32(old(jbd_fs).sb.sequence) < u32::MAX,
    ensures
        ({
            let committed = old(trans).buf_queue@.len() > 0 && spec_commit_blocks(old(trans), swap32(
                old(jbd_fs).sb.blocksize)) <= old(jbd_journal).spec_available();
            &&& committed ==> swap32(final(jbd_fs).sb.sequence) == swap32(old(jbd_fs).sb.sequence) + 1
                && final(jbd_fs).sb == (crate::journal::types::jbd_sb { sequence: final(jbd_fs).sb.sequence, ..old(jbd_fs).sb })
                && final(jbd_fs).inode == old(jbd_fs).inode
                && final(jbd_fs).dirty
            &&& !committed ==> *final(jbd_fs) == *old(jbd_fs)
        }),
        old(trans).buf_queue@.len() == 0 ==> r == Ok::<Option<u32>, Error>(None) && *final(trans)
            == *old(trans) && final(jbd_journal).start == old(jbd_journal).start,
        old(trans).buf_queue@.len() > 0 ==> ({
            let total = spec_commit_blocks(old(trans), swap32(old(jbd_fs).sb.blocksize));
            if total > old(jbd_journal).spec_available() {
                r matches Err(e) && e.spec_kind() == ErrorKind::NoSpace && final(
                    jbd_journal).start == old(jbd_journal).start && *final(trans) == *old(trans)
            } else {
                &&& r == Ok::<Option<u32>, Error>(Some(old(jbd_journal).start))
                &&& final(trans).start_iblock == old(jbd_journal).start
                &&& final(trans).alloc_blocks == total
                &&& final(trans).buf_queue@ == old(trans).buf_queue@
                &&& final(trans).trans_id == old(trans).trans_id
                &&& final(jbd_journal).start == (if old(jbd_journal).start + total >= old(
                    jbd_journal).last {
                    old(jbd_journal).first + (old(jbd_journal).start + total - old(jbd_journal).last)
                } else {
                    old(jbd_journal).start + total
                })
            }
        }),
        final(jbd_journal).first == old(jbd_journal).first,
        final(jbd_journal).last == old(jbd_journal).last,
        final(jbd_journal).trans_id == old(jbd_journal).trans_id,
        final(jbd_journal).alloc_trans_id == old(jbd_journal).alloc_trans_id,
        final(jbd_journal).block_size == old(jbd_journal).block_size,
        final(jbd_journal).cp_queue@ == old(jbd_journal).cp_queue@,
        final(jbd_journal).block_rec_root@ == old(jbd_journal).block_rec_root@,
        *final(trans) == (JbdTrans {
            start_iblock: final(trans).start_iblock,
            alloc_blocks: final(trans).alloc_blocks,
            ..*old(trans)
        }),
{
    commit_transaction(jbd_fs, jbd_journal, trans)
}

/// The next sequence number is expected and the superblock is dirty.
fn finish_commit(jbd_fs: &mut JbdFs)
    requires
        swap32(old(jbd_fs).sb.sequence) < u32::MAX,
    ensures
        swap32(final(jbd_fs).sb.sequence) == swap32(old(jbd_fs).sb.sequence) + 1,
        final(jbd_fs).sb == (crate::journal::types::jbd_sb { sequence: final(jbd_fs).sb.sequence, ..old(jbd_fs).sb }),
        final(jbd_fs).inode == old(jbd_fs).inode,
        final(jbd_fs).dirty,
{
    let new_sequence = jbd_fs.sequence() + 1;
    jbd_fs.set_sequence(new_sequence);
    jbd_fs.mark_dirty();
}

/// The tag of filesystem block `fs_lba`, flagged last when `last`.
pub open spec fn spec_tag(fs_lba: u64, last: bool) -> jbd_block_tag {
    jbd_block_tag {
        blocknr: swap32(fs_lba as u32),
        checksum: 0,
        flags: if last { swap16(JBD_FLAG_LAST_TAG) } else { 0 },
        blocknr_high: 0,
    }
}

/// Bytes of the tags of `lbas`, the final one flagged last when
/// `last_chunk`.
pub open spec fn spec_tags(lbas: Seq<u64>, n: nat, last_chunk: bool) -> Seq<u8>
    decreases n,
{
    if n == 0 {
        Seq::empty()
    } else {
        spec_tags(lbas, (n - 1) as nat, last_chunk) + spec_tag(
            lbas[n - 1],
            last_chunk && n == lbas.len(),
        ).spec_to_bytes()
    }
}

/// Twelve bytes per tag.
pub proof fn lemma_tags_len(lbas: Seq<u64>, n: nat, last_chunk: bool)
    ensures
        spec_tags(lbas, n, last_chunk).len() == 12 * n,
    decreases n,
{
    if n > 0 {
        lemma_tags_len(lbas, (n - 1) as nat, last_chunk);
    }
}

/// Header and tags of a descriptor block.
pub open spec fn spec_descriptor_prefix(sequence: u32, lbas: Seq<u64>, last_chunk: bool) -> Seq<u8> {
    jbd_bhdr {
        magic: swap32(crate::journal::types::JBD_MAGIC_NUMBER),
        blocktype: swap32(JBD_DESCRIPTOR_BLOCK),
        sequence: swap32(sequence),
    }.spec_to_bytes() + spec_tags(lbas, lbas.len(), last_chunk)
}

/// Whether the journal uses block checksums.
pub open spec fn spec_jbd_has_csum(jbd_fs: &JbdFs) -> bool {
    jbd_fs.sb.spec_has_incompat(JBD_FEATURE_INCOMPAT_CSUM_V2 | JBD_FEATURE_INCOMPAT_CSUM_V3)
}

/// A descriptor block buffer once filled: the header for `sequence` and
/// the tags of `lbas`, then the buffer's old bytes; with block checksums,
/// the last four bytes hold the checksum of what precedes them.
pub open spec fn spec_filled_descriptor(old_data: Seq<u8>, jbd_fs: &JbdFs, sequence: u32, lbas: Seq<u64>, last_chunk: bool, uuid: Seq<u8>) -> Seq<u8> {
    let prefix = spec_descriptor_prefix(sequence, lbas, last_chunk);
    let len = old_data.len();
    if spec_jbd_has_csum(jbd_fs) {
        let body = prefix + old_data.subrange(prefix.len() as int, len - 4);
        body + le32(swap32(spec_header_csum(uuid, body, 12)))
    } else {
        prefix + old_data.skip(prefix.len() as int)
    }
}

/// Fills a descriptor block buffer: the header for `sequence` and one tag
/// per filesystem block of `fs_lbas` (the last flagged when this is the
/// transaction's last descriptor), leaving the rest of the buffer as it
/// was; with block checksums, the tail holds the checksum of what precedes
/// it.
pub fn fill_descriptor_block(
    data: &mut [u8],
    jbd_fs: &JbdFs,
    sequence: u32,
    fs_lbas: &[u64],
    last_chunk: bool,
    uuid: &[u8; 16],
)
    requires
        12 + 12 * fs_lbas@.len() + (if spec_jbd_has_csum(jbd_fs) { 4int } else { 0 }) <= old(data)@.len(),
    ensures
        final(data)@.len() == old(data)@.len(),
        final(data)@ == spec_filled_descriptor(old(data)@, jbd_fs, sequence, fs_lbas@, last_chunk, uuid@),
{
    let mut prefix: Vec<u8> = Vec::new();
    let header = jbd_bhdr::new(JBD_DESCRIPTOR_BLOCK, sequence);
    header.push_bytes(&mut prefix);
    let n = fs_lbas.len();
    let mut i: usize = 0;
    while i < n
        invariant
            n == fs_lbas@.len(),
            i <= n,
            prefix@ == header.spec_to_bytes() + spec_tags(fs_lbas@, i as nat, last_chunk),
            header == (jbd_bhdr {
                magic: swap32(crate::journal::types::JBD_MAGIC_NUMBER),
                blocktype: swap32(JBD_DESCRIPTOR_BLOCK),
                sequence: swap32(sequence),
            }),
        decreases n - i,
    {
        let is_last = last_chunk && i + 1 == n;
        let lba = fs_lbas[i];
        let tag = jbd_block_tag {
            blocknr: swap_bytes_u32(lba as u32),
            checksum: 0,
            flags: if is_last { swap_bytes_u16(JBD_FLAG_LAST_TAG) } else { 0 },
            blocknr_high: 0,
        };
        assert(tag == spec_tag(fs_lbas@[i as int], last_chunk && i + 1 == fs_lbas@.len()));
        tag.push_bytes(&mut prefix);
        i = i + 1;
        assert(prefix@ =~= header.spec_to_bytes() + spec_tags(fs_lbas@, i as nat, last_chunk));
    }
    proof {
        lemma_tags_len(fs_lbas@, n as nat, last_chunk);
        assert(prefix@ == spec_descriptor_prefix(sequence, fs_lbas@, last_chunk));
    }
    write_bytes_at(data, 0, prefix.as_slice());
    assert(data@ =~= prefix@ + old(data)@.skip(prefix@.len() as int));
    if jbd_fs.has_incompat_feature(JBD_FEATURE_INCOMPAT_CSUM_V2 | JBD_FEATURE_INCOMPAT_CSUM_V3) {
        let tail_offset = data.len() - 4;
        let mut body: Vec<u8> = Vec::new();
        crate::bytes::push_range(&mut body, data, 0, tail_offset);
        let csum = calculate_descriptor_csum(uuid, body.as_slice());
        let ghost before = data@;
        write_u32_le(data, tail_offset, swap_bytes_u32(csum));
        assert(body@ =~= prefix@ + old(data)@.subrange(prefix@.len() as int, old(data)@.len() - 4));
        assert(data@ =~= body@ + le32(swap32(csum)));
    }
}

/// Tags that fit in one descriptor block: the block less its 12-byte
/// header and, with block checksums, its 4-byte tail, in 12-byte tags.
pub open spec fn spec_tags_per_descriptor(jbd_fs: &JbdFs) -> int {
    let bs = swap32(jbd_fs.sb.blocksize);
    (bs - 12 - (if spec_jbd_has_csum(jbd_fs) { 4int } else { 0 })) / 12
}

/// One descriptor block of a transaction's log record: the log block it
/// goes to, and the run of the transaction's buffers it describes, whose
/// data blocks follow it in the log.
#[derive(Debug, Clone, Copy)]
pub struct DescriptorChunk {
    /// Log block of the descriptor.
    pub desc_jblock: u32,
    /// Index of the first buffer it describes.
    pub first: usize,
    /// Number of buffers it describes.
    pub count: usize,
    /// Whether it is the record's last descriptor (its last tag is flagged).
    pub last: bool,
}

/// The `k`-th descriptor of a record of `n` buffers starting at log block
/// `start`, with `tpb` tags per descriptor, out of `total` descriptors.
pub open spec fn spec_chunk(c: DescriptorChunk, k: int, tpb: int, n: int, total: int, start: u32) -> bool {
    &&& c.first == k * tpb
    &&& c.count == (if n - k * tpb < tpb { n - k * tpb } else { tpb })
    &&& c.desc_jblock == start + k * tpb + k
    &&& c.last == (k + 1 == total)
}

proof fn lemma_chunk_total(n: int, tpb: int, k: int)
    by (nonlinear_arith)
    requires
        tpb >= 1,
        n >= 0,
        k >= 0,
        k * tpb >= n,
        k == 0 || (k - 1) * tpb < n,
    ensures
        k == (n + tpb - 1) / tpb,
{
}

proof fn lemma_chunk_bounds(n: int, tpb: int)
    by (nonlinear_arith)
    requires
        tpb >= 1,
        n >= 0,
    ensures
        ((n + tpb - 1) / tpb) * tpb >= n,
        (n + tpb - 1) / tpb == 0 || ((n + tpb - 1) / tpb - 1) * tpb < n,
{
}

proof fn lemma_chunk_last(n: int, tpb: int, j: int, total: int)
    by (nonlinear_arith)
    requires
        tpb >= 1,
        0 <= j,
        j * tpb < n,
        total * tpb >= n,
        total == 0 || (total - 1) * tpb < n,
    ensures
        (n - j * tpb <= tpb) == (j + 1 == total),
        j < total,
{
}

/// Lays out the log record of a transaction of `n_buffers` buffers from
/// log block `start_jblock`: one descriptor per run of as many buffers as
/// its tags can describe, each followed by the data blocks of its run;
/// returns the descriptors and the log block of the commit block after
/// them.
pub fn plan_descriptor_chunks(jbd_fs: &JbdFs, n_buffers: usize, start_jblock: u32) -> (r: (Vec<DescriptorChunk>, u32))
    requires
        spec_tags_per_descriptor(jbd_fs) >= 1,
        start_jblock + n_buffers + (n_buffers + spec_tags_per_descriptor(jbd_fs) - 1)
            / spec_tags_per_descriptor(jbd_fs) <= u32::MAX,
    ensures
        ({
            let tpb = spec_tags_per_descriptor(jbd_fs);
            &&& r.0@.len() == (n_buffers + tpb - 1) / tpb
            &&& forall|k: int| 0 <= k < r.0@.len() ==> #[trigger] spec_chunk(r.0@[k], k, tpb,
                n_buffers as int, r.0@.len() as int, start_jblock)
            &&& r.1 == start_jblock + n_buffers + r.0@.len()
        }),
{
    let bs = jbd_fs.block_size();
    let has_csum = jbd_fs.has_incompat_feature(JBD_FEATURE_INCOMPAT_CSUM_V2 | JBD_FEATURE_INCOMPAT_CSUM_V3);
    let avail: u32 = if has_csum { bs - 16 } else { bs - 12 };
    let tpb: u64 = (avail / 12) as u64;
    let n: u64 = n_buffers as u64;
    let ghost tpbi = spec_tags_per_descriptor(jbd_fs);
    let ghost total = (n_buffers + tpbi - 1) / tpbi;
    assert(tpb == tpbi);
    proof {
        lemma_chunk_bounds(n_buffers as int, tpbi);
    }
    let mut chunks: Vec<DescriptorChunk> = Vec::new();
    let mut k: u64 = 0;
    let mut first: u64 = 0;
    while first < n
        invariant
            tpb == tpbi,
            1 <= tpb < 0x1_0000_0000,
            n == n_buffers,
            total == (n_buffers + tpbi - 1) / tpbi,
            total * tpb >= n,
            total == 0 || (total - 1) * tpb < n,
            start_jblock + n_buffers + total <= u32::MAX,
            first == k * tpb,
            chunks@.len() == k,
            k == 0 || (k - 1) * tpb < n,
            n < 0x1_0000_0000,
            forall|j: int| 0 <= j < k ==> #[trigger] spec_chunk(chunks@[j], j, tpbi,
                n_buffers as int, total, start_jblock),
        decreases n + tpb - first,
    {
        proof {
            lemma_chunk_last(n as int, tpb as int, k as int, total);
        }
        let rem = n - first;
        let count = if rem < tpb { rem } else { tpb };
        let desc = start_jblock + first as u32 + k as u32;
        let c = DescriptorChunk {
            desc_jblock: desc,
            first: first as usize,
            count: count as usize,
            last: rem <= tpb,
        };
        chunks.push(c);
        assert(spec_chunk(chunks@[k as int], k as int, tpbi, n_buffers as int, total, start_jblock));
        proof {
            assert((k + 1) * tpb == k * tpb + tpb) by (nonlinear_arith);
        }
        first = first + tpb;
        k = k + 1;
    }
    proof {
        lemma_chunk_total(n as int, tpb as int, k as int);
    }
    let next = start_jblock + n_buffers as u32 + k as u32;
    (chunks, next)
}

/// The record laid out by `plan_descriptor_chunks` has as many descriptors
/// as `commit_transaction` reserved room for, so its commit block is the
/// last reserved block: without block checksums always, and with them
/// whenever the block size leaves at least 4 bytes over after the header
/// and whole tags (every power-of-two size does).
pub proof fn lemma_plan_matches_reservation(jbd_fs: &JbdFs, n_buffers: u32)
    requires
        swap32(jbd_fs.sb.blocksize) >= 28,
        spec_jbd_has_csum(jbd_fs) ==> (swap32(jbd_fs.sb.blocksize) - 12) % 12 >= 4,
    ensures
        (n_buffers + spec_tags_per_descriptor(jbd_fs) - 1) / spec_tags_per_descriptor(jbd_fs)
            == spec_commit_descriptor_blocks(n_buffers, swap32(jbd_fs.sb.blocksize)),
{
    let bs = swap32(jbd_fs.sb.blocksize);
    assert(spec_tags_per_descriptor(jbd_fs) == (bs - 12) / 12int);
}

/// Filesystem blocks of a transaction's buffers, in log order: what its
/// descriptor tags name.
pub fn transaction_fs_lbas(trans: &JbdTrans) -> (r: Vec<u64>)
    ensures
        r@.len() == trans.buf_queue@.len(),
        forall|i: int| 0 <= i < r@.len() ==> r@[i] == #[trigger] trans.buf_queue@[i].fs_lba,
{
    let mut out: Vec<u64> = Vec::new();
    let n = trans.buf_queue.len();
    let mut i: usize = 0;
    while i < n
        invariant
            n == trans.buf_queue@.len(),
            i <= n,
            out@.len() == i,
            forall|j: int| 0 <= j < i ==> out@[j] == #[trigger] trans.buf_queue@[j].fs_lba,
        decreases n - i,
    {
        out.push(trans.buf_queue[i].fs_lba);
        i = i + 1;
    }
    out
}

/// Bytes of the commit header for `sequence`: checksum type and size set
/// when block checksums are on, no checksum yet, zero time.
pub open spec fn spec_commit_header(sequence: u32, has_csum: bool) -> Seq<u8> {
    jbd_bhdr {
        magic: swap32(crate::journal::types::JBD_MAGIC_NUMBER),
        blocktype: swap32(JBD_COMMIT_BLOCK),
        sequence: swap32(sequence),
    }.spec_to_bytes() + seq![if has_csum { 1u8 } else { 0u8 }, if has_csum { 4u8 } else { 0u8 }]
        + zeros(46)
}

/// Fills a commit block buffer: the commit header for `sequence` over the
/// first 60 bytes; with block checksums, checksum type 1 and size 4, and
/// the first checksum slot holding the checksum of the whole block as it
/// was with that slot zero.
pub fn fill_commit_block(data: &mut [u8], jbd_fs: &JbdFs, sequence: u32, uuid: &[u8; 16])
    requires
        old(data)@.len() >= 60,
    ensures
        final(data)@.len() == old(data)@.len(),
        ({
            let block = spec_commit_header(sequence, spec_jbd_has_csum(jbd_fs)) + old(data)@.skip(60);
            if spec_jbd_has_csum(jbd_fs) {
                final(data)@ == block.take(16) + le32(swap32(spec_header_csum(uuid@, block, 60)))
                    + block.skip(20)
            } else {
                final(data)@ == block
            }
        }),
{
    let has_csum = jbd_fs.has_incompat_feature(
        JBD_FEATURE_INCOMPAT_CSUM_V2 | JBD_FEATURE_INCOMPAT_CSUM_V3,
    );
    let header = jbd_commit_header {
        header: jbd_bhdr::new(JBD_COMMIT_BLOCK, sequence),
        chksum_type: if has_csum { 1 } else { 0 },
        chksum_size: if has_csum { 4 } else { 0 },
        padding: [0u8; 2],
        chksum: [0u32; JBD_CHECKSUM_BYTES],
        commit_sec: 0,
        commit_nsec: 0,
    };
    let bytes = header.to_bytes();
    proof {
        lemma_le32_seq_zero(header.chksum@);
        lemma_le32_zero();
        assert(header.padding@ =~= zeros(2));
        assert(header.spec_to_bytes() =~= spec_commit_header(sequence, has_csum));
    }
    write_bytes_at(data, 0, bytes.as_slice());
    assert(data@ =~= spec_commit_header(sequence, has_csum) + old(data)@.skip(60));
    if has_csum {
        let csum = calculate_commit_csum(uuid, data);
        let ghost block = data@;
        write_u32_le(data, 16, swap_bytes_u32(csum));
        assert(data@ =~= block.take(16) + le32(swap32(csum)) + block.skip(20));
    }
}


/// Big-endian bytes of a `u64`.
pub open spec fn spec_be64(x: u64) -> Seq<u8> {
    be32((x >> 32u64) as u32) + be32((x & 0xffff_ffff) as u32)
}

/// Big-endian bytes of the first `n` revoked blocks.
pub open spec fn spec_revoke_records(lbas: Seq<u64>, n: nat) -> Seq<u8>
    decreases n,
{
    if n == 0 {
        Seq::empty()
    } else {
        spec_revoke_records(lbas, (n - 1) as nat) + spec_be64(lbas[n - 1])
    }
}

proof fn lemma_revoke_records_len(lbas: Seq<u64>, n: nat)
    ensures
        spec_revoke_records(lbas, n).len() == 8 * n,
    decreases n,
{
    if n > 0 {
        lemma_revoke_records_len(lbas, (n - 1) as nat);
    }
}

/// Header of a revoke block for `sequence` counting the blocks, then the
/// revoked blocks.
pub open spec fn spec_revoke_prefix(sequence: u32, lbas: Seq<u64>) -> Seq<u8> {
    jbd_revoke_header {
        header: jbd_bhdr {
            magic: swap32(crate::journal::types::JBD_MAGIC_NUMBER),
            blocktype: swap32(JBD_REVOKE_BLOCK),
            sequence: swap32(sequence),
        },
        count: swap32(lbas.len() as u32),
    }.spec_to_bytes() + spec_revoke_records(lbas, lbas.len())
}

/// A revoke block buffer once filled: the header and the revoked blocks,
/// then the buffer's old bytes; with block checksums, the last four bytes
/// hold the checksum of what precedes them.
pub open spec fn spec_filled_revoke(old_data: Seq<u8>, jbd_fs: &JbdFs, sequence: u32, lbas: Seq<u64>, uuid: Seq<u8>) -> Seq<u8> {
    let prefix = spec_revoke_prefix(sequence, lbas);
    let len = old_data.len();
    if spec_jbd_has_csum(jbd_fs) {
        let body = prefix + old_data.subrange(prefix.len() as int, len - 4);
        body + le32(swap32(spec_header_csum(uuid, body, 16)))
    } else {
        prefix + old_data.skip(prefix.len() as int)
    }
}

/// Fills a revoke block buffer for `sequence` with the revoked blocks
/// `lbas` (in ascending order), each as a big-endian 64-bit number after
/// the header with their count; with block checksums, the tail holds the
/// checksum of what precedes it.
pub fn fill_revoke_block(data: &mut [u8], jbd_fs: &JbdFs, sequence: u32, lbas: &[u64], uuid: &[u8; 16])
    requires
        16 + 8 * lbas@.len() + (if spec_jbd_has_csum(jbd_fs) { 4int } else { 0 }) <= old(data)@.len(),
    ensures
        final(data)@.len() == old(data)@.len(),
        final(data)@ == spec_filled_revoke(old(data)@, jbd_fs, sequence, lbas@, uuid@),
{
    let mut prefix: Vec<u8> = Vec::new();
    let header = jbd_revoke_header {
        header: jbd_bhdr::new(JBD_REVOKE_BLOCK, sequence),
        count: swap_bytes_u32(lbas.len() as u32),
    };
    header.push_bytes(&mut prefix);
    let n = lbas.len();
    let mut i: usize = 0;
    while i < n
        invariant
            n == lbas@.len(),
            i <= n,
            prefix@ == header.spec_to_bytes() + spec_revoke_records(lbas@, i as nat),
        decreases n - i,
    {
        let lba = lbas[i];
        push_u32_be(&mut prefix, (lba >> 32u64) as u32);
        push_u32_be(&mut prefix, (lba & 0xffff_ffff) as u32);
        i = i + 1;
        assert(prefix@ =~= header.spec_to_bytes() + spec_revoke_records(lbas@, i as nat));
    }
    proof {
        lemma_revoke_records_len(lbas@, n as nat);
        assert(prefix@ == spec_revoke_prefix(sequence, lbas@));
    }
    write_bytes_at(data, 0, prefix.as_slice());
    assert(data@ =~= prefix@ + old(data)@.skip(prefix@.len() as int));
    if jbd_fs.has_incompat_feature(JBD_FEATURE_INCOMPAT_CSUM_V2 | JBD_FEATURE_INCOMPAT_CSUM_V3) {
        let tail_offset = data.len() - 4;
        let mut body: Vec<u8> = Vec::new();
        crate::bytes::push_range(&mut body, data, 0, tail_offset);
        let csum = calculate_revoke_csum(uuid, body.as_slice());
        write_u32_le(data, tail_offset, swap_bytes_u32(csum));
        assert(body@ =~= prefix@ + old(data)@.subrange(prefix@.len() as int, old(data)@.len() - 4));
        assert(data@ =~= body@ + le32(swap32(csum)));
    }
}

} // verus!
