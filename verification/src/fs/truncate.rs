//! Changing a file's size. Growing only moves the size (the new range
//! reads as a hole); shrinking also leaves the block layer two jobs, which
//! `truncate_file` returns: zeroing the tail of the new last block, so old
//! bytes do not come back when the file grows again, and freeing the
//! blocks past the new end.

use vstd::prelude::*;
use crate::error::{Error, Result};
use crate::fs::filesystem::Ext4FileSystem;
use crate::fs::inode_ref::InodeRef;
use crate::types::ext4_inode;
use crate::fs::inode_io::spec_first_piece;
use crate::bytes::zeros;

verus! {

/// Part of a block: the bytes of logical block `block` from `offset` on.
#[derive(Debug, Clone, Copy, PartialEq, Eq, Structural)]
pub struct BlockTail {
    /// Logical block number.
    pub block: u32,
    /// First byte of the part.
    pub offset: usize,
}

/// Logical blocks `first` to `last`, both included.
#[derive(Debug, Clone, Copy, PartialEq, Eq, Structural)]
pub struct BlockRange {
    /// First block.
    pub first: u32,
    /// Last block.
    pub last: u32,
}

/// The block work a size change leaves.
#[derive(Debug, Clone, Copy, PartialEq, Eq, Structural)]
pub struct TruncatePlan {
    /// The logical block holding the new end of file and the offset in it
    /// from which its bytes are to be zeroed, when the new size is not a
    /// multiple of the block size.
    pub zero_tail: Option<BlockTail>,
    /// The logical blocks, first and last included, that no longer hold
    /// file data.
    pub free_range: Option<BlockRange>,
}

/// The block work of changing a file of `old_size` bytes to `new_size`
/// bytes with blocks of `bs` bytes: none when it does not shrink; when it
/// shrinks, the partial new last block's tail, and the blocks from the
/// first one past the new end to the one holding the old last byte.
pub open spec fn spec_truncate_plan(old_size: u64, new_size: u64, bs: u64) -> TruncatePlan {
    if new_size >= old_size {
        TruncatePlan { zero_tail: None, free_range: None }
    } else {
        let off = new_size % bs;
        let first: u32 = if new_size == 0 { 0 } else { ((new_size + bs - 1) / (bs as int)) as u32 };
        let last: u32 = if old_size == 0 { 0 } else { ((old_size - 1) / (bs as int)) as u32 };
        TruncatePlan {
            zero_tail: if new_size > 0 && off != 0 {
                Some(BlockTail { block: ((new_size - 1) / (bs as int)) as u32, offset: off as usize })
            } else {
                None
            },
            free_range: if first <= last { Some(BlockRange { first, last }) } else { None },
        }
    }
}

/// Computes the block work of a size change.
pub fn truncate_plan(old_size: u64, new_size: u64, bs: u64) -> (r: TruncatePlan)
    requires
        bs > 0,
        new_size < old_size ==> new_size + bs - 1 <= u64::MAX,
    ensures
        r == spec_truncate_plan(old_size, new_size, bs),
{
    if new_size >= old_size {
        return TruncatePlan { zero_tail: None, free_range: None };
    }
    let off = new_size % bs;
    let zero_tail = if new_size > 0 && off != 0 {
        Some(BlockTail { block: #[verifier::truncate] (((new_size - 1) / bs) as u32), offset: off as usize })
    } else {
        None
    };
    let first: u32 = if new_size == 0 { 0 } else { #[verifier::truncate] (((new_size + (bs - 1)) / bs) as u32) };
    let last: u32 = if old_size == 0 { 0 } else { #[verifier::truncate] (((old_size - 1) / bs) as u32) };
    let free_range = if first <= last { Some(BlockRange { first, last }) } else { None };
    TruncatePlan { zero_tail, free_range }
}

impl Ext4FileSystem {
    /// Changes the size of the file held by `inode_ref` to `new_size`:
    /// nothing when it is unchanged; otherwise the size is set and the
    /// inode marked dirty, and the block work of `spec_truncate_plan`
    /// (none when growing) is returned for the caller to carry out.
    pub fn truncate_file(&mut self, inode_ref: &mut InodeRef, new_size: u64) -> (r: Result<TruncatePlan>)
        requires
            old(self).spec_sb().log_block_size < 32,
            old(self).spec_sb().spec_block_size() > 0,
            new_size < old(inode_ref).inode.spec_file_size() ==> new_size + old(self).spec_sb().spec_block_size()
                - 1 <= u64::MAX,
        ensures
            final(self).spec_sb() == old(self).spec_sb(),
            r == Ok::<TruncatePlan, Error>(spec_truncate_plan(
                old(inode_ref).inode.spec_file_size() as u64,
                new_size,
                old(self).spec_sb().spec_block_size() as u64,
            )),
            new_size == old(inode_ref).inode.spec_file_size() ==> *final(inode_ref) == *old(inode_ref),
            new_size != old(inode_ref).inode.spec_file_size() ==> *final(inode_ref) == (InodeRef {
                inode: ext4_inode {
                    size_lo: (new_size as int % 0x1_0000_0000) as u32,
                    size_hi: (new_size as int / 0x1_0000_0000) as u32,
                    ..old(inode_ref).inode
                },
                dirty: true,
                ..*old(inode_ref)
            }),
    {
        let block_size = self.superblock().block_size() as u64;
        let old_size = match inode_ref.size() {
            Ok(s) => s,
            Err(e) => { return Err(e); },
        };
        if old_size == new_size {
            return Ok(TruncatePlan { zero_tail: None, free_range: None });
        }
        let _ = inode_ref.set_size(new_size);
        let _ = inode_ref.mark_dirty();
        Ok(truncate_plan(old_size, new_size, block_size))
    }
}

proof fn lemma_floor_div(m: int, d: int, b: int)
    requires
        d > 0,
        m >= 0,
        b >= 0,
    ensures
        (b <= m / d) <==> (b * d <= m),
{
    let q = m / d;
    let r = m % d;
    vstd::arithmetic::div_mod::lemma_fundamental_div_mod(m, d);
    assert(0 <= r < d);
    assert(m == d * q + r);
    if b <= q {
        assert(b * d <= q * d) by (nonlinear_arith)
            requires
                b <= q,
                d > 0,
        ;
        assert(q * d == d * q) by (nonlinear_arith);
    } else {
        assert(b * d >= (q + 1) * d) by (nonlinear_arith)
            requires
                b >= q + 1,
                d > 0,
        ;
        assert((q + 1) * d == d * q + d) by (nonlinear_arith);
    }
}

/// Shrinking a file frees exactly the blocks that begin at or after the
/// new end and before the old end, as long as block numbers fit in 32
/// bits.
pub proof fn lemma_truncate_frees_past_end(old_size: u64, new_size: u64, bs: u64, b: int)
    requires
        bs > 0,
        new_size < old_size,
        new_size + bs - 1 <= u64::MAX,
        (old_size - 1) / (bs as int) < 0xffff_ffff,
        b >= 0,
    ensures
        (spec_truncate_plan(old_size, new_size, bs).free_range matches Some(r) && r.first <= b
            <= r.last) <==> (new_size <= b * bs < old_size),
{
    let d = bs as int;
    let last = (old_size - 1) / d;
    let first = (new_size + d - 1) / d;
    // b <= last exactly when block b starts before the old end
    lemma_floor_div(old_size - 1, d, b);
    // b >= first exactly when block b starts at or after the new end
    lemma_floor_div(new_size + d - 1, d, b + 1);
    assert((b + 1) * d == b * d + d) by (nonlinear_arith);
    // first <= last + 1, so both fit in 32 bits
    lemma_floor_div(old_size - 1, d, last + 1);
    lemma_floor_div(new_size + d - 1, d, last + 2);
    assert((last + 2) * d == (last + 1) * d + d) by (nonlinear_arith);
    assert(first <= last + 1);
    vstd::arithmetic::div_mod::lemma_div_pos_is_pos(new_size + d - 1, d);
    if new_size == 0 {
        assert(first == 0) by {
            vstd::arithmetic::div_mod::lemma_basic_div(d - 1, d);
        }
    }
}

/// When a file shrinks to a size that ends inside a block, the part to
/// zero starts exactly at the new end of file.
pub proof fn lemma_truncate_zero_tail_at_end(old_size: u64, new_size: u64, bs: u64)
    requires
        bs > 0,
        new_size < old_size,
        new_size % bs != 0,
        bs < 0x1_0000_0000,
        (new_size - 1) / (bs as int) < 0x1_0000_0000,
    ensures
        spec_truncate_plan(old_size, new_size, bs).zero_tail matches Some(t) && t.block * bs + t.offset
            == new_size && t.offset < bs,
{
    let d = bs as int;
    let n = new_size as int;
    let q = n / d;
    let r = n % d;
    vstd::arithmetic::div_mod::lemma_fundamental_div_mod(new_size as int, d);
    vstd::arithmetic::div_mod::lemma_fundamental_div_mod(new_size - 1, d);
    let q1 = (new_size - 1) / d;
    let r1 = (new_size - 1) % d;
    assert(d * q + r == d * q1 + r1 + 1);
    assert(q1 == q) by (nonlinear_arith)
        requires
            d * q + r == d * q1 + r1 + 1,
            0 < r < d,
            0 <= r1 < d,
            d > 0,
    ;
    assert(q * d == d * q) by (nonlinear_arith);
    assert((new_size % bs) as int == r);
}

/// Zeroes the bytes of `block` from `offset` to its end: what is left of
/// a block past a file's new end.
pub fn zero_block_tail(block: &mut [u8], offset: usize)
    requires
        offset <= old(block)@.len(),
    ensures
        final(block)@.len() == old(block)@.len(),
        final(block)@.take(offset as int) == old(block)@.take(offset as int),
        forall|i: int| offset <= i < final(block)@.len() ==> final(block)@[i] == 0,
{
    let n = block.len();
    let mut i = offset;
    while i < n
        invariant
            offset <= i <= n,
            n == block@.len(),
            block@.len() == old(block)@.len(),
            block@.take(offset as int) == old(block)@.take(offset as int),
            forall|j: int| offset <= j < i ==> block@[j] == 0,
        decreases n - i,
    {
        block[i] = 0;
        i = i + 1;
        assert(block@.take(offset as int) =~= old(block)@.take(offset as int));
    }
}


/// Bytes cut off by shrinking a file to a size inside a block stay zero
/// when the file grows again: once the new last block is zeroed from the
/// plan's offset on (`zero_block_tail`), any later read of that block at
/// or past the new size (a piece of `plan_write`, copied out with
/// `copy_piece_out`) reads only zeros.
pub proof fn lemma_regrown_tail_reads_zero(old_size: u64, new_size: u64, bs: u64, block: Seq<u8>, q: u64, n: int)
    requires
        bs > 0,
        bs < 0x1_0000_0000,
        new_size < old_size,
        new_size % bs != 0,
        (new_size - 1) / (bs as int) < 0x1_0000_0000,
        block.len() == bs,
        spec_truncate_plan(old_size, new_size, bs).zero_tail matches Some(t) && (forall|i: int|
            t.offset <= i < bs ==> #[trigger] block[i] == 0),
        new_size <= q,
        (q as int) / (bs as int) == (new_size - 1) / (bs as int),
        n > 0,
    ensures
        ({
            let c = spec_first_piece(bs, q, n);
            block.subrange(c.offset_in_block as int, c.offset_in_block + c.len) == zeros(c.len as nat)
        }),
{
    lemma_truncate_zero_tail_at_end(old_size, new_size, bs);
    let t = spec_truncate_plan(old_size, new_size, bs).zero_tail->0;
    let d = bs as int;
    let c = spec_first_piece(bs, q, n);
    vstd::arithmetic::div_mod::lemma_fundamental_div_mod(q as int, d);
    assert(t.block == (q as int) / d);
    assert((q as int) / d * d == d * ((q as int) / d)) by (nonlinear_arith);
    assert(t.block * bs + (q % bs) == q);
    assert(c.offset_in_block == q % bs);
    assert(c.offset_in_block >= t.offset);
    assert(c.offset_in_block + c.len <= bs);
    assert(block.subrange(c.offset_in_block as int, c.offset_in_block + c.len) =~= zeros(c.len as nat));
}

} // verus!
