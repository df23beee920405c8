//! Conversions between inode numbers and (block group, index) pairs.

use vstd::prelude::*;
use crate::superblock::Superblock;

verus! {

/// Index of inode `inode` inside its block group.
pub fn inode_to_bgidx(sb: &Superblock, inode: u32) -> (r: u32)
    requires
        inode >= 1,
        sb@.inodes_per_group != 0,
    ensures
        r == (inode - 1) % (sb@.inodes_per_group as int),
{
    let inodes_per_group = sb.inodes_per_group();
    (inode - 1) % inodes_per_group
}

/// Inode number of index `index` in block group `bgid`.
pub fn bgidx_to_inode(sb: &Superblock, index: u32, bgid: u32) -> (r: u32)
    requires
        bgid as int * sb@.inodes_per_group as int + index as int + 1 <= u32::MAX,
    ensures
        r == bgid as int * sb@.inodes_per_group as int + index as int + 1,
{
    let inodes_per_group = sb.inodes_per_group();
    assert(bgid as int * inodes_per_group as int <= u32::MAX);
    bgid * inodes_per_group + (index + 1)
}

/// Block group holding inode `inode`.
pub fn get_bgid_of_inode(sb: &Superblock, inode: u32) -> (r: u32)
    requires
        inode >= 1,
        sb@.inodes_per_group != 0,
    ensures
        r == (inode - 1) / (sb@.inodes_per_group as int),
{
    let inodes_per_group = sb.inodes_per_group();
    (inode - 1) / inodes_per_group
}

/// Inodes in group `bgid`: a full group, except the last group, which has
/// what remains of the inode count (a full group when it divides evenly).
pub fn inodes_in_group_cnt(sb: &Superblock, bgid: u32) -> (r: u32)
    requires
        sb@.inodes_per_group != 0,
        sb@.blocks_per_group != 0,
        sb@.spec_blocks_count() + sb@.blocks_per_group <= u64::MAX,
        sb@.spec_block_group_count() >= 1,
    ensures
        bgid < sb@.spec_block_group_count() - 1 ==> r == sb@.inodes_per_group,
        bgid >= sb@.spec_block_group_count() - 1 ==> r == (if sb@.inodes_count
            % sb@.inodes_per_group == 0 {
            sb@.inodes_per_group
        } else {
            sb@.inodes_count % sb@.inodes_per_group
        }),
{
    let inodes_per_group = sb.inodes_per_group();
    let total_inodes = sb.inodes_count();
    let block_group_count = sb.block_group_count();
    if bgid < block_group_count - 1 {
        inodes_per_group
    } else {
        let remaining = total_inodes % inodes_per_group;
        if remaining == 0 {
            inodes_per_group
        } else {
            remaining
        }
    }
}

/// Splitting an inode number into group and index and joining them again
/// gives the inode number back.
pub proof fn lemma_inode_index_roundtrip(inodes_per_group: u32, inode: u32)
    requires
        inode >= 1,
        inodes_per_group != 0,
    ensures
        ((inode - 1) / (inodes_per_group as int)) * inodes_per_group as int + (inode - 1) % (
        inodes_per_group as int) + 1 == inode,
{
    vstd::arithmetic::div_mod::lemma_fundamental_div_mod((inode - 1) as int, inodes_per_group as int);
    vstd::arithmetic::mul::lemma_mul_is_commutative(
        (inodes_per_group as int),
        (inode - 1) / (inodes_per_group as int),
    );
}

/// Joining a group and an in-range index and splitting the inode number
/// again gives the same group and index.
pub proof fn lemma_group_index_roundtrip(inodes_per_group: u32, bgid: u32, index: u32)
    requires
        index < inodes_per_group,
    ensures
        ((bgid as int * inodes_per_group as int + index as int + 1) - 1) / (inodes_per_group as int)
            == bgid,
        ((bgid as int * inodes_per_group as int + index as int + 1) - 1) % (inodes_per_group as int)
            == index,
{
    vstd::arithmetic::div_mod::lemma_fundamental_div_mod_converse(
        bgid as int * inodes_per_group as int + index as int,
        inodes_per_group as int,
        bgid as int,
        index as int,
    );
}

} // verus!
