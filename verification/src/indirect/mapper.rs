//! Maps a logical block of a file to its physical block through the
//! inode's direct pointers and up to three levels of indirect blocks.
//!
//! Mapping reads indirect blocks, so it runs as a sequence of steps: each
//! step either gives the answer or names the block to read next and the
//! pointer index to take from it.

use vstd::prelude::*;
use crate::bytes::{read_u32_le, u32_at};
use crate::consts::EXT4_INODE_DIRECT_BLOCKS;
use crate::error::{Error, ErrorKind, Result};
use crate::inode::Inode;

verus! {

/// Limits of the indirect levels for blocks of `block_size` bytes.
pub struct IndirectBlockMapper {
    /// Pointers per indirect block: `block_size / 4`.
    pub blocks_per_indirect: u32,
    /// First logical block past each level: 12, then adding the blocks
    /// each indirect level addresses.
    pub block_limits: [u64; 4],
    /// Blocks addressed per pointer at each level: 1, b, b^2, b^3 for
    /// `b = blocks_per_indirect`.
    pub blocks_per_level: [u64; 4],
}

/// The next thing to do when mapping a block.
pub enum MapStep {
    /// The mapping is finished: the physical block, `None` for a hole, or
    /// an error.
    Done(Result<Option<u64>>),
    /// Read block `block`, take pointer `index` from it, and go on with
    /// the pointer indices in `rest`.
    Read { block: u64, index: u32, rest: Vec<u32> },
}

/// Block sizes whose three indirect levels fit in 64 bits.
pub open spec fn spec_mapper_fits(block_size: u32) -> bool {
    let b = block_size as int / 4;
    12 + b + b * b + b * b * b <= u64::MAX
}

/// Whether a little-endian pointer at `index` fits in `buf`.
pub open spec fn spec_pointer_in_bounds(buf: Seq<u8>, index: u32) -> bool {
    4 * index as int + 4 <= buf.len()
}

/// A pointer value read from disk: zero marks a hole.
pub open spec fn spec_pointer(p: u32) -> Option<u64> {
    if p == 0 {
        None
    } else {
        Some(p as u64)
    }
}

impl IndirectBlockMapper {
    /// The limits follow from `blocks_per_indirect`.
    pub open spec fn wf(&self) -> bool {
        let b = self.blocks_per_indirect as int;
        &&& self.blocks_per_level[0] == 1
        &&& self.blocks_per_level[1] == b
        &&& self.blocks_per_level[2] == b * b
        &&& self.blocks_per_level[3] == b * b * b
        &&& self.block_limits[0] == 12
        &&& self.block_limits[1] == 12 + b
        &&& self.block_limits[2] == 12 + b + b * b
        &&& self.block_limits[3] == 12 + b + b * b + b * b * b
    }

    /// Indirect level of a logical block past the direct pointers: the
    /// first level whose limit lies above it, 0 when none does.
    pub open spec fn spec_level(&self, logical_block: u64) -> int {
        if logical_block < self.block_limits[1] {
            1
        } else if logical_block < self.block_limits[2] {
            2
        } else if logical_block < self.block_limits[3] {
            3
        } else {
            0
        }
    }

    /// Pointer indices to follow below the inode's indirect pointer of the
    /// block's level, outermost first.
    pub open spec fn spec_path(&self, logical_block: u64) -> Seq<u32> {
        let b = self.blocks_per_indirect as int;
        let level = self.spec_level(logical_block);
        if level == 1 {
            seq![(logical_block - 12) as u32]
        } else if level == 2 {
            let off = logical_block - self.block_limits[1];
            seq![(off / b) as u32, (off % b) as u32]
        } else {
            let off = logical_block - self.block_limits[2];
            let rem = off % (b * b);
            seq![(off / (b * b)) as u32, (rem / b) as u32, (rem % b) as u32]
        }
    }

    /// Past the 12 direct pointers, the single indirect block maps the next
    /// `b` blocks, the double indirect block the next `b * b`, and the
    /// triple indirect block the next `b * b * b`; blocks further on have
    /// no level.
    pub proof fn lemma_level_ranges(&self, logical_block: u64)
        requires
            self.wf(),
            logical_block >= 12,
        ensures
            ({
                let b = self.blocks_per_indirect as int;
                let n = logical_block as int;
                &&& (self.spec_level(logical_block) == 1 <==> 12 <= n < 12 + b)
                &&& (self.spec_level(logical_block) == 2 <==> 12 + b <= n < 12 + b + b * b)
                &&& (self.spec_level(logical_block) == 3 <==> 12 + b + b * b <= n < 12 + b + b * b + b * b * b)
                &&& (self.spec_level(logical_block) == 0 <==> 12 + b + b * b + b * b * b <= n)
            }),
    {
        let b = self.blocks_per_indirect as int;
        assert(b * b >= 0 && b * b * b >= 0) by (nonlinear_arith)
            requires
                b >= 0,
        ;
    }

    /// The pointer path of a logical block past the direct pointers is its
    /// offset within its level written in base `b` (`b` pointers per
    /// indirect block), most significant digit first: every index is below
    /// `b`, and the indices rebuild the block number from the level's first
    /// block.
    #[verifier::spinoff_prover]
    pub proof fn lemma_path_digits(&self, logical_block: u64)
        requires
            self.wf(),
            logical_block >= 12,
            self.spec_level(logical_block) != 0,
        ensures
            ({
                let b = self.blocks_per_indirect as int;
                let p = self.spec_path(logical_block);
                let level = self.spec_level(logical_block);
                &&& p.len() == level
                &&& forall|i: int| 0 <= i < p.len() ==> #[trigger] p[i] < b
                &&& level == 1 ==> logical_block == 12 + p[0]
                &&& level == 2 ==> logical_block == 12 + b + p[0] * b + p[1]
                &&& level == 3 ==> logical_block == 12 + b + b * b + p[0] * (b * b) + p[1] * b + p[2]
            }),
    {
        let b = self.blocks_per_indirect as int;
        let level = self.spec_level(logical_block);
        let p = self.spec_path(logical_block);
        if level == 1 {
            assert(p[0] == logical_block - 12);
        } else if level == 2 {
            let off = logical_block - (12 + b);
            assert(0 <= off < b * b);
            assert(b > 0) by (nonlinear_arith)
                requires
                    0 <= off < b * b,
                    b >= 0,
            ;
            vstd::arithmetic::div_mod::lemma_fundamental_div_mod(off, b);
            assert(off / b < b) by (nonlinear_arith)
                requires
                    0 <= off < b * b,
                    b > 0,
            ;
            assert(0 <= off / b) by (nonlinear_arith)
                requires
                    0 <= off,
                    b > 0,
            ;
            assert(0 <= off % b < b);
            assert(p[0] == off / b && p[1] == off % b);
            let q = off / b;
            let r = off % b;
            assert(off == p[0] * b + p[1]) by (nonlinear_arith)
                requires
                    off == b * q + r,
                    p[0] == q,
                    p[1] == r,
            ;
        } else {
            let off = logical_block - (12 + b + b * b);
            assert(0 <= off < b * b * b);
            assert(b > 0) by (nonlinear_arith)
                requires
                    0 <= off < b * b * b,
                    b >= 0,
            ;
            let bb = b * b;
            assert(bb > 0) by (nonlinear_arith)
                requires
                    b > 0,
                    bb == b * b,
            ;
            vstd::arithmetic::div_mod::lemma_fundamental_div_mod(off, bb);
            let rem = off % bb;
            assert(0 <= rem < bb);
            assert(off / bb < b) by (nonlinear_arith)
                requires
                    0 <= off < b * b * b,
                    bb == b * b,
                    bb > 0,
            ;
            assert(0 <= off / bb) by (nonlinear_arith)
                requires
                    0 <= off,
                    bb > 0,
            ;
            vstd::arithmetic::div_mod::lemma_fundamental_div_mod(rem, b);
            assert(rem / b < b) by (nonlinear_arith)
                requires
                    0 <= rem < b * b,
                    b > 0,
            ;
            assert(0 <= rem / b) by (nonlinear_arith)
                requires
                    0 <= rem,
                    b > 0,
            ;
            assert(0 <= rem % b < b);
            assert(p[0] == off / bb && p[1] == rem / b && p[2] == rem % b);
            let q0 = off / bb;
            let q1 = rem / b;
            let r1 = rem % b;
            assert(off == p[0] * bb + p[1] * b + p[2]) by (nonlinear_arith)
                requires
                    off == bb * q0 + rem,
                    rem == b * q1 + r1,
                    p[0] == q0,
                    p[1] == q1,
                    p[2] == r1,
            ;
        }
    }

    /// The mapper for blocks of `block_size` bytes.
    pub fn new(block_size: u32) -> (r: Self)
        requires
            spec_mapper_fits(block_size),
        ensures
            r.wf(),
            r.blocks_per_indirect == block_size / 4,
    {
        let blocks_per_indirect = block_size / 4;
        let b = blocks_per_indirect as u64;
        assert(b * b <= 0x4000_0000u64 * 0x4000_0000u64) by (nonlinear_arith)
            requires
                b <= 0x4000_0000u64,
        ;
        let l2 = b * b;
        let l3 = l2 * b;
        let lim1 = EXT4_INODE_DIRECT_BLOCKS as u64 + b;
        let lim2 = lim1 + l2;
        let lim3 = lim2 + l3;
        IndirectBlockMapper {
            blocks_per_indirect,
            block_limits: [EXT4_INODE_DIRECT_BLOCKS as u64, lim1, lim2, lim3],
            blocks_per_level: [1, b, l2, l3],
        }
    }

    /// Indirect level (1 to 3) of a logical block; `InvalidInput` past the
    /// largest file the three levels can map.
    pub fn determine_indirect_level(&self, logical_block: u64) -> (r: Result<u32>)
        requires
            self.wf(),
        ensures
            self.spec_level(logical_block) == 0 <==> r is Err,
            r is Err ==> r->Err_0.spec_kind() == ErrorKind::InvalidInput,
            r is Ok ==> r->Ok_0 == self.spec_level(logical_block),
    {
        if logical_block < self.block_limits[1] {
            return Ok(1);
        }
        if logical_block < self.block_limits[2] {
            return Ok(2);
        }
        if logical_block < self.block_limits[3] {
            return Ok(3);
        }
        Err(Error::new(ErrorKind::InvalidInput, "Logical block number exceeds maximum file size"))
    }

    /// First step of mapping `logical_block` of `inode`: the answer for a
    /// direct block, a hole or a block past the limit, or else the inode's
    /// indirect block of the right level to read and the pointer indices to
    /// follow.
    pub fn map_block(&self, inode: &Inode, logical_block: u64) -> (r: MapStep)
        requires
            self.wf(),
        ensures
            logical_block < 12 ==> r == MapStep::Done(
                Ok(spec_pointer(inode.inner.blocks[logical_block as int])),
            ),
            logical_block >= 12 && self.spec_level(logical_block) == 0 ==> (r matches MapStep::Done(
                Err(e),
            ) && e.spec_kind() == ErrorKind::InvalidInput),
            logical_block >= 12 && self.spec_level(logical_block) != 0 ==> ({
                let root = inode.inner.blocks[11 + self.spec_level(logical_block)];
                let path = self.spec_path(logical_block);
                if root == 0 {
                    r == MapStep::Done(Ok(None))
                } else {
                    r matches MapStep::Read { block, index, rest } && block == root && index
                        == path[0] && rest@ == path.drop_first()
                }
            }),
            r matches MapStep::Read { block, .. } ==> logical_block >= 12 && block != 0 && (
            (self.spec_level(logical_block) == 1 && block == inode.inner.blocks[12])
                || (self.spec_level(logical_block) == 2 && block == inode.inner.blocks[13])
                || (self.spec_level(logical_block) == 3 && block == inode.inner.blocks[14])),
    {
        if logical_block < EXT4_INODE_DIRECT_BLOCKS as u64 {
            let p = inode.inner.blocks[logical_block as usize];
            return MapStep::Done(Ok(if p != 0 { Some(p as u64) } else { None }));
        }
        let level = match self.determine_indirect_level(logical_block) {
            Ok(level) => level,
            Err(e) => return MapStep::Done(Err(e)),
        };
        let b = self.blocks_per_indirect as u64;
        let root = inode.inner.blocks[11 + level as usize];
        if root == 0 {
            return MapStep::Done(Ok(None));
        }
        let mut rest: Vec<u32> = Vec::new();
        let index: u32;
        if level == 1 {
            index = (logical_block - self.block_limits[0]) as u32;
        } else if level == 2 {
            let off = logical_block - self.block_limits[1];
            assert(off / b < b) by (nonlinear_arith)
                requires
                    off < b * b,
            ;
            index = (off / self.blocks_per_level[1]) as u32;
            rest.push((off % self.blocks_per_level[1]) as u32);
        } else {
            let off = logical_block - self.block_limits[2];
            let l2 = self.blocks_per_level[2];
            assert(b * b > 0) by (nonlinear_arith)
                requires
                    off < b * b * b,
            ;
            assert((off as int) / (b as int * b as int) < b) by (nonlinear_arith)
                requires
                    off < b * b * b,
                    b * b > 0,
            ;
            index = (off / l2) as u32;
            let rem = off % l2;
            assert(rem / b < b) by (nonlinear_arith)
                requires
                    rem < b * b,
            ;
            rest.push((rem / self.blocks_per_level[1]) as u32);
            rest.push((rem % self.blocks_per_level[1]) as u32);
        }
        let r = MapStep::Read { block: root as u64, index, rest };
        proof {
            let path = self.spec_path(logical_block);
            assert(rest@ =~= path.drop_first());
        }
        r
    }

    /// Next step once block `block` of a `Read` step has been read into
    /// `buf`: the pointer at `index` ends the mapping on a hole or at the
    /// last level, or names the next block to read.
    pub fn resume_map(&self, buf: &[u8], index: u32, rest: Vec<u32>) -> (r: MapStep)
        ensures
            !spec_pointer_in_bounds(buf@, index) ==> (r matches MapStep::Done(Err(e))
                && e.spec_kind() == ErrorKind::InvalidInput),
            spec_pointer_in_bounds(buf@, index) ==> ({
                let p = u32_at(buf@, 4 * index as int);
                if p == 0 {
                    r == MapStep::Done(Ok(None))
                } else if rest@.len() == 0 {
                    r == MapStep::Done(Ok(Some(p as u64)))
                } else {
                    r matches MapStep::Read { block, index: next, rest: more } && block == p
                        && next == rest@[0] && more@ == rest@.drop_first()
                }
            }),
    {
        match read_block_pointer(buf, index) {
            Err(e) => MapStep::Done(Err(e)),
            Ok(None) => MapStep::Done(Ok(None)),
            Ok(Some(block)) => {
                if rest.len() == 0 {
                    MapStep::Done(Ok(Some(block)))
                } else {
                    let next = rest[0];
                    let mut more: Vec<u32> = Vec::new();
                    let mut i: usize = 1;
                    while i < rest.len()
                        invariant
                            1 <= i <= rest@.len(),
                            more@ == rest@.subrange(1, i as int),
                        decreases rest@.len() - i,
                    {
                        more.push(rest[i]);
                        i = i + 1;
                        assert(more@ =~= rest@.subrange(1, i as int));
                    }
                    assert(more@ =~= rest@.drop_first());
                    MapStep::Read { block, index: next, rest: more }
                }
            },
        }
    }
}

/// Pointer `index` of an indirect block: `None` for a hole, `InvalidInput`
/// when the index lies past the buffer.
pub fn read_block_pointer(buf: &[u8], index: u32) -> (r: Result<Option<u64>>)
    ensures
        !spec_pointer_in_bounds(buf@, index) ==> (r matches Err(e) && e.spec_kind()
            == ErrorKind::InvalidInput),
        spec_pointer_in_bounds(buf@, index) ==> r == Ok::<Option<u64>, Error>(
            spec_pointer(u32_at(buf@, 4 * index as int)),
        ),
{
    let offset = index as u64 * 4;
    if offset + 4 > buf.len() as u64 {
        return Err(Error::new(ErrorKind::InvalidInput, "Index out of bounds in indirect block"));
    }
    let p = read_u32_le(buf, offset as usize);
    Ok(if p == 0 { None } else { Some(p as u64) })
}

} // verus!
