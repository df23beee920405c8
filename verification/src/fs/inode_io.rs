//! Writing bytes at an offset of an inode's data: how a write splits into
//! pieces that each stay inside one block, how each piece lands in its
//! block buffer, and how the file size follows. Mapping logical blocks to
//! device blocks and moving the buffers is left to the caller.

use vstd::prelude::*;
use crate::bytes::{lemma_le32_seq_len, push_u32_slice_le, write_bytes_at, zeros};
use crate::consts::{EXT4_INODE_FLAG_EXTENTS, EXT4_INODE_MODE_SOFTLINK};
use crate::fs::symlink::spec_inline_area;
use crate::error::{Error, ErrorKind, Result};
use crate::fs::file::WriteChunk;
use crate::fs::filesystem::Ext4FileSystem;
use crate::fs::inode_ref::InodeRef;
use crate::types::ext4_inode;

verus! {

/// The piece of a write of `n` bytes at byte `offset` that goes into the
/// block holding `offset`: up to the end of that block.
pub open spec fn spec_first_piece(bs: u64, offset: u64, n: int) -> WriteChunk {
    let off = offset % bs;
    WriteChunk {
        logical_block: (offset / bs) as u32,
        offset_in_block: off as usize,
        len: (if n < bs - off { n } else { bs - off }) as usize,
    }
}

/// The pieces of a write of `n` bytes at byte `offset` with blocks of `bs`
/// bytes, in order: each fills its block from the write's current offset
/// until the block or the data ends.
pub open spec fn spec_write_plan(bs: u64, offset: u64, n: nat) -> Seq<WriteChunk>
    decreases n,
{
    if n == 0 || bs == 0 {
        Seq::empty()
    } else {
        let c = spec_first_piece(bs, offset, n as int);
        if c.len == 0 {
            Seq::empty()
        } else {
            seq![c] + spec_write_plan(bs, (offset + c.len) as u64, (n - c.len) as nat)
        }
    }
}

/// Whether a piece covers its whole block, so the block need not be read
/// before it is written.
pub open spec fn spec_covers_block(c: WriteChunk, bs: u64) -> bool {
    c.offset_in_block == 0 && c.len == bs
}

impl WriteChunk {
    /// Whether the piece covers its whole block of `block_size` bytes.
    pub fn covers_block(&self, block_size: u64) -> (r: bool)
        ensures
            r == spec_covers_block(*self, block_size),
    {
        self.offset_in_block == 0 && self.len as u64 == block_size
    }
}

/// The first piece of a write: the one `write_at_inode` writes.
pub fn first_piece(bs: u64, offset: u64, n: usize) -> (r: WriteChunk)
    requires
        0 < bs < 0x1_0000_0000,
    ensures
        r == spec_first_piece(bs, offset, n as int),
{
    let off = offset % bs;
    let room = bs - off;
    let len = if (n as u64) < room { n } else { room as usize };
    WriteChunk { logical_block: #[verifier::truncate] ((offset / bs) as u32), offset_in_block: off as usize, len }
}

/// Splits a write of `n` bytes at byte `offset` into its pieces: what
/// `write_at_inode_batch` writes, one block at a time.
pub fn plan_write(bs: u64, offset: u64, n: usize) -> (r: Vec<WriteChunk>)
    requires
        0 < bs < 0x1_0000_0000,
        offset + n <= u64::MAX,
    ensures
        r@ == spec_write_plan(bs, offset, n as nat),
{
    let mut out: Vec<WriteChunk> = Vec::new();
    let mut cur = offset;
    let mut left = n;
    while left > 0
        invariant
            0 < bs < 0x1_0000_0000,
            cur + left == offset + n,
            offset + n <= u64::MAX,
            out@ + spec_write_plan(bs, cur, left as nat) == spec_write_plan(bs, offset, n as nat),
        decreases left,
    {
        let c = first_piece(bs, cur, left);
        assert(c.len > 0);
        assert(spec_write_plan(bs, cur, left as nat) == seq![c] + spec_write_plan(bs, (cur + c.len) as u64,
            (left - c.len) as nat));
        out.push(c);
        cur = cur + c.len as u64;
        left = left - c.len;
        assert(out@ + spec_write_plan(bs, cur, left as nat) =~= spec_write_plan(bs, offset, n as nat));
    }
    assert(spec_write_plan(bs, cur, 0) =~= Seq::<WriteChunk>::empty());
    assert(out@ =~= spec_write_plan(bs, offset, n as nat));
    out
}

/// Bytes covered by a list of pieces.
pub open spec fn spec_pieces_len(s: Seq<WriteChunk>) -> int
    decreases s.len(),
{
    if s.len() == 0 {
        0
    } else {
        s[0].len + spec_pieces_len(s.drop_first())
    }
}

/// The pieces of a write cover exactly its bytes, and each piece is
/// non-empty and stays inside its block.
pub proof fn lemma_write_plan_covers(bs: u64, offset: u64, n: nat)
    requires
        0 < bs < 0x1_0000_0000,
        offset + n <= u64::MAX,
    ensures
        spec_pieces_len(spec_write_plan(bs, offset, n)) == n,
        forall|k: int| 0 <= k < spec_write_plan(bs, offset, n).len() ==> {
            let c = #[trigger] spec_write_plan(bs, offset, n)[k];
            &&& c.len > 0
            &&& c.offset_in_block + c.len <= bs
        },
    decreases n,
{
    if n > 0 {
        let c = spec_first_piece(bs, offset, n as int);
        let rest = spec_write_plan(bs, (offset + c.len) as u64, (n - c.len) as nat);
        lemma_write_plan_covers(bs, (offset + c.len) as u64, (n - c.len) as nat);
        let whole = spec_write_plan(bs, offset, n);
        assert(whole == seq![c] + rest);
        assert(whole.drop_first() =~= rest);
        assert forall|k: int| 0 <= k < whole.len() implies {
            let d = #[trigger] whole[k];
            &&& d.len > 0
            &&& d.offset_in_block + d.len <= bs
        } by {
            if k > 0 {
                assert(whole[k] == rest[k - 1]);
            }
        }
    }
}

/// Puts the bytes `data[start..start + c.len]` of a write into the block
/// buffer of its piece `c`, at the piece's offset.
pub fn fill_piece(block: &mut [u8], c: &WriteChunk, data: &[u8], start: usize)
    requires
        c.offset_in_block + c.len <= old(block)@.len(),
        start + c.len <= data@.len(),
    ensures
        final(block)@ == old(block)@.take(c.offset_in_block as int) + data@.subrange(start as int, start + c.len)
            + old(block)@.skip(c.offset_in_block + c.len),
{
    let _ = data.len();
    let part = vstd::slice::slice_subrange(data, start, start + c.len);
    write_bytes_at(block, c.offset_in_block, part);
}

impl Ext4FileSystem {
    /// The pieces of a write of `n` bytes at byte `offset` of a file of
    /// this filesystem.
    pub fn plan_inode_write(&self, offset: u64, n: usize) -> (r: Vec<WriteChunk>)
        requires
            self.spec_sb().log_block_size < 32,
            self.spec_sb().spec_block_size() > 0,
            offset + n <= u64::MAX,
        ensures
            r@ == spec_write_plan(self.spec_sb().spec_block_size() as u64, offset, n as nat),
    {
        let bs = self.superblock().block_size() as u64;
        plan_write(bs, offset, n)
    }

    /// After `written` bytes were written at `offset` of the file held by
    /// `inode_ref`: a write past the end moves the size to the write's end
    /// and marks the inode dirty; returns the bytes written.
    pub fn finish_inode_write(&self, inode_ref: &mut InodeRef, offset: u64, written: usize) -> (r: Result<usize>)
        requires
            offset + written <= u64::MAX,
        ensures
            r == Ok::<usize, Error>(written),
            offset + written > old(inode_ref).inode.spec_file_size() ==> *final(inode_ref) == (InodeRef {
                inode: ext4_inode {
                    size_lo: ((offset + written) % 0x1_0000_0000) as u32,
                    size_hi: ((offset + written) / 0x1_0000_0000) as u32,
                    ..old(inode_ref).inode
                },
                dirty: true,
                ..*old(inode_ref)
            }),
            offset + written <= old(inode_ref).inode.spec_file_size() ==> *final(inode_ref) == *old(inode_ref),
    {
        let current = match inode_ref.size() {
            Ok(s) => s,
            Err(e) => { return Err(e); },
        };
        let new_end = offset + written as u64;
        if new_end > current {
            let _ = inode_ref.set_size(new_end);
            let _ = inode_ref.mark_dirty();
        }
        Ok(written)
    }
}

/// How a read of an inode's data starts.
#[derive(Debug, Clone, Copy, PartialEq, Eq, Structural)]
pub enum ReadStep {
    /// The read is over, with this many bytes in the buffer: none at or
    /// past the end of file, or the bytes of a fast symbolic link, which
    /// come from the inode itself.
    Done(usize),
    /// This many bytes from the offset on are to be read from the file's
    /// blocks, through its extent tree when `extents` and its block map
    /// otherwise.
    Blocks {
        /// Bytes to read.
        len: usize,
        /// Whether the inode is extent mapped.
        extents: bool,
    },
}

/// The bytes a read of `buf_len` bytes at `offset` of a file of `size`
/// bytes gets: up to the end of file.
pub open spec fn spec_read_len(size: int, offset: u64, buf_len: int) -> int {
    if buf_len < size - offset { buf_len } else { size - offset }
}

/// Starts reading `buf.len()` bytes at `offset` of the data of the inode
/// held by `inode_ref`. A fast symbolic link (under 60 bytes) is read from
/// the inode's block map area; otherwise nothing is read at or past the
/// end of file, and the rest is left for the block layer, clamped to the
/// end of file.
pub fn read_prepare(inode_ref: &InodeRef, offset: u64, buf: &mut [u8]) -> (r: ReadStep)
    ensures
        final(buf)@.len() == old(buf)@.len(),
        ({
            let inode = inode_ref.inode;
            let size = inode.spec_file_size();
            let n = spec_read_len(size, offset, old(buf)@.len() as int);
            if inode.spec_type_bits() == EXT4_INODE_MODE_SOFTLINK && size < 60 {
                if offset >= size {
                    r == ReadStep::Done(0) && final(buf)@ == old(buf)@
                } else {
                    &&& r == ReadStep::Done(n as usize)
                    &&& final(buf)@ == spec_inline_area(inode).subrange(offset as int, offset + n)
                        + old(buf)@.skip(n)
                }
            } else {
                &&& final(buf)@ == old(buf)@
                &&& if offset >= size || n == 0 {
                    r == ReadStep::Done(0)
                } else {
                    r == (ReadStep::Blocks { len: n as usize, extents: inode.flags & EXT4_INODE_FLAG_EXTENTS != 0 })
                }
            }
        }),
{
    let size = inode_ref.inode.file_size();
    let is_symlink = inode_ref.inode.is_symlink();
    if offset >= size {
        return ReadStep::Done(0);
    }
    let left = size - offset;
    let n: usize = if (buf.len() as u64) < left { buf.len() } else { left as usize };
    if is_symlink && size < 60 {
        let mut area: Vec<u8> = Vec::new();
        push_u32_slice_le(&mut area, inode_ref.inode.blocks.as_slice());
        proof {
            lemma_le32_seq_len(inode_ref.inode.blocks@);
        }
        let part = vstd::slice::slice_subrange(area.as_slice(), offset as usize, offset as usize + n);
        write_bytes_at(buf, 0, part);
        assert(final(buf)@ =~= part@ + old(buf)@.skip(n as int));
        return ReadStep::Done(n);
    }
    if n == 0 {
        return ReadStep::Done(0);
    }
    let extents = (inode_ref.inode.flags & EXT4_INODE_FLAG_EXTENTS) != 0;
    ReadStep::Blocks { len: n, extents }
}

/// Puts the bytes of read piece `c` from its block buffer into `buf` at
/// `pos`.
pub fn copy_piece_out(buf: &mut [u8], pos: usize, block: &[u8], c: &WriteChunk)
    requires
        pos + c.len <= old(buf)@.len(),
        c.offset_in_block + c.len <= block@.len(),
    ensures
        final(buf)@ == old(buf)@.take(pos as int) + block@.subrange(c.offset_in_block as int,
            c.offset_in_block + c.len) + old(buf)@.skip(pos + c.len),
{
    let _ = block.len();
    let part = vstd::slice::slice_subrange(block, c.offset_in_block, c.offset_in_block + c.len);
    write_bytes_at(buf, pos, part);
}

/// Puts zeros for read piece `c` into `buf` at `pos`: a piece in a hole
/// of a sparse file.
pub fn zero_piece_out(buf: &mut [u8], pos: usize, c: &WriteChunk)
    requires
        pos + c.len <= old(buf)@.len(),
    ensures
        final(buf)@ == old(buf)@.take(pos as int) + zeros(c.len as nat) + old(buf)@.skip(pos + c.len),
{
    let blen = buf.len();
    let mut i: usize = 0;
    while i < c.len
        invariant
            blen == buf@.len(),
            i <= c.len,
            pos + c.len <= old(buf)@.len(),
            buf@.len() == old(buf)@.len(),
            buf@ == old(buf)@.take(pos as int) + zeros(i as nat) + old(buf)@.skip(pos + i),
        decreases c.len - i,
    {
        buf[pos + i] = 0;
        i = i + 1;
        assert(buf@ =~= old(buf)@.take(pos as int) + zeros(i as nat) + old(buf)@.skip(pos + i));
    }
}

/// How a logical block of an inode gets mapped to a device block.
#[derive(Debug, Clone, Copy, PartialEq, Eq, Structural)]
pub enum BlockLookup {
    /// The last mapping found answers: this device block.
    Cached(u64),
    /// Through the block map (`IndirectBlockMapper`), reading only.
    Indirect,
    /// Through the extent tree, allocating the block when `create`.
    Extent {
        /// Whether a missing block is allocated.
        create: bool,
    },
}

impl InodeRef {
    /// How to map logical block `logical_block` of this inode, allocating
    /// it when `create`: block-mapped inodes are only read (`Unsupported`
    /// when asked to allocate); an extent-mapped inode read for the block
    /// of the last mapping found uses that mapping.
    pub fn lookup_start(&self, logical_block: u32, create: bool) -> (r: Result<BlockLookup>)
        ensures
            self.inode.flags & EXT4_INODE_FLAG_EXTENTS == 0 ==> (if create {
                r matches Err(e) && e.spec_kind() == ErrorKind::Unsupported
            } else {
                r == Ok::<BlockLookup, Error>(BlockLookup::Indirect)
            }),
            self.inode.flags & EXT4_INODE_FLAG_EXTENTS != 0 ==> r == Ok::<BlockLookup, Error>(
                match self.block_map_cache {
                    Some((l, p)) if !create && l == logical_block => BlockLookup::Cached(p),
                    _ => BlockLookup::Extent { create },
                }),
    {
        if (self.inode.flags & EXT4_INODE_FLAG_EXTENTS) == 0 {
            if create {
                return Err(Error::new(ErrorKind::Unsupported, "block allocation for block-mapped inodes is not supported"));
            }
            return Ok(BlockLookup::Indirect);
        }
        if !create {
            if let Some((l, p)) = self.block_map_cache {
                if l == logical_block {
                    return Ok(BlockLookup::Cached(p));
                }
            }
        }
        Ok(BlockLookup::Extent { create })
    }

    /// The answer of a reading lookup (block map or extent tree) for
    /// `logical_block`: the device block, or `NotFound` for a hole. A block
    /// found through the extent tree becomes the remembered mapping.
    pub fn finish_lookup(&mut self, logical_block: u32, via_extents: bool, found: Option<u64>) -> (r: Result<u64>)
        ensures
            found is None ==> (r matches Err(e) && e.spec_kind() == ErrorKind::NotFound) && *final(self) == *old(self),
            found matches Some(p) ==> r == Ok::<u64, Error>(p) && *final(self) == (if via_extents {
                InodeRef { block_map_cache: Some((logical_block, p)), ..*old(self) }
            } else {
                *old(self)
            }),
    {
        match found {
            Some(p) => {
                if via_extents {
                    self.block_map_cache = Some((logical_block, p));
                }
                Ok(p)
            },
            None => Err(Error::new(ErrorKind::NotFound, "Logical block is a hole")),
        }
    }
}

/// The answer of an allocating lookup: the device block, `NoSpace` when
/// none could be allocated (block 0).
pub fn finish_alloc_lookup(physical_block: u64) -> (r: Result<u64>)
    ensures
        physical_block == 0 ==> (r matches Err(e) && e.spec_kind() == ErrorKind::NoSpace),
        physical_block != 0 ==> r == Ok::<u64, Error>(physical_block),
{
    if physical_block == 0 {
        Err(Error::new(ErrorKind::NoSpace, "Failed to allocate block"))
    } else {
        Ok(physical_block)
    }
}

} // verus!
