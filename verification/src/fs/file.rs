//! An open file: the inode number, the current offset and the block size.
//!
//! The handle keeps no copy of the inode; reading and writing the data
//! blocks is done by the caller, which asks the handle where to read or
//! write and tells it how much was transferred.

use vstd::prelude::*;
use crate::error::Result;
use crate::superblock::Superblock;

verus! {

/// An open file.
#[derive(Debug, Clone, Copy)]
pub struct File {
    inode_num: u32,
    offset: u64,
    block_size: u32,
}

/// Where the next write goes and how much of it fits in one block.
#[derive(Debug, Clone, Copy, PartialEq, Eq, Structural)]
pub struct WriteChunk {
    /// Logical block of the file.
    pub logical_block: u32,
    /// Offset in that block.
    pub offset_in_block: usize,
    /// Bytes that go into that block.
    pub len: usize,
}

impl File {
    /// The inode number, as a specification value.
    pub closed spec fn spec_inode_num(&self) -> u32 {
        self.inode_num
    }

    /// The current offset, as a specification value.
    pub closed spec fn spec_offset(&self) -> u64 {
        self.offset
    }

    /// The block size, as a specification value.
    pub closed spec fn spec_block_size(&self) -> u32 {
        self.block_size
    }

    /// Opens inode `inode_num` at offset 0.
    pub fn new(sb: &Superblock, inode_num: u32) -> (r: Result<File>)
        requires
            sb@.log_block_size < 32,
        ensures
            r matches Ok(f) && f.spec_inode_num() == inode_num && f.spec_offset() == 0
                && f.spec_block_size() == sb@.spec_block_size(),
    {
        Ok(File { inode_num, offset: 0, block_size: sb.block_size() })
    }

    /// Where a read starts, or `None` at or past the end of a file of
    /// `file_size` bytes.
    pub fn read_start(&self, file_size: u64) -> (r: Option<u64>)
        ensures
            r == (if self.spec_offset() >= file_size { None } else { Some(self.spec_offset()) }),
    {
        if self.offset >= file_size {
            None
        } else {
            Some(self.offset)
        }
    }

    /// Moves the offset past `n` bytes that were read.
    pub fn advance(&mut self, n: usize)
        requires
            old(self).spec_offset() + n <= u64::MAX,
        ensures
            final(self).spec_offset() == old(self).spec_offset() + n,
            final(self).spec_inode_num() == old(self).spec_inode_num(),
            final(self).spec_block_size() == old(self).spec_block_size(),
    {
        self.offset = self.offset + n as u64;
    }

    /// Moves the offset to `pos`, which may lie past the end of the file;
    /// returns the new offset.
    pub fn seek(&mut self, pos: u64) -> (r: u64)
        ensures
            r == pos,
            final(self).spec_offset() == pos,
            final(self).spec_inode_num() == old(self).spec_inode_num(),
            final(self).spec_block_size() == old(self).spec_block_size(),
    {
        self.offset = pos;
        self.offset
    }

    /// The current offset.
    pub fn position(&self) -> (r: u64)
        ensures
            r == self.spec_offset(),
    {
        self.offset
    }

    /// The inode number.
    pub fn inode_num(&self) -> (r: u32)
        ensures
            r == self.spec_inode_num(),
    {
        self.inode_num
    }

    /// Moves the offset back to 0.
    pub fn rewind(&mut self)
        ensures
            final(self).spec_offset() == 0,
            final(self).spec_inode_num() == old(self).spec_inode_num(),
            final(self).spec_block_size() == old(self).spec_block_size(),
    {
        self.offset = 0;
    }

    /// Where `len` bytes written at the current offset go: the logical
    /// block, the offset in it, and how many of them fit before the
    /// block ends.
    pub fn write_chunk(&self, len: usize) -> (r: WriteChunk)
        requires
            self.spec_block_size() > 0,
        ensures
            r.logical_block == (self.spec_offset() / (self.spec_block_size() as u64)) as u32,
            r.offset_in_block == self.spec_offset() % (self.spec_block_size() as u64),
            r.len == (if len < self.spec_block_size() - r.offset_in_block { len as int } else {
                self.spec_block_size() - r.offset_in_block
            }),
    {
        let block_size = self.block_size as u64;
        let logical_block = (self.offset / block_size) as u32;
        let offset_in_block = (self.offset % block_size) as usize;
        let remaining_in_block = self.block_size as usize - offset_in_block;
        let write_len = if len < remaining_in_block { len } else { remaining_in_block };
        WriteChunk { logical_block, offset_in_block, len: write_len }
    }

    /// Moves the offset past `written` bytes that were written; returns
    /// the new file size when the offset is now past the end of a file of
    /// `current_size` bytes.
    pub fn finish_write(&mut self, written: usize, current_size: u64) -> (r: Option<u64>)
        requires
            old(self).spec_offset() + written <= u64::MAX,
        ensures
            final(self).spec_offset() == old(self).spec_offset() + written,
            final(self).spec_inode_num() == old(self).spec_inode_num(),
            final(self).spec_block_size() == old(self).spec_block_size(),
            r == (if final(self).spec_offset() > current_size { Some(final(self).spec_offset()) } else { None }),
    {
        self.offset = self.offset + written as u64;
        if self.offset > current_size {
            Some(self.offset)
        } else {
            None
        }
    }

    /// After the file was cut to `size` bytes: an offset past the new end
    /// moves to it.
    pub fn truncate(&mut self, size: u64) -> (r: Result<()>)
        ensures
            r is Ok,
            final(self).spec_offset() == (if old(self).spec_offset() > size { size } else { old(self).spec_offset() }),
            final(self).spec_inode_num() == old(self).spec_inode_num(),
            final(self).spec_block_size() == old(self).spec_block_size(),
    {
        if self.offset > size {
            self.offset = size;
        }
        Ok(())
    }
}

} // verus!
