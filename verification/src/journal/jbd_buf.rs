//! A buffer of a journal transaction: a filesystem block and the journal
//! block it is logged to.

use vstd::prelude::*;

verus! {

/// A block logged in a transaction.
#[derive(Debug)]
pub struct JbdBuf {
    /// Journal block the data is logged to.
    pub jbd_lba: u32,
    /// Filesystem block the data belongs to.
    pub fs_lba: u64,
    /// Owning transaction.
    pub trans_id: Option<u64>,
    /// Block record in the journal's index.
    pub block_rec_id: Option<u64>,
    /// Whether the buffer holds unwritten changes.
    pub dirty: bool,
}

impl JbdBuf {
    /// A clean buffer of no transaction.
    pub fn new(jbd_lba: u32, fs_lba: u64) -> (r: Self)
        ensures
            r.jbd_lba == jbd_lba,
            r.fs_lba == fs_lba,
            r.trans_id is None,
            r.block_rec_id is None,
            !r.dirty,
    {
        JbdBuf { jbd_lba, fs_lba, trans_id: None, block_rec_id: None, dirty: false }
    }

    /// Journal block address.
    pub fn jbd_lba(&self) -> (r: u32)
        ensures
            r == self.jbd_lba,
    {
        self.jbd_lba
    }

    /// Filesystem block address.
    pub fn fs_lba(&self) -> (r: u64)
        ensures
            r == self.fs_lba,
    {
        self.fs_lba
    }

    /// Marks the buffer dirty.
    pub fn mark_dirty(&mut self)
        ensures
            *final(self) == (JbdBuf { dirty: true, ..*old(self) }),
    {
        self.dirty = true;
    }

    /// Whether the buffer is dirty.
    pub fn is_dirty(&self) -> (r: bool)
        ensures
            r == self.dirty,
    {
        self.dirty
    }

    /// Sets the owning transaction.
    pub fn set_transaction(&mut self, trans_id: u64)
        ensures
            *final(self) == (JbdBuf { trans_id: Some(trans_id), ..*old(self) }),
    {
        self.trans_id = Some(trans_id);
    }

    /// Sets the block record.
    pub fn set_block_record(&mut self, rec_id: u64)
        ensures
            *final(self) == (JbdBuf { block_rec_id: Some(rec_id), ..*old(self) }),
    {
        self.block_rec_id = Some(rec_id);
    }
}

} // verus!
