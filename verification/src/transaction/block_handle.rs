//! A block taken in a transaction: its address, its contents and whether
//! it was changed. Releasing a changed block adds it to the transaction's
//! dirty list, once.

use vstd::prelude::*;
use crate::error::Result;

verus! {

/// A block handle that remembers whether its contents were changed.
#[derive(Debug)]
pub struct TransactionBlock {
    lba: u64,
    modified: bool,
    data: Vec<u8>,
}

impl TransactionBlock {
    /// The block address, as a specification value.
    pub closed spec fn spec_lba(&self) -> u64 {
        self.lba
    }

    /// Whether the contents were handed out for changing.
    pub closed spec fn spec_modified(&self) -> bool {
        self.modified
    }

    /// The contents.
    pub closed spec fn spec_data(&self) -> Seq<u8> {
        self.data@
    }

    /// A handle on block `lba` holding `data`, not yet changed.
    pub fn new(data: Vec<u8>, lba: u64) -> (r: Self)
        ensures
            r.spec_lba() == lba,
            !r.spec_modified(),
            r.spec_data() == data@,
    {
        TransactionBlock { lba, modified: false, data }
    }

    /// The block address.
    pub fn lba(&self) -> (r: u64)
        ensures
            r == self.spec_lba(),
    {
        self.lba
    }

    /// The contents, for reading; the block stays unchanged.
    pub fn with_data(&self) -> (r: &[u8])
        ensures
            r@ == self.spec_data(),
    {
        self.data.as_slice()
    }

    /// The contents, for changing; the block counts as changed from now on.
    pub fn with_data_mut(&mut self) -> (r: &mut Vec<u8>)
        ensures
            r@ == old(self).spec_data(),
            final(self).spec_data() == final(r)@,
            final(self).spec_modified(),
            final(self).spec_lba() == old(self).spec_lba(),
    {
        self.modified = true;
        &mut self.data
    }

    /// Releases the handle: a changed block joins `dirty_blocks` unless it
    /// is already listed.
    pub fn release(self, dirty_blocks: &mut Vec<u64>) -> (r: Result<()>)
        ensures
            r is Ok,
            final(dirty_blocks)@ == (if self.spec_modified() && !old(dirty_blocks)@.contains(self.spec_lba()) {
                old(dirty_blocks)@.push(self.spec_lba())
            } else {
                old(dirty_blocks)@
            }),
    {
        if self.modified {
            let mut listed = false;
            let mut i: usize = 0;
            while i < dirty_blocks.len()
                invariant
                    i <= dirty_blocks@.len(),
                    dirty_blocks@ == old(dirty_blocks)@,
                    listed == (exists|k: int| 0 <= k < i && dirty_blocks@[k] == self.lba),
                decreases dirty_blocks@.len() - i,
            {
                if dirty_blocks[i] == self.lba {
                    listed = true;
                }
                i = i + 1;
            }
            if !listed {
                dirty_blocks.push(self.lba);
            } else {
                proof {
                    let k = choose|k: int| 0 <= k < i && dirty_blocks@[k] == self.lba;
                    assert(old(dirty_blocks)@[k] == self.lba);
                }
            }
        }
        Ok(())
    }
}

} // verus!
