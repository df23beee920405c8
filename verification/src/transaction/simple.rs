//! A simple transaction: the blocks it dirtied, each once, and its state.
//!
//! Flushing the dirty blocks is device I/O: `commit` hands out the blocks
//! to flush, and `commit_done` records how the flush went.

use vstd::prelude::*;
use crate::error::{Error, ErrorKind, Result};

verus! {

/// States of a transaction.
#[derive(Debug, Clone, Copy, PartialEq, Eq, Structural)]
pub enum TransactionState {
    /// Open for changes.
    Active,
    /// Flushing its blocks.
    Committing,
    /// Flushed.
    Committed,
    /// Given up.
    Aborted,
}

/// A transaction collecting dirty blocks.
#[derive(Debug)]
pub struct SimpleTransaction {
    /// Dirty blocks, in the order first marked, each once.
    pub dirty_blocks: Vec<u64>,
    /// State.
    pub state: TransactionState,
}

impl SimpleTransaction {
    /// No block is listed twice.
    pub open spec fn wf(&self) -> bool {
        forall|i: int, j: int|
            0 <= i < j < self.dirty_blocks@.len() ==> self.dirty_blocks@[i] != self.dirty_blocks@[j]
    }

    /// An active transaction with no dirty blocks.
    pub fn begin() -> (r: Result<Self>)
        ensures
            r matches Ok(t) && t.state == TransactionState::Active && t.dirty_blocks@.len() == 0
                && t.wf(),
    {
        Ok(SimpleTransaction { dirty_blocks: Vec::new(), state: TransactionState::Active })
    }

    /// `InvalidState` unless the transaction is active.
    pub fn check_active(&self) -> (r: Result<()>)
        ensures
            self.state == TransactionState::Active <==> r is Ok,
            r matches Err(e) ==> e.spec_kind() == ErrorKind::InvalidState,
    {
        if self.state != TransactionState::Active {
            return Err(Error::new(ErrorKind::InvalidState, "Transaction is not active"));
        }
        Ok(())
    }

    /// Checks that block `lba` may be read in this transaction (it is
    /// active) and gives back the block number to read.
    pub fn get_block(&self, lba: u64) -> (r: Result<u64>)
        ensures
            self.state == TransactionState::Active ==> r == Ok::<u64, Error>(lba),
            self.state != TransactionState::Active ==> (r matches Err(e) && e.spec_kind()
                == ErrorKind::InvalidState),
    {
        match self.check_active() {
            Ok(()) => Ok(lba),
            Err(e) => Err(e),
        }
    }

    /// As `get_block`, for a block that will be overwritten whole.
    pub fn get_block_noread(&self, lba: u64) -> (r: Result<u64>)
        ensures
            self.state == TransactionState::Active ==> r == Ok::<u64, Error>(lba),
            self.state != TransactionState::Active ==> (r matches Err(e) && e.spec_kind()
                == ErrorKind::InvalidState),
    {
        match self.check_active() {
            Ok(()) => Ok(lba),
            Err(e) => Err(e),
        }
    }

    /// Adds `lba` to the dirty blocks unless already there;
    /// `InvalidState` when the transaction is not active.
    pub fn mark_dirty(&mut self, lba: u64) -> (r: Result<()>)
        requires
            old(self).wf(),
        ensures
            final(self).wf(),
            final(self).state == old(self).state,
            old(self).state != TransactionState::Active ==> (r matches Err(e) && e.spec_kind()
                == ErrorKind::InvalidState && final(self).dirty_blocks@ == old(self).dirty_blocks@),
            old(self).state == TransactionState::Active ==> r is Ok && final(self).dirty_blocks@ == (
                if old(self).dirty_blocks@.contains(lba) {
                    old(self).dirty_blocks@
                } else {
                    old(self).dirty_blocks@.push(lba)
                }),
    {
        match self.check_active() {
            Ok(()) => {},
            Err(e) => { return Err(e); },
        }
        let mut found = false;
        let mut i: usize = 0;
        while i < self.dirty_blocks.len()
            invariant
                i <= self.dirty_blocks@.len(),
                found == (exists|k: int| 0 <= k < i && self.dirty_blocks@[k] == lba),
            decreases self.dirty_blocks@.len() - i,
        {
            if self.dirty_blocks[i] == lba {
                found = true;
            }
            i = i + 1;
        }
        if !found {
            self.dirty_blocks.push(lba);
            assert forall|a: int, b: int|
                0 <= a < b < self.dirty_blocks@.len() implies self.dirty_blocks@[a] != self.dirty_blocks@[b] by {
                if b == self.dirty_blocks@.len() - 1 {
                    assert(old(self).dirty_blocks@[a] != lba);
                }
            }
        }
        proof {
            if found {
                let k = choose|k: int| 0 <= k < i && self.dirty_blocks@[k] == lba;
                assert(old(self).dirty_blocks@.contains(lba));
            } else {
                assert(!old(self).dirty_blocks@.contains(lba));
            }
        }
        Ok(())
    }

    /// Starts committing: `InvalidState` unless active; otherwise the
    /// transaction is committing and the blocks to flush are returned.
    pub fn commit(&mut self) -> (r: Result<Vec<u64>>)
        ensures
            final(self).dirty_blocks@ == old(self).dirty_blocks@,
            old(self).state != TransactionState::Active ==> (r matches Err(e) && e.spec_kind()
                == ErrorKind::InvalidState && final(self).state == old(self).state),
            old(self).state == TransactionState::Active ==> (r matches Ok(v) && v@ == old(self).dirty_blocks@
                && final(self).state == TransactionState::Committing),
    {
        match self.check_active() {
            Ok(()) => {},
            Err(e) => { return Err(e); },
        }
        self.state = TransactionState::Committing;
        let mut v: Vec<u64> = Vec::new();
        let mut i: usize = 0;
        while i < self.dirty_blocks.len()
            invariant
                i <= self.dirty_blocks@.len(),
                v@ == self.dirty_blocks@.take(i as int),
            decreases self.dirty_blocks@.len() - i,
        {
            v.push(self.dirty_blocks[i]);
            i = i + 1;
            assert(v@ =~= self.dirty_blocks@.take(i as int));
        }
        assert(v@ =~= self.dirty_blocks@);
        Ok(v)
    }

    /// Ends a commit once the blocks were flushed: committed when every
    /// flush succeeded, else aborted with an `Io` error.
    pub fn commit_done(&mut self, flushed: bool) -> (r: Result<()>)
        requires
            old(self).state == TransactionState::Committing,
        ensures
            final(self).dirty_blocks@ == old(self).dirty_blocks@,
            flushed ==> r is Ok && final(self).state == TransactionState::Committed,
            !flushed ==> (r matches Err(e) && e.spec_kind() == ErrorKind::Io && final(self).state
                == TransactionState::Aborted),
    {
        if flushed {
            self.state = TransactionState::Committed;
            Ok(())
        } else {
            self.state = TransactionState::Aborted;
            Err(Error::new(ErrorKind::Io, "Failed to flush block during commit"))
        }
    }

    /// Gives the transaction up: an active one becomes aborted and forgets
    /// its dirty blocks; others stay as they are.
    pub fn abort_internal(&mut self)
        ensures
            old(self).state == TransactionState::Active ==> final(self).state == TransactionState::Aborted
                && final(self).dirty_blocks@.len() == 0,
            old(self).state != TransactionState::Active ==> final(self).state == old(self).state
                && final(self).dirty_blocks@ == old(self).dirty_blocks@,
    {
        if self.state == TransactionState::Active {
            self.state = TransactionState::Aborted;
            self.dirty_blocks.clear();
        }
    }

    /// Drops the transaction, aborting it when active.
    pub fn abort(self) -> (r: Result<()>)
        ensures
            r is Ok,
    {
        let mut t = self;
        t.abort_internal();
        Ok(())
    }

    /// The state.
    pub fn state(&self) -> (r: TransactionState)
        ensures
            r == self.state,
    {
        self.state
    }

    /// Number of dirty blocks.
    pub fn dirty_count(&self) -> (r: usize)
        ensures
            r == self.dirty_blocks@.len(),
    {
        self.dirty_blocks.len()
    }
}

} // verus!
