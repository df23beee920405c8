//! The journalled transaction interface. Journalled transactions are not
//! provided: every operation reports `Unsupported`.

use vstd::prelude::*;
use crate::error::{Error, ErrorKind, Result};

verus! {

/// States of a journalled transaction.
#[derive(Debug, Clone, Copy, PartialEq, Eq, Structural)]
pub enum JournalState {
    /// Not started.
    Uninitialized,
    /// Open for changes.
    Active,
    /// Committing.
    Committing,
    /// Committed.
    Committed,
    /// Given up.
    Aborted,
}

/// A journalled transaction.
#[derive(Debug)]
pub struct JournalTransaction {
    /// State.
    pub state: JournalState,
    /// Transaction id, once one is assigned.
    pub transaction_id: Option<u64>,
}

impl JournalTransaction {
    /// Starting one is not supported.
    pub fn begin() -> (r: Result<Self>)
        ensures
            r matches Err(e) && e.spec_kind() == ErrorKind::Unsupported,
    {
        Err(Error::new(
            ErrorKind::Unsupported,
            "Journal transactions are not supported; use SimpleTransaction",
        ))
    }

    /// Not supported.
    pub fn get_block(&mut self, _lba: u64) -> (r: Result<u64>)
        ensures
            r matches Err(e) && e.spec_kind() == ErrorKind::Unsupported,
    {
        Err(Error::new(ErrorKind::Unsupported, "Journal get_block is not supported"))
    }

    /// Not supported.
    pub fn mark_dirty(&mut self, _lba: u64) -> (r: Result<()>)
        ensures
            r matches Err(e) && e.spec_kind() == ErrorKind::Unsupported,
    {
        Err(Error::new(ErrorKind::Unsupported, "Journal mark_dirty is not supported"))
    }

    /// Not supported.
    pub fn commit(self) -> (r: Result<()>)
        ensures
            r matches Err(e) && e.spec_kind() == ErrorKind::Unsupported,
    {
        Err(Error::new(ErrorKind::Unsupported, "Journal commit is not supported"))
    }

    /// Not supported.
    pub fn abort(self) -> (r: Result<()>)
        ensures
            r matches Err(e) && e.spec_kind() == ErrorKind::Unsupported,
    {
        Err(Error::new(ErrorKind::Unsupported, "Journal abort is not supported"))
    }
}

/// Not supported.
pub fn journal_init() -> (r: Result<()>)
    ensures
        r matches Err(e) && e.spec_kind() == ErrorKind::Unsupported,
{
    Err(Error::new(ErrorKind::Unsupported, "Journal init is not supported"))
}

/// Not supported.
pub fn journal_recover() -> (r: Result<()>)
    ensures
        r matches Err(e) && e.spec_kind() == ErrorKind::Unsupported,
{
    Err(Error::new(ErrorKind::Unsupported, "Journal recovery is not supported"))
}

/// Not supported.
pub fn journal_stop() -> (r: Result<()>)
    ensures
        r matches Err(e) && e.spec_kind() == ErrorKind::Unsupported,
{
    Err(Error::new(ErrorKind::Unsupported, "Journal stop is not supported"))
}

} // verus!
