//! The JBD2 journal: its on-disk structures, transactions, the log space
//! manager, checksums, and the bookkeeping of commit, checkpoint and
//! recovery.

pub mod types;
pub mod jbd_buf;
pub mod jbd_trans;
pub mod jbd_journal;
pub mod jbd_fs;
pub mod checksum;
pub mod checkpoint;
pub mod recovery;
pub mod commit;

use vstd::prelude::*;
use crate::error::{Error, ErrorKind};

pub use jbd_buf::JbdBuf;
pub use jbd_journal::JbdJournal;
pub use jbd_fs::JbdFs;
pub use jbd_trans::{JbdBlockRec, JbdRevokeRec, JbdTrans};

verus! {

/// Errors of journal setup and use.
#[derive(Debug, Clone, Copy, PartialEq, Eq, Structural)]
pub enum JournalError {
    /// There is no journal inode.
    NoJournalInode,
    /// The journal superblock is invalid.
    InvalidSuperblock,
    /// A journal feature is not supported.
    UnsupportedFeature(u32),
    /// Recovery failed.
    RecoveryFailed,
    /// The journal has no space left.
    NoSpace,
    /// An I/O error.
    IoError,
}

impl JournalError {
    /// The library error kind this journal error is reported as.
    pub open spec fn spec_error_kind(&self) -> ErrorKind {
        match *self {
            JournalError::NoJournalInode => ErrorKind::NotFound,
            JournalError::InvalidSuperblock => ErrorKind::Corrupted,
            JournalError::UnsupportedFeature(_) => ErrorKind::Unsupported,
            JournalError::RecoveryFailed => ErrorKind::Corrupted,
            JournalError::NoSpace => ErrorKind::NoSpace,
            JournalError::IoError => ErrorKind::Io,
        }
    }

    /// The library error for this journal error.
    pub fn to_error(self) -> (e: Error)
        ensures
            e.spec_kind() == self.spec_error_kind(),
    {
        match self {
            JournalError::NoJournalInode => Error::new(ErrorKind::NotFound, "Journal inode not found"),
            JournalError::InvalidSuperblock => Error::new(
                ErrorKind::Corrupted,
                "Invalid journal superblock",
            ),
            JournalError::UnsupportedFeature(_) => Error::new(
                ErrorKind::Unsupported,
                "Unsupported journal feature",
            ),
            JournalError::RecoveryFailed => Error::new(ErrorKind::Corrupted, "Journal recovery failed"),
            JournalError::NoSpace => Error::new(ErrorKind::NoSpace, "Journal has no space"),
            JournalError::IoError => Error::new(ErrorKind::Io, "Journal I/O error"),
        }
    }

    /// The description of this journal error.
    pub open spec fn spec_message(&self) -> &'static str {
        match *self {
            JournalError::NoJournalInode => "Journal inode not found",
            JournalError::InvalidSuperblock => "Invalid journal superblock",
            JournalError::UnsupportedFeature(_) => "Unsupported journal feature",
            JournalError::RecoveryFailed => "Journal recovery failed",
            JournalError::NoSpace => "Journal has no space",
            JournalError::IoError => "Journal I/O error",
        }
    }

    /// A description of the error.
    pub fn message(&self) -> (r: &'static str)
        ensures
            r == self.spec_message(),
    {
        match self {
            JournalError::NoJournalInode => "Journal inode not found",
            JournalError::InvalidSuperblock => "Invalid journal superblock",
            JournalError::UnsupportedFeature(_) => "Unsupported journal feature",
            JournalError::RecoveryFailed => "Journal recovery failed",
            JournalError::NoSpace => "Journal has no space",
            JournalError::IoError => "Journal I/O error",
        }
    }
}

} // verus!
