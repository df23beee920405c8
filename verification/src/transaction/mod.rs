//! Transactions over filesystem blocks: the simple write-back transaction
//! and the journalled transaction interface.

pub mod simple;
pub mod journal;
pub mod block_handle;

pub use journal::{journal_init, journal_recover, journal_stop, JournalState, JournalTransaction};
pub use block_handle::TransactionBlock;
pub use simple::{SimpleTransaction, TransactionState};
