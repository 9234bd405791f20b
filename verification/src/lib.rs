//! Fixed-record anchor store on page-addressed stable memory.
//!
//! A [`Storage`] keeps one record per anchor in a memory of
//! `ic_stable_structures`, behind a header that says how many anchors there
//! are and which numbers they have. The layout of the memory, the rules that
//! tie the header to it, and the migration from the flat to the managed
//! layout are stated in contracts and proved.

pub mod anchor_memory;
pub mod checks;
pub mod error;
pub mod header;
pub mod laws;
pub mod layout;
pub mod memory;
pub mod migration;
pub mod mm;
pub mod persistent;
pub mod records;
pub mod storage;

pub use error::{PersistentStateError, StorageError};
pub use layout::{AnchorNumber, Salt, DEFAULT_RANGE_SIZE};
pub use storage::{StableMemory, Storage};
