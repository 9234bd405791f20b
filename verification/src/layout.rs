//! Sizes and offsets of the stable memory layout.
//!
//! ```text
//! page 0            storage header (66 bytes), rest reserved
//! page 1            reserved (flat layout) or memory manager header (managed layout)
//! page 2 onwards    anchor records, `entry_size` bytes each
//! ```

use vstd::prelude::*;

verus! {

/// Identifier of an anchor, assigned from the half-open range of a store.
pub type AnchorNumber = u64;

/// Application-chosen constant kept in the header; all zeroes while unset.
pub type Salt = [u8; 32];

/// Size of one page of stable memory in bytes.
pub const WASM_PAGE_SIZE: u64 = 65_536;

/// Space before the first anchor record: one page for the storage header,
/// one for the memory manager.
pub const ENTRY_OFFSET: u64 = 2 * WASM_PAGE_SIZE;

/// Width of one record slot in bytes.
pub const DEFAULT_ENTRY_SIZE: u16 = 4096;

/// Bytes taken by the length prefix of a record.
pub const LENGTH_PREFIX_SIZE: u16 = 2;

pub const GB: u64 = 1_073_741_824;

pub const MAX_STABLE_MEMORY_SIZE: u64 = 32 * GB;

/// Number of pages that the store may ever address.
pub const MAX_WASM_PAGES: u64 = MAX_STABLE_MEMORY_SIZE / WASM_PAGE_SIZE;

/// Stable memory that the record layout is planned for.
pub const STABLE_MEMORY_SIZE: u64 = 32 * GB;

/// Tail of stable memory that records never occupy.
pub const STABLE_MEMORY_RESERVE: u64 = 8 * GB / 10;

/// The largest number of anchors that a single store can hold.
pub const DEFAULT_RANGE_SIZE: u64 = (STABLE_MEMORY_SIZE - ENTRY_OFFSET - STABLE_MEMORY_RESERVE)
    / 4096;

/// Layout versions that can be opened.
pub const FLAT_LAYOUT_VERSION: u8 = 6;

pub const MANAGED_LAYOUT_VERSION: u8 = 7;

/// Marker in front of a persistent state blob.
pub const PERSISTENT_STATE_MAGIC: [u8; 4] = [0x49, 0x49, 0x50, 0x53];

/// Number of bytes in an encoded storage header.
pub const HEADER_SIZE: usize = 66;

} // verus!
