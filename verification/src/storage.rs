//! The store: a header at address zero and one fixed-size record per anchor.
//!
//! ```text
//! address 0                      header, 66 bytes
//! address ENTRY_OFFSET           record 0: length (2 bytes), payload, unused rest
//! ENTRY_OFFSET + entry_size      record 1
//! ENTRY_OFFSET + 2 * entry_size  record 2
//! behind the last allocated      the persistent state, where one was written
//! ```
//!
//! A store owns its memory. Whatever changes a header field writes the whole
//! header back before it returns, so the memory alone always tells what the
//! store is.

use crate::anchor_memory::{
    AnchorMemory, ANCHOR_MEMORY_INDEX, BUCKET_SIZE_IN_PAGES, MANAGER_FIRST_PAGE,
    RECORDS_FIRST_PAGE,
};
use crate::error::RangeError;
use crate::header::{
    empty_salt, lemma_decode_prefix, lemma_header_encoding, Header, HeaderView, HEADER_MAGIC,
};
use crate::layout::{
    AnchorNumber, Salt, DEFAULT_ENTRY_SIZE, DEFAULT_RANGE_SIZE, ENTRY_OFFSET,
    FLAT_LAYOUT_VERSION, HEADER_SIZE, MANAGED_LAYOUT_VERSION, MAX_WASM_PAGES, WASM_PAGE_SIZE,
};
use crate::memory::{
    lemma_stored, lemma_stored_elsewhere, memory_bytes, memory_read, memory_size, page_count,
    stored, window_write,
};
use crate::mm::{
    lemma_fresh_manager, lemma_sole_tenant_frame, manager_absent, manager_init,
    manager_initialized,
};
use ic_stable_structures::VectorMemory;
use vstd::prelude::*;

verus! {

/// A memory together with the layout that a new store is to give it.
pub enum StableMemory {
    /// Records in a window of the memory: layout version 6.
    Single(VectorMemory),
    /// Records in a virtual memory of a memory manager: layout version 7.
    Managed(VectorMemory),
}

/// Keeps the data of anchors in stable memory.
pub struct Storage {
    pub(crate) header: Header,
    pub(crate) memory: VectorMemory,
    pub(crate) anchor_memory: AnchorMemory,
}

/// The flavour of anchor memory that goes with a layout version.
pub open spec fn layout_of(version: u8) -> AnchorMemory {
    if version == MANAGED_LAYOUT_VERSION {
        AnchorMemory::Managed
    } else {
        AnchorMemory::Single
    }
}

/// The layout version that goes with a flavour of anchor memory.
pub open spec fn version_of(anchor_memory: AnchorMemory) -> u8 {
    match anchor_memory {
        AnchorMemory::Single => FLAT_LAYOUT_VERSION,
        AnchorMemory::Managed => MANAGED_LAYOUT_VERSION,
    }
}

/// A memory manager can be set up on `bytes`: none is there yet, or the one
/// that is there has the records as its only tenant.
pub open spec fn manager_openable(bytes: Seq<u8>) -> bool {
    manager_absent(bytes, MANAGER_FIRST_PAGE as int, MAX_WASM_PAGES as int)
        || AnchorMemory::Managed.is_ready(bytes)
}

/// The memory once the anchor memory of the given flavour was opened on it.
pub open spec fn opened(anchor_memory: AnchorMemory, bytes: Seq<u8>) -> Seq<u8> {
    match anchor_memory {
        AnchorMemory::Single => bytes,
        AnchorMemory::Managed => manager_initialized(
            bytes,
            MANAGER_FIRST_PAGE as int,
            MAX_WASM_PAGES as int,
            BUCKET_SIZE_IN_PAGES,
        ),
    }
}

/// A store can be recovered from `bytes`: they begin with a header that is
/// supported and consistent, and where the header announces a memory manager,
/// one can be set up.
pub open spec fn is_recoverable(bytes: Seq<u8>) -> bool {
    let header = HeaderView::decode(bytes);
    &&& bytes.len() >= HEADER_SIZE
    &&& header.is_supported()
    &&& header.is_consistent()
    &&& header.version == MANAGED_LAYOUT_VERSION ==> manager_openable(bytes)
}

/// The header of an empty store with the given flavour and range.
pub open spec fn fresh_header(
    anchor_memory: AnchorMemory,
    range: (AnchorNumber, AnchorNumber),
) -> HeaderView {
    HeaderView {
        magic: HEADER_MAGIC@,
        version: version_of(anchor_memory),
        num_anchors: 0,
        id_range_lo: range.0,
        id_range_hi: range.1,
        entry_size: DEFAULT_ENTRY_SIZE,
        salt: empty_salt(),
        first_entry_offset: ENTRY_OFFSET,
    }
}

impl StableMemory {
    /// The bytes that the memory holds.
    pub open spec fn bytes(self) -> Seq<u8> {
        match self {
            StableMemory::Single(memory) => memory_bytes(memory),
            StableMemory::Managed(memory) => memory_bytes(memory),
        }
    }

    /// The flavour of anchor memory that is asked for.
    pub open spec fn anchor_memory(self) -> AnchorMemory {
        match self {
            StableMemory::Single(_) => AnchorMemory::Single,
            StableMemory::Managed(_) => AnchorMemory::Managed,
        }
    }
}

impl Storage {
    /// The header as the store holds it.
    pub open(crate) spec fn header(self) -> HeaderView {
        self.header@
    }

    /// The bytes of the backing memory.
    pub open(crate) spec fn bytes(self) -> Seq<u8> {
        memory_bytes(self.memory)
    }

    /// The flavour of the anchor memory.
    pub open(crate) spec fn anchor_memory(self) -> AnchorMemory {
        self.anchor_memory
    }

    /// The header can be opened, the anchor memory is of the flavour that the
    /// version names, and the backing memory is arranged for it.
    pub open spec fn is_coherent(self) -> bool {
        &&& self.header().is_supported()
        &&& self.header().is_consistent()
        &&& self.anchor_memory() == layout_of(self.header().version)
        &&& self.anchor_memory().is_ready(self.bytes())
    }

    /// The backing memory has a page, and it begins with the encoding of the
    /// header.
    pub open spec fn is_durable(self) -> bool {
        &&& page_count(self.bytes()) >= 1
        &&& self.bytes().subrange(0, HEADER_SIZE as int) == self.header().encode()
    }

    /// What holds of every store between two operations.
    pub open spec fn inv(self) -> bool {
        self.is_coherent() && self.is_durable()
    }

    /// The bytes of the anchor memory: the records, one after the other, and
    /// what lies behind them.
    pub open spec fn anchor_bytes(self) -> Seq<u8> {
        self.anchor_memory().contents(self.bytes())
    }

    /// Creates an empty store for the anchors of the given range on `memory`,
    /// in the layout that `memory` names, and writes its header. The range
    /// must be proper and no larger than a store has room for; in the managed
    /// layout, a memory manager that is already in the memory must have the
    /// records as its only tenant.
    pub fn new(range: (AnchorNumber, AnchorNumber), memory: StableMemory) -> (storage: Storage)
        requires
            range.0 <= range.1,
            range.1 - range.0 <= DEFAULT_RANGE_SIZE,
            memory is Managed ==> manager_openable(memory.bytes()),
        ensures
            storage.inv(),
            storage.anchor_memory() == memory.anchor_memory(),
            storage.header() == fresh_header(memory.anchor_memory(), range),
            storage.bytes() == stored(
                opened(memory.anchor_memory(), memory.bytes()),
                0,
                fresh_header(memory.anchor_memory(), range).encode(),
            ),
    {
        let ghost before = memory.bytes();
        let (memory, anchor_memory, version) = match memory {
            StableMemory::Single(memory) => (memory, AnchorMemory::Single, FLAT_LAYOUT_VERSION),
            StableMemory::Managed(memory) => {
                let mut memory = memory;
                manager_init(&mut memory, MANAGER_FIRST_PAGE, MAX_WASM_PAGES, BUCKET_SIZE_IN_PAGES);
                (memory, AnchorMemory::Managed, MANAGED_LAYOUT_VERSION)
            },
        };
        proof {
            lemma_fresh_manager(
                before,
                MANAGER_FIRST_PAGE as int,
                MAX_WASM_PAGES as int,
                BUCKET_SIZE_IN_PAGES,
                ANCHOR_MEMORY_INDEX,
            );
        }
        let mut storage = Storage {
            header: Header {
                magic: HEADER_MAGIC,
                version,
                num_anchors: 0,
                id_range_lo: range.0,
                id_range_hi: range.1,
                entry_size: DEFAULT_ENTRY_SIZE,
                salt: [0u8; 32],
                first_entry_offset: ENTRY_OFFSET,
            },
            memory,
            anchor_memory,
        };
        assert(storage.header@.salt =~= empty_salt());
        storage.flush();
        storage
    }

    /// The salt, where one has been set.
    pub fn salt(&self) -> (salt: Option<&Salt>)
        ensures
            salt is Some <==> self.header().has_salt(),
            salt matches Some(s) ==> s@ == self.header().salt,
    {
        if self.header.has_salt() {
            Some(&self.header.salt)
        } else {
            None
        }
    }

    /// Sets the salt. It can be set once: no salt must have been set before.
    pub fn update_salt(&mut self, salt: Salt)
        requires
            old(self).inv(),
            !old(self).header().has_salt(),
        ensures
            final(self).inv(),
            final(self).anchor_memory() == old(self).anchor_memory(),
            final(self).header() == (HeaderView { salt: salt@, ..old(self).header() }),
            final(self).bytes() == stored(old(self).bytes(), 0, final(self).header().encode()),
            final(self).anchor_bytes() == old(self).anchor_bytes(),
    {
        self.header.salt = salt;
        self.flush();
    }

    /// Opens the store that `memory` holds. There is none in a memory
    /// without pages. A memory with pages must begin with a header that can
    /// be opened; where the header names the managed layout, the memory
    /// manager is set up, unless it is there.
    pub fn from_memory(memory: VectorMemory) -> (r: Option<Storage>)
        requires
            page_count(memory_bytes(memory)) >= 1 ==> is_recoverable(memory_bytes(memory)),
        ensures
            r is None <==> page_count(memory_bytes(memory)) < 1,
            r matches Some(storage) ==> {
                &&& storage.inv()
                &&& storage.header() == HeaderView::decode(memory_bytes(memory))
                &&& storage.bytes() == opened(storage.anchor_memory(), memory_bytes(memory))
            },
    {
        if memory_size(&memory) < 1 {
            return None;
        }
        let ghost before = memory_bytes(memory);
        let encoded = memory_read(&memory, 0, HEADER_SIZE);
        let header = Header::from_bytes(encoded.as_slice());
        proof {
            lemma_decode_prefix(before);
            lemma_header_encoding(header@, encoded@);
            lemma_fresh_manager(
                before,
                MANAGER_FIRST_PAGE as int,
                MAX_WASM_PAGES as int,
                BUCKET_SIZE_IN_PAGES,
                ANCHOR_MEMORY_INDEX,
            );
        }
        if header.version == MANAGED_LAYOUT_VERSION {
            let mut memory = memory;
            manager_init(&mut memory, MANAGER_FIRST_PAGE, MAX_WASM_PAGES, BUCKET_SIZE_IN_PAGES);
            Some(Storage { header, memory, anchor_memory: AnchorMemory::Managed })
        } else {
            Some(Storage { header, memory, anchor_memory: AnchorMemory::Single })
        }
    }

    /// Allocates the next anchor number of the range, or none where the range
    /// is used up.
    pub fn allocate_anchor(&mut self) -> (allocated: Option<AnchorNumber>)
        requires
            old(self).inv(),
        ensures
            final(self).inv(),
            final(self).anchor_memory() == old(self).anchor_memory(),
            allocated is Some <==> old(self).header().num_anchors < old(self).header().id_range_hi
                - old(self).header().id_range_lo,
            allocated matches Some(anchor_number) ==> {
                &&& anchor_number == old(self).header().id_range_lo
                    + old(self).header().num_anchors
                &&& final(self).header() == (HeaderView {
                    num_anchors: (old(self).header().num_anchors + 1) as u32,
                    ..old(self).header()
                })
                &&& final(self).bytes() == stored(
                    old(self).bytes(),
                    0,
                    final(self).header().encode(),
                )
            },
            allocated is None ==> final(self).header() == old(self).header()
                && final(self).bytes() == old(self).bytes(),
            final(self).anchor_bytes() == old(self).anchor_bytes(),
    {
        let anchor_number = self.header.id_range_lo + self.header.num_anchors as u64;
        if anchor_number >= self.header.id_range_hi {
            return None;
        }
        self.header.num_anchors += 1;
        self.flush();
        Some(anchor_number)
    }

    /// Writes the header to the memory.
    pub fn flush(&mut self)
        requires
            old(self).is_coherent(),
        ensures
            final(self).inv(),
            final(self).header() == old(self).header(),
            final(self).anchor_memory() == old(self).anchor_memory(),
            final(self).bytes() == stored(old(self).bytes(), 0, old(self).header().encode()),
            final(self).anchor_bytes() == old(self).anchor_bytes(),
    {
        let encoded = self.header.to_bytes();
        // The header has the pages in front of the records to itself, or the
        // one page in front of the memory manager.
        let end_page: u64 = match self.anchor_memory {
            AnchorMemory::Single => RECORDS_FIRST_PAGE,
            AnchorMemory::Managed => MANAGER_FIRST_PAGE,
        };
        let ghost before = memory_bytes(self.memory);
        let written = window_write(&mut self.memory, 0, end_page, 0, encoded.as_slice());
        proof {
            assert(written is Ok);
            lemma_stored(before, 0, encoded@);
            if self.anchor_memory == AnchorMemory::Managed {
                lemma_stored_elsewhere(
                    before,
                    0,
                    encoded@,
                    WASM_PAGE_SIZE as int,
                    2 * WASM_PAGE_SIZE,
                );
            }
            lemma_sole_tenant_frame(
                before,
                memory_bytes(self.memory),
                MANAGER_FIRST_PAGE as int,
                BUCKET_SIZE_IN_PAGES as int,
                ANCHOR_MEMORY_INDEX,
            );
        }
    }

    /// The number of allocated anchors.
    pub fn anchor_count(&self) -> (n: usize)
        ensures
            n == self.header().num_anchors,
    {
        self.header.num_anchors as usize
    }

    /// The largest number of records that the store has room for.
    pub fn max_entries(&self) -> (n: usize)
        requires
            self.inv(),
        ensures
            n == crate::header::spec_max_entries(
                self.header().first_entry_offset,
                self.header().entry_size,
            ),
    {
        self.header.max_entries() as usize
    }

    /// The half-open range of anchor numbers that the store hands out.
    pub fn assigned_anchor_number_range(&self) -> (range: (AnchorNumber, AnchorNumber))
        ensures
            range == (self.header().id_range_lo, self.header().id_range_hi),
    {
        (self.header.id_range_lo, self.header.id_range_hi)
    }

    /// What `check_anchor_number_range` answers: the first of the rules that
    /// the range breaks, or nothing where it breaks none.
    pub open spec fn spec_check_anchor_number_range(
        self,
        range: (AnchorNumber, AnchorNumber),
    ) -> Result<(), RangeError> {
        let (lo, hi) = range;
        let header = self.header();
        let max_entries = crate::header::spec_max_entries(
            header.first_entry_offset,
            header.entry_size,
        );
        if hi < lo {
            Err(RangeError::Improper { lo, hi })
        } else if hi - lo > max_entries {
            Err(RangeError::TooLarge { lo, hi, max_entries: max_entries as u64 })
        } else if header.num_anchors > 0 && header.id_range_lo != lo {
            Err(RangeError::StartMoved { lo, hi, current_lo: header.id_range_lo })
        } else if header.num_anchors > 0 && hi - lo < header.num_anchors {
            Err(RangeError::TooSmall { lo, hi, num_anchors: header.num_anchors })
        } else {
            Ok(())
        }
    }

    /// Says whether the range can be assigned to the store: it must be
    /// proper and no larger than the store has room for; where anchors exist,
    /// it must start where the current range starts and have a number for
    /// each of them.
    pub fn check_anchor_number_range(&self, range: (AnchorNumber, AnchorNumber)) -> (r: Result<
        (),
        RangeError,
    >)
        requires
            self.inv(),
        ensures
            r == self.spec_check_anchor_number_range(range),
    {
        let (lo, hi) = range;
        if hi < lo {
            return Err(RangeError::Improper { lo, hi });
        }
        let max_entries = self.header.max_entries();
        if hi - lo > max_entries {
            return Err(RangeError::TooLarge { lo, hi, max_entries });
        }
        if self.header.num_anchors > 0 {
            if self.header.id_range_lo != lo {
                return Err(RangeError::StartMoved { lo, hi, current_lo: self.header.id_range_lo });
            }
            if hi - lo < self.header.num_anchors as u64 {
                return Err(
                    RangeError::TooSmall { lo, hi, num_anchors: self.header.num_anchors },
                );
            }
        }
        Ok(())
    }

    /// Assigns another range of anchor numbers to the store. The range must
    /// be one that `check_anchor_number_range` accepts.
    pub fn set_anchor_number_range(&mut self, range: (AnchorNumber, AnchorNumber))
        requires
            old(self).inv(),
            old(self).spec_check_anchor_number_range(range) is Ok,
        ensures
            final(self).inv(),
            final(self).anchor_memory() == old(self).anchor_memory(),
            final(self).header() == (HeaderView {
                id_range_lo: range.0,
                id_range_hi: range.1,
                ..old(self).header()
            }),
            final(self).bytes() == stored(old(self).bytes(), 0, final(self).header().encode()),
            final(self).anchor_bytes() == old(self).anchor_bytes(),
    {
        self.header.id_range_lo = range.0;
        self.header.id_range_hi = range.1;
        self.flush();
    }

    /// The layout version.
    pub fn version(&self) -> (version: u8)
        ensures
            version == self.header().version,
    {
        self.header.version
    }
}

} // verus!
