//! Tests that tell, before a store is created or opened, whether the
//! operation's conditions are met.
//!
//! The operations of the store take for granted that a range is proper, that
//! a memory holds a header that can be opened, and that a memory manager in
//! it has the records as its only tenant. Code that cannot know this asks
//! here first.

use crate::anchor_memory::{
    AnchorMemory, ANCHOR_MEMORY_INDEX, BUCKET_SIZE_IN_PAGES, MANAGER_FIRST_PAGE,
    MAX_ANCHOR_BUCKETS, RECORDS_FIRST_PAGE,
};
use crate::error::RangeError;
use crate::header::{lemma_decode_prefix, Header, HeaderError, HeaderView, HEADER_MAGIC};
use crate::layout::{
    AnchorNumber, DEFAULT_RANGE_SIZE, FLAT_LAYOUT_VERSION, HEADER_SIZE, MANAGED_LAYOUT_VERSION,
    MAX_WASM_PAGES, WASM_PAGE_SIZE,
};
use crate::memory::{memory_bytes, memory_read, memory_size, page_count};
use crate::mm::{
    bucket_owners, BUCKETS_OFFSET, LAYOUT_VERSION, MAGIC, MAX_NUM_BUCKETS, SIZES_OFFSET,
    UNALLOCATED_BUCKET_MARKER,
};
use crate::storage::{is_recoverable, manager_openable, Storage};
use ic_stable_structures::VectorMemory;
use vstd::bytes::*;
use vstd::prelude::*;
use vstd::slice::slice_subrange;

verus! {

/// Why a memory cannot be opened as a store.
#[derive(Clone, Copy, Debug, PartialEq, Eq)]
pub enum OpenError {
    /// The header cannot be opened.
    Header(HeaderError),
    /// The memory manager in the memory is not one whose only tenant are the
    /// records.
    ForeignManager,
}

/// What `check_new_range` answers.
pub open spec fn spec_check_new_range(range: (AnchorNumber, AnchorNumber)) -> Result<
    (),
    RangeError,
> {
    let (lo, hi) = range;
    if hi < lo {
        Err(RangeError::Improper { lo, hi })
    } else if hi - lo > DEFAULT_RANGE_SIZE {
        Err(RangeError::TooLarge { lo, hi, max_entries: DEFAULT_RANGE_SIZE })
    } else {
        Ok(())
    }
}

/// Says whether a new store can be given the range: it must be proper and
/// have no more numbers than a store has room for records.
pub fn check_new_range(range: (AnchorNumber, AnchorNumber)) -> (r: Result<(), RangeError>)
    ensures
        r == spec_check_new_range(range),
        r is Ok <==> range.0 <= range.1 && range.1 - range.0 <= DEFAULT_RANGE_SIZE,
{
    let (lo, hi) = range;
    if hi < lo {
        return Err(RangeError::Improper { lo, hi });
    }
    if hi - lo > DEFAULT_RANGE_SIZE {
        return Err(RangeError::TooLarge { lo, hi, max_entries: DEFAULT_RANGE_SIZE });
    }
    Ok(())
}

/// Says whether a memory manager can be set up on the memory: none is there
/// yet, or the one that is there has the records as its only tenant.
#[verifier::loop_isolation(false)]
pub fn check_manager(memory: &VectorMemory) -> (ok: bool)
    ensures
        ok == manager_openable(memory_bytes(*memory)),
{
    let ghost bytes = memory_bytes(*memory);
    let pages = memory_size(memory);
    if pages <= MANAGER_FIRST_PAGE {
        return true;
    }
    let page = memory_read(
        memory,
        MANAGER_FIRST_PAGE * WASM_PAGE_SIZE,
        (BUCKETS_OFFSET + MAX_NUM_BUCKETS) as usize,
    );
    let ghost start = (MANAGER_FIRST_PAGE * WASM_PAGE_SIZE) as int;
    proof {
        lemma_auto_spec_u16_to_from_le_bytes();
        assert(bytes.subrange(start, start + 3) =~= page@.subrange(0, 3));
        assert(bytes.subrange(start + 4, start + 6) =~= page@.subrange(4, 6));
        assert(bytes.subrange(start + 6, start + 8) =~= page@.subrange(6, 8));
        assert(bytes.subrange(start + 40, start + 48) =~= page@.subrange(40, 48));
        assert(bytes.subrange(start + BUCKETS_OFFSET, start + BUCKETS_OFFSET + MAX_NUM_BUCKETS)
            =~= page@.subrange(BUCKETS_OFFSET as int, BUCKETS_OFFSET + MAX_NUM_BUCKETS));
    }
    if page[0] != MAGIC[0] || page[1] != MAGIC[1] || page[2] != MAGIC[2] {
        assert(page@.subrange(0, 3) != MAGIC@);
        return true;
    }
    assert(page@.subrange(0, 3) =~= MAGIC@);
    if page[3] != LAYOUT_VERSION {
        return false;
    }
    let buckets = u16_from_le_bytes(slice_subrange(page.as_slice(), 4, 6));
    let bucket_pages = u16_from_le_bytes(slice_subrange(page.as_slice(), 6, 8));
    let tenant_pages = u64_from_le_bytes(
        slice_subrange(page.as_slice(), SIZES_OFFSET, SIZES_OFFSET + 8),
    );
    if bucket_pages != BUCKET_SIZE_IN_PAGES || buckets as u64 > MAX_NUM_BUCKETS || tenant_pages
        > MAX_NUM_BUCKETS * BUCKET_SIZE_IN_PAGES as u64 {
        return false;
    }
    if (tenant_pages + BUCKET_SIZE_IN_PAGES as u64 - 1) / BUCKET_SIZE_IN_PAGES as u64
        != buckets as u64 {
        return false;
    }
    if pages < MANAGER_FIRST_PAGE + 1 + buckets as u64 * BUCKET_SIZE_IN_PAGES as u64 {
        return false;
    }
    let ghost owners = bucket_owners(buckets as int, ANCHOR_MEMORY_INDEX);
    let mut i: usize = 0;
    while i < MAX_NUM_BUCKETS as usize
        invariant
            i <= MAX_NUM_BUCKETS,
            page@.len() == BUCKETS_OFFSET + MAX_NUM_BUCKETS,
            owners == bucket_owners(buckets as int, ANCHOR_MEMORY_INDEX),
            forall|j: int| 0 <= j < i ==> page@[BUCKETS_OFFSET + j] == owners[j],
        decreases MAX_NUM_BUCKETS - i,
    {
        let owner = if i < buckets as usize {
            ANCHOR_MEMORY_INDEX
        } else {
            UNALLOCATED_BUCKET_MARKER
        };
        if page[BUCKETS_OFFSET as usize + i] != owner {
            assert(page@.subrange(BUCKETS_OFFSET as int, BUCKETS_OFFSET + MAX_NUM_BUCKETS)[i as int]
                != owners[i as int]);
            return false;
        }
        i += 1;
    }
    assert(page@.subrange(BUCKETS_OFFSET as int, BUCKETS_OFFSET + MAX_NUM_BUCKETS) =~= owners);
    true
}

/// `error` is the first thing that is wrong with the header: its magic; else
/// its version, too old or too new; else its counters.
pub open spec fn is_header_fault(header: HeaderView, error: HeaderError) -> bool {
    match error {
        HeaderError::InvalidMagic(magic) => magic@ == header.magic && header.magic
            != HEADER_MAGIC@,
        HeaderError::VersionNoLongerSupported(version) => header.magic == HEADER_MAGIC@
            && version == header.version && version < FLAT_LAYOUT_VERSION,
        HeaderError::UnsupportedVersion(version) => header.magic == HEADER_MAGIC@ && version
            == header.version && version > MANAGED_LAYOUT_VERSION,
        HeaderError::Inconsistent => header.is_supported() && !header.is_consistent(),
    }
}

/// What `check_memory` answers: nothing is wrong with a memory without pages
/// or with one from which a store can be recovered; else the header is at
/// fault, or with a sound header that announces the managed layout, the
/// memory manager.
pub open spec fn spec_check_memory(bytes: Seq<u8>, r: Result<(), OpenError>) -> bool {
    let header = HeaderView::decode(bytes);
    match r {
        Ok(()) => page_count(bytes) >= 1 ==> is_recoverable(bytes),
        Err(OpenError::Header(error)) => page_count(bytes) >= 1 && is_header_fault(header, error),
        Err(OpenError::ForeignManager) => {
            &&& page_count(bytes) >= 1
            &&& header.is_supported()
            &&& header.is_consistent()
            &&& header.version == MANAGED_LAYOUT_VERSION
            &&& !manager_openable(bytes)
        },
    }
}

/// Says whether the memory can be opened as a store: it has no page, or it
/// begins with a header that can be opened and, in the managed layout, a
/// memory manager can be set up on it.
pub fn check_memory(memory: &VectorMemory) -> (r: Result<(), OpenError>)
    ensures
        spec_check_memory(memory_bytes(*memory), r),
{
    if memory_size(memory) < 1 {
        return Ok(());
    }
    let encoded = memory_read(memory, 0, HEADER_SIZE);
    let header = Header::from_bytes(encoded.as_slice());
    proof {
        lemma_decode_prefix(memory_bytes(*memory));
    }
    if let Err(e) = header.validate() {
        return Err(OpenError::Header(e));
    }
    if header.version == MANAGED_LAYOUT_VERSION && !check_manager(memory) {
        return Err(OpenError::ForeignManager);
    }
    Ok(())
}

impl Storage {
    /// Says whether a persistent state of `len` bytes fits behind the last
    /// allocated record.
    pub fn persistent_state_fits(&self, len: usize) -> (fits: bool)
        requires
            self.inv(),
        ensures
            fits == (self.spec_unused_memory_start() + crate::persistent::PERSISTENT_STATE_PREFIX
                + len <= self.anchor_memory().capacity(self.bytes())),
    {
        let capacity: u64 = match self.anchor_memory {
            AnchorMemory::Single => (MAX_WASM_PAGES - RECORDS_FIRST_PAGE) * WASM_PAGE_SIZE,
            AnchorMemory::Managed => {
                let pages = self.anchor_memory.size(&self.memory);
                if pages > MAX_ANCHOR_BUCKETS * BUCKET_SIZE_IN_PAGES as u64 {
                    pages * WASM_PAGE_SIZE
                } else {
                    MAX_ANCHOR_BUCKETS * BUCKET_SIZE_IN_PAGES as u64 * WASM_PAGE_SIZE
                }
            },
        };
        let start = self.unused_memory_start();
        proof {
            self.lemma_records_fit(self.header().num_anchors);
        }
        len as u64 <= capacity - start - crate::persistent::PERSISTENT_STATE_PREFIX
    }
}

} // verus!
