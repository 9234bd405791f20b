//! Migration from the flat layout to the managed layout, in place.
//!
//! In the flat layout the records start at page 2. A memory manager whose
//! page is page 1 puts its first bucket at page 2 as well. So the records
//! need not move: the migration writes a manager's page that gives the
//! records' pages, as they lie, to the first virtual memory, and then names
//! the new layout in the storage header.
//!
//! The manager's page is complete before the storage header changes. A
//! memory in which the migration stopped half way is therefore still a store
//! in the flat layout.

use crate::anchor_memory::{
    AnchorMemory, ANCHOR_MEMORY_INDEX, BUCKET_SIZE_IN_PAGES, MANAGER_FIRST_PAGE,
    RECORDS_FIRST_PAGE,
};
use crate::header::{lemma_decode_prefix, lemma_header_encoding, HeaderView};
use crate::laws::law_reopen;
use crate::layout::{
    FLAT_LAYOUT_VERSION, HEADER_SIZE, MANAGED_LAYOUT_VERSION, MAX_WASM_PAGES, WASM_PAGE_SIZE,
};
use crate::memory::{
    lemma_stored, lemma_stored_elsewhere, memory_bytes, memory_grow, memory_size, page_count,
    resized, stored, window_pages, window_write,
};
use crate::mm::{
    bucket_owners, bucket_table, buckets_for, lemma_manager_page_written,
    lemma_sole_tenant_frame, lemma_tenant_header, tenant_header, Header, BUCKETS_OFFSET,
};
use crate::storage::{is_recoverable, opened, Storage};
use ic_stable_structures::VectorMemory;
use vstd::prelude::*;

verus! {

/// The number of pages that the records take in the flat layout.
pub open spec fn flat_anchor_pages(bytes: Seq<u8>) -> int {
    window_pages(bytes, RECORDS_FIRST_PAGE as int, MAX_WASM_PAGES as int)
}

/// The number of pages that the memory must have for the buckets of the
/// records: the two pages in front of them, and the buckets whole.
pub open spec fn migrated_reach(bytes: Seq<u8>) -> int {
    RECORDS_FIRST_PAGE + buckets_for(flat_anchor_pages(bytes), BUCKET_SIZE_IN_PAGES as int)
        * BUCKET_SIZE_IN_PAGES
}

/// The memory of a store in the flat layout after the first `step` of the
/// four steps of its migration: the memory is filled up with zeroed pages to
/// the end of the buckets that the records take, where it ends before; the
/// manager's header is written to page 1; the owners of the buckets are
/// written behind it; the storage header is written with the new version.
pub open spec fn migrating(bytes: Seq<u8>, step: int) -> Seq<u8> {
    let header = HeaderView::decode(bytes);
    let pages = flat_anchor_pages(bytes);
    let buckets = buckets_for(pages, BUCKET_SIZE_IN_PAGES as int);
    let grown = if page_count(bytes) < migrated_reach(bytes) {
        resized(bytes, migrated_reach(bytes) * WASM_PAGE_SIZE)
    } else {
        bytes
    };
    let with_header = stored(
        grown,
        MANAGER_FIRST_PAGE * WASM_PAGE_SIZE,
        tenant_header(buckets as u16, BUCKET_SIZE_IN_PAGES, ANCHOR_MEMORY_INDEX, pages as u64),
    );
    let with_owners = stored(
        with_header,
        MANAGER_FIRST_PAGE * WASM_PAGE_SIZE + BUCKETS_OFFSET,
        bucket_owners(buckets, ANCHOR_MEMORY_INDEX),
    );
    if step <= 0 {
        bytes
    } else if step == 1 {
        grown
    } else if step == 2 {
        with_header
    } else if step == 3 {
        with_owners
    } else {
        stored(with_owners, 0, (HeaderView { version: MANAGED_LAYOUT_VERSION, ..header }).encode())
    }
}

/// The memory of a store after its migration to the managed layout. A store
/// in the managed layout is only opened; one in the flat layout goes through
/// the four steps of the migration.
pub open spec fn migrated(bytes: Seq<u8>) -> Seq<u8> {
    if HeaderView::decode(bytes).version == MANAGED_LAYOUT_VERSION {
        opened(AnchorMemory::Managed, bytes)
    } else {
        migrating(bytes, 4)
    }
}

/// A migration that has not yet written the storage header has left a store
/// in the flat layout: the header is as it was, and so are the records, but
/// that zeroed pages may follow them.
pub proof fn lemma_migrating(bytes: Seq<u8>, step: int)
    requires
        page_count(bytes) >= 1,
        is_recoverable(bytes),
        HeaderView::decode(bytes).version == FLAT_LAYOUT_VERSION,
        0 <= step <= 3,
    ensures
        ({
            let now = migrating(bytes, step);
            &&& page_count(now) >= 1
            &&& is_recoverable(now)
            &&& HeaderView::decode(now) == HeaderView::decode(bytes)
            &&& now.subrange(0, HEADER_SIZE as int) == bytes.subrange(0, HEADER_SIZE as int)
            &&& AnchorMemory::Single.contents(now).len() >= AnchorMemory::Single.contents(
                bytes,
            ).len()
            &&& forall|i: int|
                0 <= i < AnchorMemory::Single.contents(bytes).len()
                    ==> #[trigger] AnchorMemory::Single.contents(now)[i]
                    == AnchorMemory::Single.contents(bytes)[i]
        }),
{
    let pages = flat_anchor_pages(bytes);
    let buckets = buckets_for(pages, BUCKET_SIZE_IN_PAGES as int);
    let grown = migrating(bytes, 1);
    let now = migrating(bytes, step);
    assert(buckets == (pages + 127) / 128);
    let with_header = migrating(bytes, 2);
    lemma_tenant_header(buckets as u16, BUCKET_SIZE_IN_PAGES, ANCHOR_MEMORY_INDEX, pages as u64);
    lemma_stored(
        grown,
        MANAGER_FIRST_PAGE * WASM_PAGE_SIZE,
        tenant_header(buckets as u16, BUCKET_SIZE_IN_PAGES, ANCHOR_MEMORY_INDEX, pages as u64),
    );
    lemma_stored(
        with_header,
        MANAGER_FIRST_PAGE * WASM_PAGE_SIZE + BUCKETS_OFFSET,
        bucket_owners(buckets, ANCHOR_MEMORY_INDEX),
    );
    assert(page_count(grown) >= page_count(bytes) && page_count(grown) >= 2);
    assert(page_count(with_header) == page_count(grown));
    assert(page_count(migrating(bytes, 3)) == page_count(with_header));
    assert(now.subrange(0, HEADER_SIZE as int) =~= bytes.subrange(0, HEADER_SIZE as int));
    lemma_decode_prefix(bytes);
    lemma_decode_prefix(now);
}

/// What the migration of a store in the flat layout comes to: the memory
/// holds a manager whose only tenant is made of the pages of the records as
/// they were, and begins with the header under its new version.
pub proof fn lemma_migrated(bytes: Seq<u8>)
    requires
        page_count(bytes) >= 1,
        is_recoverable(bytes),
        HeaderView::decode(bytes).version == FLAT_LAYOUT_VERSION,
    ensures
        ({
            let after = migrated(bytes);
            let header = HeaderView { version: MANAGED_LAYOUT_VERSION, ..HeaderView::decode(bytes) };
            &&& page_count(after) >= page_count(bytes)
            &&& page_count(after) >= 2
            &&& after.subrange(0, 3) == bytes.subrange(0, 3)
            &&& after[3] == MANAGED_LAYOUT_VERSION
            &&& after.subrange(4, HEADER_SIZE as int) == bytes.subrange(4, HEADER_SIZE as int)
            &&& after.subrange(0, HEADER_SIZE as int) == header.encode()
            &&& HeaderView::decode(after) == header
            &&& AnchorMemory::Managed.is_ready(after)
            &&& is_recoverable(after)
            &&& opened(AnchorMemory::Managed, after) == after
            &&& AnchorMemory::Managed.spec_size(after) == flat_anchor_pages(bytes)
            &&& AnchorMemory::Managed.contents(after) == AnchorMemory::Single.contents(bytes)
        }),
{
    let old_header = HeaderView::decode(bytes);
    let header = HeaderView { version: MANAGED_LAYOUT_VERSION, ..old_header };
    let pages = flat_anchor_pages(bytes);
    let buckets = buckets_for(pages, BUCKET_SIZE_IN_PAGES as int);
    let grown = migrating(bytes, 1);
    let start = MANAGER_FIRST_PAGE * WASM_PAGE_SIZE;
    let middle = stored(
        grown,
        start,
        tenant_header(buckets as u16, BUCKET_SIZE_IN_PAGES, ANCHOR_MEMORY_INDEX, pages as u64),
    );
    let managed = stored(middle, start + BUCKETS_OFFSET, bucket_owners(buckets, ANCHOR_MEMORY_INDEX));
    let after = stored(managed, 0, header.encode());
    assert(buckets == (pages + 127) / 128);
    assert(page_count(grown) >= page_count(bytes) && page_count(grown) >= 2 + buckets * 128);
    lemma_header_encoding(old_header, bytes);
    lemma_header_encoding(header, bytes);
    lemma_manager_page_written(
        grown,
        MANAGER_FIRST_PAGE as int,
        buckets as u16,
        BUCKET_SIZE_IN_PAGES,
        ANCHOR_MEMORY_INDEX,
        pages as u64,
    );
    lemma_stored(managed, 0, header.encode());
    lemma_stored_elsewhere(managed, 0, header.encode(), start as int, start + WASM_PAGE_SIZE);
    lemma_sole_tenant_frame(
        managed,
        after,
        MANAGER_FIRST_PAGE as int,
        BUCKET_SIZE_IN_PAGES as int,
        ANCHOR_MEMORY_INDEX,
    );
    lemma_decode_prefix(after);
    lemma_decode_prefix(bytes);
    let was = bytes.subrange(0, HEADER_SIZE as int);
    let is = after.subrange(0, HEADER_SIZE as int);
    lemma_header_encoding(old_header, was);
    assert(was == old_header.encode());
    assert(after.subrange(0, 3) =~= is.subrange(0, 3));
    assert(bytes.subrange(0, 3) =~= was.subrange(0, 3));
    assert(is.subrange(0, 3) =~= was.subrange(0, 3));
    assert(after.subrange(4, HEADER_SIZE as int) =~= is.subrange(4, HEADER_SIZE as int));
    assert(bytes.subrange(4, HEADER_SIZE as int) =~= was.subrange(4, HEADER_SIZE as int));
    assert(is.subrange(4, HEADER_SIZE as int) =~= was.subrange(4, HEADER_SIZE as int));
    assert(after[3] == is[3]);
}

impl Storage {
    /// Opens the store that `memory` holds and, where it is in the flat
    /// layout, brings it to the managed layout first. The records stay where
    /// they are and as they are, and so does the header but for its version.
    /// There is no store in a memory without pages. A memory with pages must
    /// be one that `from_memory` opens.
    pub fn from_memory_v6_to_v7(memory: VectorMemory) -> (r: Option<Storage>)
        requires
            page_count(memory_bytes(memory)) >= 1 ==> is_recoverable(memory_bytes(memory)),
        ensures
            r is None <==> page_count(memory_bytes(memory)) < 1,
            r matches Some(storage) ==> {
                &&& storage.inv()
                &&& storage.anchor_memory() == AnchorMemory::Managed
                &&& storage.header() == (HeaderView {
                    version: MANAGED_LAYOUT_VERSION,
                    ..HeaderView::decode(memory_bytes(memory))
                })
                &&& storage.bytes() == migrated(memory_bytes(memory))
                &&& is_recoverable(storage.bytes())
                &&& HeaderView::decode(memory_bytes(memory)).version == FLAT_LAYOUT_VERSION ==> {
                    &&& storage.anchor_bytes() == AnchorMemory::Single.contents(
                        memory_bytes(memory),
                    )
                    &&& storage.bytes().subrange(0, 3) == memory_bytes(memory).subrange(0, 3)
                    &&& storage.bytes()[3] == MANAGED_LAYOUT_VERSION
                    &&& storage.bytes().subrange(4, HEADER_SIZE as int) == memory_bytes(
                        memory,
                    ).subrange(4, HEADER_SIZE as int)
                }
                &&& HeaderView::decode(memory_bytes(memory)).version == MANAGED_LAYOUT_VERSION
                    && AnchorMemory::Managed.is_ready(memory_bytes(memory)) ==> storage.bytes()
                    == memory_bytes(memory)
            },
    {
        let ghost before = memory_bytes(memory);
        let storage_v6 = match Storage::from_memory(memory) {
            Some(storage) => storage,
            None => {
                return None;
            },
        };
        if storage_v6.header.version == MANAGED_LAYOUT_VERSION {
            // Already in the managed layout: nothing to migrate.
            proof {
                law_reopen(storage_v6);
            }
            return Some(storage_v6);
        }
        let anchor_pages = storage_v6.anchor_memory.size(&storage_v6.memory);
        let memory_pages = memory_size(&storage_v6.memory);
        let Storage { header, memory, anchor_memory: _ } = storage_v6;
        let mut memory = memory;
        proof {
            lemma_migrated(before);
        }

        // Set up page 1 with the metadata of the memory manager.
        let num_allocated_buckets: u16 = ((anchor_pages + (BUCKET_SIZE_IN_PAGES as u64) - 1)
            / BUCKET_SIZE_IN_PAGES as u64) as u16;
        let mm_header = Header::for_tenant(
            num_allocated_buckets,
            BUCKET_SIZE_IN_PAGES,
            ANCHOR_MEMORY_INDEX,
            anchor_pages,
        );
        let pages_in_allocated_buckets = BUCKET_SIZE_IN_PAGES as u64
            * num_allocated_buckets as u64;
        // The memory must reach to the end of the last bucket.
        let reach = RECORDS_FIRST_PAGE + pages_in_allocated_buckets;
        if memory_pages < reach {
            memory_grow(&mut memory, reach - memory_pages);
        }
        assert(memory_bytes(memory) == migrating(before, 1));
        let mm_header_bytes = mm_header.to_bytes();
        let header_written = window_write(
            &mut memory,
            MANAGER_FIRST_PAGE,
            MANAGER_FIRST_PAGE + 1,
            0,
            mm_header_bytes.as_slice(),
        );
        assert(header_written is Ok);
        assert(memory_bytes(memory) == migrating(before, 2));

        // The owners of the buckets follow right behind the header.
        let bucket_to_memory = bucket_table(num_allocated_buckets, ANCHOR_MEMORY_INDEX);
        proof {
            lemma_stored(migrating(before, 1), MANAGER_FIRST_PAGE * WASM_PAGE_SIZE, mm_header_bytes@);
        }
        let table_written = window_write(
            &mut memory,
            MANAGER_FIRST_PAGE,
            MANAGER_FIRST_PAGE + 1,
            BUCKETS_OFFSET,
            bucket_to_memory.as_slice(),
        );
        assert(table_written is Ok);
        assert(memory_bytes(memory) == migrating(before, 3));

        // Only now name the managed layout in the storage header.
        let mut storage_v7_header = header;
        storage_v7_header.version = MANAGED_LAYOUT_VERSION;
        let storage_header_bytes = storage_v7_header.to_bytes();
        proof {
            lemma_manager_page_written(
                migrating(before, 1),
                MANAGER_FIRST_PAGE as int,
                num_allocated_buckets,
                BUCKET_SIZE_IN_PAGES,
                ANCHOR_MEMORY_INDEX,
                anchor_pages,
            );
        }
        let version_written = window_write(
            &mut memory,
            0,
            MANAGER_FIRST_PAGE,
            0,
            storage_header_bytes.as_slice(),
        );
        assert(version_written is Ok);
        assert(memory_bytes(memory) == migrating(before, 4));
        Storage::from_memory(memory)
    }
}

} // verus!
