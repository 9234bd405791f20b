//! The memory that holds the anchor records, in its two flavours.
//!
//! In the flat layout the records are a window of the backing memory that
//! starts at page 2. In the managed layout they are the one virtual memory of
//! a memory manager whose page is page 1; as its only tenant, that memory
//! starts at page 2 as well. A record therefore has the same address in the
//! backing memory in both layouts.

use crate::layout::{ENTRY_OFFSET, MAX_WASM_PAGES, WASM_PAGE_SIZE};
use crate::memory::{
    lemma_stored, memory_bytes, stored, window_pages, window_read_buffered, window_size,
    window_write_buffered,
};
use crate::mm::{
    is_sole_tenant, lemma_buckets_for, lemma_tenant_written, tenant_pages, tenant_pages_after,
    tenant_read_buffered, tenant_size, tenant_write_buffered, tenant_written, MAX_NUM_BUCKETS,
};
use ic_stable_structures::VectorMemory;
use vstd::prelude::*;

verus! {

/// Number of the virtual memory that holds the records.
pub const ANCHOR_MEMORY_INDEX: u8 = 0;

/// Size of the memory manager's buckets in pages. It is small, so that little
/// is wasted where several virtual memories hold small amounts of data.
pub const BUCKET_SIZE_IN_PAGES: u16 = 128;

/// First page of the records in the flat layout.
pub const RECORDS_FIRST_PAGE: u64 = 2;

/// Page of the memory manager in the managed layout.
pub const MANAGER_FIRST_PAGE: u64 = 1;

/// The largest number of buckets that fit between the manager's page and the
/// last page that the store may address: a virtual memory can grow to as many.
pub const MAX_ANCHOR_BUCKETS: u64 = 4095;

/// The largest address in the anchor memory that a read, with its buffer,
/// may be asked to reach: far behind any memory, and small enough for the
/// addresses of the backing memory to be computed.
pub const MAX_READ_END: u64 = 0x3fff_0000_0000_0000;

/// The flavour of the memory that holds the records.
#[derive(Clone, Copy, Debug, PartialEq, Eq, Structural)]
pub enum AnchorMemory {
    /// A window of the backing memory.
    Single,
    /// A virtual memory handed out by a memory manager.
    Managed,
}

impl AnchorMemory {
    /// The backing memory is arranged as this flavour needs it: nothing is
    /// asked of the flat layout; in the managed layout the manager is there
    /// and the records are its only tenant.
    pub open spec fn is_ready(self, bytes: Seq<u8>) -> bool {
        match self {
            AnchorMemory::Single => true,
            AnchorMemory::Managed => is_sole_tenant(
                bytes,
                MANAGER_FIRST_PAGE as int,
                BUCKET_SIZE_IN_PAGES as int,
                ANCHOR_MEMORY_INDEX,
            ),
        }
    }

    /// The size of the anchor memory in pages.
    pub open spec fn spec_size(self, bytes: Seq<u8>) -> int {
        match self {
            AnchorMemory::Single => window_pages(
                bytes,
                RECORDS_FIRST_PAGE as int,
                MAX_WASM_PAGES as int,
            ),
            AnchorMemory::Managed => tenant_pages(
                bytes,
                MANAGER_FIRST_PAGE as int,
                ANCHOR_MEMORY_INDEX,
            ),
        }
    }

    /// The number of bytes that the anchor memory on `bytes` can be written
    /// up to: as far as it can grow inside the pages that the store may
    /// address, and in any case as far as it reaches.
    pub open spec fn capacity(self, bytes: Seq<u8>) -> int {
        match self {
            AnchorMemory::Single => (MAX_WASM_PAGES - RECORDS_FIRST_PAGE) * WASM_PAGE_SIZE,
            AnchorMemory::Managed => if self.spec_size(bytes) > MAX_ANCHOR_BUCKETS
                * BUCKET_SIZE_IN_PAGES {
                self.spec_size(bytes) * WASM_PAGE_SIZE
            } else {
                MAX_ANCHOR_BUCKETS * BUCKET_SIZE_IN_PAGES * WASM_PAGE_SIZE
            },
        }
    }

    /// The bytes of the anchor memory.
    pub open spec fn contents(self, bytes: Seq<u8>) -> Seq<u8> {
        if self.spec_size(bytes) <= 0 {
            Seq::empty()
        } else {
            bytes.subrange(
                ENTRY_OFFSET as int,
                ENTRY_OFFSET + self.spec_size(bytes) * WASM_PAGE_SIZE,
            )
        }
    }

    /// The backing memory once `data` was written at `address` of the anchor
    /// memory.
    pub open spec fn written(self, before: Seq<u8>, address: int, data: Seq<u8>) -> Seq<u8> {
        match self {
            AnchorMemory::Single => stored(before, ENTRY_OFFSET + address, data),
            AnchorMemory::Managed => tenant_written(
                before,
                MANAGER_FIRST_PAGE as int,
                BUCKET_SIZE_IN_PAGES,
                ANCHOR_MEMORY_INDEX,
                address,
                data,
            ),
        }
    }

    /// The anchor memory is as long as its pages.
    pub proof fn lemma_contents_len(self, bytes: Seq<u8>)
        requires
            self.is_ready(bytes),
        ensures
            self.contents(bytes).len() == self.spec_size(bytes) * WASM_PAGE_SIZE,
    {
    }

    /// What a write to the anchor memory does, whatever the flavour: the
    /// anchor memory holds `data` at `address` and is otherwise as it was,
    /// only longer where it had to grow; the first page of the backing
    /// memory, with the header, is as it was; and the memory is still
    /// arranged for this flavour.
    pub proof fn lemma_written(
        self,
        before: Seq<u8>,
        after: Seq<u8>,
        address: int,
        data: Seq<u8>,
    )
        requires
            self.is_ready(before),
            after == self.written(before, address, data),
            data.len() > 0,
            0 <= address,
            address + data.len() <= self.capacity(before),
        ensures
            self.is_ready(after),
            after.len() >= before.len(),
            forall|to: int|
                0 <= to <= before.len() && to <= WASM_PAGE_SIZE ==> #[trigger] after.subrange(0, to)
                    == before.subrange(0, to),
            self.contents(after).len() == self.spec_size(after) * WASM_PAGE_SIZE,
            self.contents(before).len() == self.spec_size(before) * WASM_PAGE_SIZE,
            self.contents(after).len() >= self.contents(before).len(),
            self.contents(after).len() >= address + data.len(),
            self.contents(after).subrange(address, address + data.len()) == data,
            forall|i: int|
                0 <= i < self.contents(before).len() && !(address <= i < address + data.len())
                    ==> #[trigger] self.contents(after)[i] == self.contents(before)[i],
    {
        let end = address + data.len();
        match self {
            AnchorMemory::Single => {
                lemma_stored(before, ENTRY_OFFSET + address, data);
            },
            AnchorMemory::Managed => {
                lemma_buckets_for(
                    tenant_pages(before, MANAGER_FIRST_PAGE as int, ANCHOR_MEMORY_INDEX),
                    tenant_pages_after(
                        before,
                        MANAGER_FIRST_PAGE as int,
                        ANCHOR_MEMORY_INDEX,
                        end,
                    ),
                    BUCKET_SIZE_IN_PAGES as int,
                );
                lemma_tenant_written(
                    before,
                    MANAGER_FIRST_PAGE as int,
                    BUCKET_SIZE_IN_PAGES,
                    ANCHOR_MEMORY_INDEX,
                    address,
                    data,
                );
            },
        }
        assert forall|to: int|
            0 <= to <= before.len() && to <= WASM_PAGE_SIZE implies #[trigger] after.subrange(0, to)
            =~= before.subrange(0, to) by {}
    }

    /// The size of the anchor memory in pages.
    pub fn size(&self, memory: &VectorMemory) -> (pages: u64)
        requires
            self.is_ready(memory_bytes(*memory)),
        ensures
            pages == self.spec_size(memory_bytes(*memory)),
            pages * WASM_PAGE_SIZE <= usize::MAX,
            pages <= MAX_NUM_BUCKETS * BUCKET_SIZE_IN_PAGES,
    {
        match self {
            AnchorMemory::Single => window_size(memory, RECORDS_FIRST_PAGE, MAX_WASM_PAGES),
            AnchorMemory::Managed => tenant_size(
                memory,
                MANAGER_FIRST_PAGE,
                MAX_WASM_PAGES,
                BUCKET_SIZE_IN_PAGES,
                ANCHOR_MEMORY_INDEX,
            ),
        }
    }

    /// Writes `data` at `address` of the anchor memory through a buffer of
    /// `buffer_size` bytes, growing the memory as far as `data` needs it.
    /// Nothing is written, and nothing grows, for empty `data`.
    pub fn write_all(
        &self,
        memory: &mut VectorMemory,
        address: u64,
        buffer_size: usize,
        data: &[u8],
    )
        requires
            self.is_ready(memory_bytes(*old(memory))),
            address + data@.len() <= self.capacity(memory_bytes(*old(memory))),
            buffer_size <= u16::MAX,
        ensures
            memory_bytes(*final(memory)) == self.written(
                memory_bytes(*old(memory)),
                address as int,
                data@,
            ),
    {
        match self {
            AnchorMemory::Single => {
                let written = window_write_buffered(
                    memory,
                    RECORDS_FIRST_PAGE,
                    MAX_WASM_PAGES,
                    address,
                    buffer_size,
                    data,
                );
                assert(written is Ok);
            },
            AnchorMemory::Managed => {
                let written = tenant_write_buffered(
                    memory,
                    MANAGER_FIRST_PAGE,
                    MAX_WASM_PAGES,
                    BUCKET_SIZE_IN_PAGES,
                    ANCHOR_MEMORY_INDEX,
                    address,
                    buffer_size,
                    data,
                );
                assert(written is Ok);
            },
        }
    }

    /// Reads `len` bytes from `address` of the anchor memory through a buffer
    /// of `buffer_size` bytes. It fails where the memory ends before them.
    pub fn read_exact(
        &self,
        memory: &VectorMemory,
        address: u64,
        buffer_size: usize,
        len: usize,
    ) -> (r: Result<Vec<u8>, std::io::Error>)
        requires
            self.is_ready(memory_bytes(*memory)),
            address + len + buffer_size <= MAX_READ_END,
        ensures
            r is Ok <==> len == 0 || address + len <= self.contents(memory_bytes(*memory)).len(),
            r matches Ok(out) ==> out@.len() == len && (len > 0 ==> out@ == self.contents(
                memory_bytes(*memory),
            ).subrange(address as int, address + len)),
    {
        proof {
            self.lemma_contents_len(memory_bytes(*memory));
        }
        match self {
            AnchorMemory::Single => window_read_buffered(
                memory,
                RECORDS_FIRST_PAGE,
                MAX_WASM_PAGES,
                address,
                buffer_size,
                len,
            ),
            AnchorMemory::Managed => tenant_read_buffered(
                memory,
                MANAGER_FIRST_PAGE,
                MAX_WASM_PAGES,
                BUCKET_SIZE_IN_PAGES,
                ANCHOR_MEMORY_INDEX,
                address,
                buffer_size,
                len,
            ),
        }
    }
}

} // verus!
