//! The memory manager's page: what `ic_stable_structures` keeps in front of
//! the buckets it hands out, and the one arrangement of it that this store
//! creates and relies on.
//!
//! ```text
//! offset 0      magic "MGR"                    3 bytes
//! offset 3      layout version                 1 byte
//! offset 4      number of allocated buckets    2 bytes
//! offset 6      bucket size in pages           2 bytes
//! offset 8      reserved                       32 bytes
//! offset 40     size of memory 0..254 in pages 255 * 8 bytes
//! offset 2080   owner of bucket 0..32767       32768 bytes
//! next page     the buckets
//! ```
//!
//! The store is the manager's only tenant. Its memory therefore owns the
//! buckets in order, and its bytes lie in one piece behind the manager's page.

use crate::layout::WASM_PAGE_SIZE;
use crate::memory::{
    lemma_stored, memory_bytes, page_count, pages_covering, stored, window_pages, MAX_ADDRESS, MAX_WINDOW_END,
};
use ic_stable_structures::memory_manager::{MemoryId, MemoryManager};
use ic_stable_structures::reader::{BufferedReader, Reader};
use ic_stable_structures::writer::{BufferedWriter, Writer};
use ic_stable_structures::{Memory, RestrictedMemory, VectorMemory};
use vstd::bytes::*;
use vstd::prelude::*;

verus! {

pub const HEADER_RESERVED_BYTES: usize = 32;

pub const MAX_NUM_MEMORIES: u8 = 255;

pub const MAX_NUM_BUCKETS: u64 = 32768;

/// Owner recorded for a bucket that no memory owns.
pub const UNALLOCATED_BUCKET_MARKER: u8 = MAX_NUM_MEMORIES;

pub const MAGIC: [u8; 3] = [0x4d, 0x47, 0x52];

pub const LAYOUT_VERSION: u8 = 1;

/// Number of bytes in an encoded manager header.
pub const HEADER_SIZE: usize = 2080;

/// Offset of the bucket owners, right behind the header.
pub const BUCKETS_OFFSET: u64 = 2080;

/// Offset of the memory sizes within the header.
pub const SIZES_OFFSET: usize = 40;

/// The memory manager's header.
pub struct Header {
    pub magic: [u8; 3],
    pub version: u8,
    /// The number of buckets allocated by the memory manager.
    pub num_allocated_buckets: u16,
    /// The size of a bucket in pages.
    pub bucket_size_in_pages: u16,
    /// Reserved bytes for future extensions.
    pub _reserved: [u8; 32],
    /// The size of each memory that the manager can hand out.
    pub memory_sizes_in_pages: [u64; 255],
}

/// The little-endian encodings of `sizes`, one after the other.
pub open spec fn sizes_to_seq(sizes: Seq<u64>) -> Seq<u8> {
    Seq::new(8 * sizes.len(), |i: int| spec_u64_to_le_bytes(sizes[i / 8])[i % 8])
}

/// Number of buckets of `bucket_pages` pages that `pages` pages take.
pub open spec fn buckets_for(pages: int, bucket_pages: int) -> int {
    (pages + bucket_pages - 1) / bucket_pages
}

/// The owners of all buckets when the first `buckets` belong to `id` and the
/// others to nobody.
pub open spec fn bucket_owners(buckets: int, id: u8) -> Seq<u8> {
    Seq::new(
        MAX_NUM_BUCKETS as nat,
        |i: int|
            if i < buckets {
                id
            } else {
                UNALLOCATED_BUCKET_MARKER
            },
    )
}

/// The sizes of all memories when memory `id` has `pages` pages and the
/// others are empty.
pub open spec fn single_size(id: u8, pages: u64) -> Seq<u64> {
    Seq::new(
        MAX_NUM_MEMORIES as nat,
        |i: int|
            if i == id {
                pages
            } else {
                0u64
            },
    )
}

/// The encoded header of a manager with `buckets` allocated buckets of
/// `bucket_pages` pages whose memory `id` has `pages` pages and whose other
/// memories are empty.
pub open spec fn tenant_header(buckets: u16, bucket_pages: u16, id: u8, pages: u64) -> Seq<u8> {
    MAGIC@ + seq![LAYOUT_VERSION] + spec_u16_to_le_bytes(buckets) + spec_u16_to_le_bytes(
        bucket_pages,
    ) + Seq::new(HEADER_RESERVED_BYTES as nat, |i: int| 0u8) + sizes_to_seq(single_size(id, pages))
}

impl Header {
    /// The encoding of the header.
    pub open spec fn to_seq(self) -> Seq<u8> {
        self.magic@ + seq![self.version] + spec_u16_to_le_bytes(self.num_allocated_buckets)
            + spec_u16_to_le_bytes(self.bucket_size_in_pages) + self._reserved@ + sizes_to_seq(
            self.memory_sizes_in_pages@,
        )
    }

    /// Builds the header of a manager with `buckets` allocated buckets of
    /// `bucket_pages` pages whose memory `id` has `pages` pages and whose
    /// other memories are empty.
    pub fn for_tenant(buckets: u16, bucket_pages: u16, id: u8, pages: u64) -> (header: Header)
        requires
            id < MAX_NUM_MEMORIES,
        ensures
            header.to_seq() == tenant_header(buckets, bucket_pages, id, pages),
            header.num_allocated_buckets == buckets,
            header.bucket_size_in_pages == bucket_pages,
            header.memory_sizes_in_pages@ == single_size(id, pages),
    {
        let mut memory_sizes_in_pages: [u64; 255] = [0u64; 255];
        memory_sizes_in_pages[id as usize] = pages;
        let header = Header {
            magic: MAGIC,
            version: LAYOUT_VERSION,
            num_allocated_buckets: buckets,
            bucket_size_in_pages: bucket_pages,
            _reserved: [0u8; 32],
            memory_sizes_in_pages,
        };
        header
    }

    /// Encodes the header into its 2080 bytes.
    pub fn to_bytes(&self) -> (out: Vec<u8>)
        ensures
            out@ == self.to_seq(),
            out@.len() == HEADER_SIZE,
    {
        proof {
            lemma_auto_spec_u16_to_from_le_bytes();
            lemma_auto_spec_u64_to_from_le_bytes();
        }
        let mut out: Vec<u8> = Vec::with_capacity(HEADER_SIZE);
        out.push(self.magic[0]);
        out.push(self.magic[1]);
        out.push(self.magic[2]);
        out.push(self.version);
        let mut buckets = u16_to_le_bytes(self.num_allocated_buckets);
        out.append(&mut buckets);
        let mut bucket_pages = u16_to_le_bytes(self.bucket_size_in_pages);
        out.append(&mut bucket_pages);
        let ghost before_reserved = out@;
        let mut i: usize = 0;
        while i < 32
            invariant
                i <= 32,
                out@ == before_reserved + self._reserved@.subrange(0, i as int),
            decreases 32 - i,
        {
            out.push(self._reserved[i]);
            i += 1;
        }
        let ghost before_sizes = out@;
        let mut j: usize = 0;
        while j < 255
            invariant
                j <= 255,
                before_sizes.len() == SIZES_OFFSET,
                out@ == before_sizes + sizes_to_seq(self.memory_sizes_in_pages@.subrange(0, j as int)),
                forall|x: u64| #[trigger] spec_u64_to_le_bytes(x).len() == 8,
            decreases 255 - j,
        {
            let mut size = u64_to_le_bytes(self.memory_sizes_in_pages[j]);
            out.append(&mut size);
            assert(out@ =~= before_sizes + sizes_to_seq(
                self.memory_sizes_in_pages@.subrange(0, j + 1),
            ));
            j += 1;
        }
        out
    }
}

/// Builds the owners of all buckets when the first `buckets` belong to `id`.
pub fn bucket_table(buckets: u16, id: u8) -> (table: Vec<u8>)
    ensures
        table@ == bucket_owners(buckets as int, id),
{
    let mut table: Vec<u8> = Vec::with_capacity(MAX_NUM_BUCKETS as usize);
    let mut i: usize = 0;
    while i < MAX_NUM_BUCKETS as usize
        invariant
            i <= MAX_NUM_BUCKETS,
            table@.len() == i,
            forall|j: int| 0 <= j < i ==> table@[j] == bucket_owners(buckets as int, id)[j],
        decreases MAX_NUM_BUCKETS - i,
    {
        table.push(
            if i < buckets as usize {
                id
            } else {
                UNALLOCATED_BUCKET_MARKER
            },
        );
        i += 1;
    }
    table
}

/// No manager is found in the window that starts at `first_page`: the window
/// is empty, or it does not begin with the manager's magic.
pub open spec fn manager_absent(bytes: Seq<u8>, first_page: int, end_page: int) -> bool {
    let start = first_page * WASM_PAGE_SIZE;
    window_pages(bytes, first_page, end_page) == 0 || bytes.subrange(start, start + 3) != MAGIC@
}

/// The number of allocated buckets in the manager's header.
pub open spec fn manager_buckets(bytes: Seq<u8>, first_page: int) -> int {
    let start = first_page * WASM_PAGE_SIZE;
    spec_u16_from_le_bytes(bytes.subrange(start + 4, start + 6)) as int
}

/// The bucket size in the manager's header.
pub open spec fn manager_bucket_pages(bytes: Seq<u8>, first_page: int) -> int {
    let start = first_page * WASM_PAGE_SIZE;
    spec_u16_from_le_bytes(bytes.subrange(start + 6, start + 8)) as int
}

/// The size in pages of memory `id` in the manager's header.
pub open spec fn tenant_pages(bytes: Seq<u8>, first_page: int, id: u8) -> int {
    let at = first_page * WASM_PAGE_SIZE + SIZES_OFFSET + 8 * id;
    spec_u64_from_le_bytes(bytes.subrange(at, at + 8)) as int
}

/// A manager with buckets of `bucket_pages` pages sits at `first_page`, and
/// memory `id` is its only tenant: the memory has exactly the buckets that
/// its size takes, they are the first ones in order, and all of them lie
/// inside `bytes`.
pub open spec fn is_sole_tenant(bytes: Seq<u8>, first_page: int, bucket_pages: int, id: u8) -> bool {
    let start = first_page * WASM_PAGE_SIZE;
    let buckets = manager_buckets(bytes, first_page);
    &&& bucket_pages > 0
    &&& page_count(bytes) >= first_page + 1 + buckets * bucket_pages
    &&& bytes.subrange(start, start + 3) == MAGIC@
    &&& bytes[start + 3] == LAYOUT_VERSION
    &&& manager_bucket_pages(bytes, first_page) == bucket_pages
    &&& buckets == buckets_for(tenant_pages(bytes, first_page, id), bucket_pages)
    &&& buckets <= MAX_NUM_BUCKETS
    &&& bytes.subrange(start + BUCKETS_OFFSET, start + BUCKETS_OFFSET + MAX_NUM_BUCKETS)
        == bucket_owners(buckets, id)
}

/// The size in pages of the tenant once it holds `end` bytes.
pub open spec fn tenant_pages_after(bytes: Seq<u8>, first_page: int, id: u8, end: int) -> int {
    let pages = tenant_pages(bytes, first_page, id);
    if end <= pages * WASM_PAGE_SIZE {
        pages
    } else {
        pages_covering(end)
    }
}

/// The manager's page once it records that memory `id` has grown to `pages`
/// pages: the header is written anew, with the new number of buckets, the
/// reserved bytes zeroed and the new size of the memory; the buckets that the
/// size takes are owned by the memory; the rest of the page is as it was.
pub open spec fn manager_page_grown(page: Seq<u8>, bucket_pages: u16, id: u8, pages: u64) -> Seq<
    u8,
> {
    let buckets = buckets_for(pages as int, bucket_pages as int);
    let size_at = SIZES_OFFSET + 8 * id;
    Seq::new(
        page.len(),
        |i: int|
            if i < 3 {
                MAGIC@[i]
            } else if i == 3 {
                LAYOUT_VERSION
            } else if i < 6 {
                spec_u16_to_le_bytes(buckets as u16)[i - 4]
            } else if i < 8 {
                spec_u16_to_le_bytes(bucket_pages)[i - 6]
            } else if i < SIZES_OFFSET {
                0u8
            } else if size_at <= i < size_at + 8 {
                spec_u64_to_le_bytes(pages)[i - size_at]
            } else if BUCKETS_OFFSET <= i < BUCKETS_OFFSET + buckets {
                id
            } else {
                page[i]
            },
    )
}

/// The memory after `data` was put at `offset` of the only tenant of the
/// manager at `first_page`. Where the tenant ends before the end of `data`,
/// it grows to the pages that hold it: the manager's page records the growth,
/// and the memory is filled up with zeroes to the end of the tenant's
/// buckets. `data` then lies at `offset` behind the manager's page. All else
/// is as it was.
pub open spec fn tenant_written(
    before: Seq<u8>,
    first_page: int,
    bucket_pages: u16,
    id: u8,
    offset: int,
    data: Seq<u8>,
) -> Seq<u8> {
    let start = first_page * WASM_PAGE_SIZE;
    let at = start + WASM_PAGE_SIZE + offset;
    let pages = tenant_pages_after(before, first_page, id, offset + data.len());
    let grows = pages > tenant_pages(before, first_page, id);
    let reach = first_page + 1 + buckets_for(pages, bucket_pages as int) * bucket_pages;
    let page = before.subrange(start, start + WASM_PAGE_SIZE);
    if data.len() == 0 {
        before
    } else {
        Seq::new(
            if grows && reach > page_count(before) {
                (reach * WASM_PAGE_SIZE) as nat
            } else {
                before.len()
            },
            |i: int|
                if at <= i < at + data.len() {
                    data[i - at]
                } else if grows && start <= i < start + WASM_PAGE_SIZE {
                    manager_page_grown(page, bucket_pages, id, pages as u64)[i - start]
                } else if i < before.len() {
                    before[i]
                } else {
                    0u8
                },
        )
    }
}

/// `after` is `before` once `data` was put at `offset` of the only tenant:
/// the tenant has grown to hold the end of `data`, with buckets taken in
/// order and zeroed pages added to the memory where it ended before them;
/// `data` lies at `offset`; outside of `data` and of the manager's page every
/// byte is as it was.
pub open spec fn tenant_stored(
    before: Seq<u8>,
    after: Seq<u8>,
    first_page: int,
    bucket_pages: int,
    id: u8,
    offset: int,
    data: Seq<u8>,
) -> bool {
    let start = first_page * WASM_PAGE_SIZE;
    let at = start + WASM_PAGE_SIZE + offset;
    let pages = tenant_pages_after(before, first_page, id, offset + data.len());
    let reach = first_page + 1 + buckets_for(pages, bucket_pages) * bucket_pages;
    &&& is_sole_tenant(after, first_page, bucket_pages, id)
    &&& tenant_pages(after, first_page, id) == pages
    &&& after.len() == if reach > page_count(before) {
        reach * WASM_PAGE_SIZE
    } else {
        before.len() as int
    }
    &&& after.subrange(at, at + data.len()) == data
    &&& forall|i: int|
        0 <= i < after.len() && !(start <= i < start + WASM_PAGE_SIZE) && !(at <= i < at
            + data.len()) ==> #[trigger] after[i] == if i < before.len() {
            before[i]
        } else {
            0u8
        }
}

/// The memory after a manager for the window `[first_page, end_page)` has
/// been set up on `bytes`: where none was found, the header of a manager
/// without buckets and then the owners of no bucket are put at the start of
/// the window; else nothing changes.
pub open spec fn manager_initialized(
    bytes: Seq<u8>,
    first_page: int,
    end_page: int,
    bucket_pages: u16,
) -> Seq<u8> {
    if manager_absent(bytes, first_page, end_page) {
        stored(
            stored(bytes, first_page * WASM_PAGE_SIZE, tenant_header(0, bucket_pages, 0, 0)),
            first_page * WASM_PAGE_SIZE + BUCKETS_OFFSET,
            bucket_owners(0, 0),
        )
    } else {
        bytes
    }
}

/// Where in its encoding the header of a manager with one tenant keeps what.
pub proof fn lemma_tenant_header(buckets: u16, bucket_pages: u16, id: u8, pages: u64)
    requires
        id < MAX_NUM_MEMORIES,
    ensures
        ({
            let header = tenant_header(buckets, bucket_pages, id, pages);
            &&& header.len() == HEADER_SIZE
            &&& header.subrange(0, 3) == MAGIC@
            &&& header[3] == LAYOUT_VERSION
            &&& spec_u16_from_le_bytes(header.subrange(4, 6)) == buckets
            &&& spec_u16_from_le_bytes(header.subrange(6, 8)) == bucket_pages
            &&& spec_u64_from_le_bytes(
                header.subrange(SIZES_OFFSET + 8 * id, SIZES_OFFSET + 8 * id + 8),
            ) == pages
        }),
{
    lemma_auto_spec_u16_to_from_le_bytes();
    lemma_auto_spec_u64_to_from_le_bytes();
    let header = tenant_header(buckets, bucket_pages, id, pages);
    assert(header.subrange(4, 6) =~= spec_u16_to_le_bytes(buckets));
    assert(header.subrange(6, 8) =~= spec_u16_to_le_bytes(bucket_pages));
    let at = SIZES_OFFSET + 8 * id;
    assert(header.subrange(at, at + 8) =~= spec_u64_to_le_bytes(pages));
}

/// The memory after the header of a manager with one tenant and the owners
/// of its buckets were put into the page at `first_page`: the manager's
/// fields read back as written, at least the manager's page is there, and
/// outside of that page every byte is as it was.
pub proof fn lemma_manager_page_written(
    bytes: Seq<u8>,
    first_page: int,
    buckets: u16,
    bucket_pages: u16,
    id: u8,
    pages: u64,
)
    requires
        0 <= first_page,
        id < MAX_NUM_MEMORIES,
    ensures
        ({
            let start = first_page * WASM_PAGE_SIZE;
            let after = stored(
                stored(bytes, start, tenant_header(buckets, bucket_pages, id, pages)),
                start + BUCKETS_OFFSET,
                bucket_owners(buckets as int, id),
            );
            &&& after.len() >= bytes.len()
            &&& page_count(after) >= first_page + 1
            &&& page_count(after) >= page_count(bytes)
            &&& page_count(bytes) >= first_page + 1 ==> after.len() == bytes.len()
            &&& after.subrange(start, start + 3) == MAGIC@
            &&& after[start + 3] == LAYOUT_VERSION
            &&& manager_buckets(after, first_page) == buckets
            &&& manager_bucket_pages(after, first_page) == bucket_pages
            &&& tenant_pages(after, first_page, id) == pages
            &&& after.subrange(start + BUCKETS_OFFSET, start + BUCKETS_OFFSET + MAX_NUM_BUCKETS)
                == bucket_owners(buckets as int, id)
            &&& forall|i: int|
                0 <= i < after.len() && !(start <= i < start + WASM_PAGE_SIZE)
                    ==> #[trigger] after[i] == if i < bytes.len() {
                    bytes[i]
                } else {
                    0u8
                }
        }),
{
    let start = first_page * WASM_PAGE_SIZE;
    let header = tenant_header(buckets, bucket_pages, id, pages);
    let owners = bucket_owners(buckets as int, id);
    let middle = stored(bytes, start, header);
    let after = stored(middle, start + BUCKETS_OFFSET, owners);
    lemma_tenant_header(buckets, bucket_pages, id, pages);
    lemma_stored(bytes, start, header);
    lemma_stored(middle, start + BUCKETS_OFFSET, owners);
    assert(after.subrange(start + 4, start + 6) =~= header.subrange(4, 6));
    assert(after.subrange(start + 6, start + 8) =~= header.subrange(6, 8));
    let at = SIZES_OFFSET + 8 * id;
    assert(after.subrange(start + at, start + at + 8) =~= header.subrange(at, at + 8));
}

/// Setting up a manager where none was found gives one without buckets, of
/// which any memory is the only tenant, and leaves the bytes in front of its
/// page as they were.
pub proof fn lemma_fresh_manager(
    bytes: Seq<u8>,
    first_page: int,
    end_page: int,
    bucket_pages: u16,
    id: u8,
)
    requires
        0 <= first_page < end_page,
        bucket_pages > 0,
        id < MAX_NUM_MEMORIES,
    ensures
        ({
            let after = manager_initialized(bytes, first_page, end_page, bucket_pages);
            &&& after.len() >= bytes.len()
            &&& forall|to: int|
                0 <= to <= bytes.len() && to <= first_page * WASM_PAGE_SIZE
                    ==> #[trigger] after.subrange(0, to) == bytes.subrange(0, to)
            &&& manager_absent(bytes, first_page, end_page) ==> {
                &&& is_sole_tenant(after, first_page, bucket_pages as int, id)
                &&& manager_buckets(after, first_page) == 0
                &&& tenant_pages(after, first_page, id) == 0
            }
        }),
{
    let after = manager_initialized(bytes, first_page, end_page, bucket_pages);
    if manager_absent(bytes, first_page, end_page) {
        lemma_manager_page_written(bytes, first_page, 0, bucket_pages, 0, 0);
        lemma_tenant_header(0, bucket_pages, id, 0);
        lemma_auto_spec_u64_to_from_le_bytes();
        assert(single_size(id, 0) =~= single_size(0, 0));
        let start = first_page * WASM_PAGE_SIZE;
        let at = SIZES_OFFSET + 8 * id;
        let header = tenant_header(0, bucket_pages, 0, 0);
        assert(after.subrange(start, start + HEADER_SIZE) =~= header) by {
            lemma_stored(bytes, start, header);
            lemma_stored(stored(bytes, start, header), start + BUCKETS_OFFSET, bucket_owners(0, 0));
        }
        assert(after.subrange(start + at, start + at + 8) =~= header.subrange(at, at + 8));
        assert(bucket_owners(0, id) =~= bucket_owners(0, 0));
        assert(buckets_for(0, bucket_pages as int) == 0) by (nonlinear_arith)
            requires
                bucket_pages > 0,
        ;
        assert forall|to: int|
            0 <= to <= bytes.len() && to <= first_page * WASM_PAGE_SIZE
            implies #[trigger] after.subrange(0, to) =~= bytes.subrange(0, to) by {}
    }
}

/// The buckets that hold a number of pages have room for them, and more
/// pages never take fewer buckets.
pub proof fn lemma_buckets_for(pages: int, more: int, bucket_pages: int)
    requires
        0 <= pages <= more,
        bucket_pages > 0,
    ensures
        0 <= buckets_for(pages, bucket_pages) <= buckets_for(more, bucket_pages),
        buckets_for(pages, bucket_pages) * bucket_pages >= pages,
        buckets_for(pages, bucket_pages) <= pages,
{
    let x = pages + bucket_pages - 1;
    vstd::arithmetic::div_mod::lemma_fundamental_div_mod(x, bucket_pages);
    vstd::arithmetic::div_mod::lemma_mod_bound(x, bucket_pages);
    vstd::arithmetic::div_mod::lemma_div_is_ordered(x, more + bucket_pages - 1, bucket_pages);
    vstd::arithmetic::div_mod::lemma_div_pos_is_pos(x, bucket_pages);
    let k = buckets_for(pages, bucket_pages);
    assert(bucket_pages * k == k * bucket_pages) by (nonlinear_arith);
    assert(k <= pages) by (nonlinear_arith)
        requires
            k * bucket_pages <= pages + bucket_pages - 1,
            bucket_pages >= 1,
            k >= 0,
            pages >= 0,
    ;
}

/// A write to the only tenant leaves a manager whose only tenant it still
/// is, now with the pages that hold the end of the data; the data lies at
/// its place, and outside of it and of the manager's page nothing has changed.
pub proof fn lemma_tenant_written(
    before: Seq<u8>,
    first_page: int,
    bucket_pages: u16,
    id: u8,
    offset: int,
    data: Seq<u8>,
)
    requires
        0 <= first_page,
        0 <= offset,
        id < MAX_NUM_MEMORIES,
        data.len() > 0,
        offset + data.len() <= MAX_ADDRESS,
        is_sole_tenant(before, first_page, bucket_pages as int, id),
        buckets_for(
            tenant_pages_after(before, first_page, id, offset + data.len()),
            bucket_pages as int,
        ) <= MAX_NUM_BUCKETS,
    ensures
        tenant_stored(
            before,
            tenant_written(before, first_page, bucket_pages, id, offset, data),
            first_page,
            bucket_pages as int,
            id,
            offset,
            data,
        ),
{
    let after = tenant_written(before, first_page, bucket_pages, id, offset, data);
    let start = first_page * WASM_PAGE_SIZE;
    let at = start + WASM_PAGE_SIZE + offset;
    let end = offset + data.len();
    let old_pages = tenant_pages(before, first_page, id);
    let pages = tenant_pages_after(before, first_page, id, end);
    let buckets = buckets_for(pages, bucket_pages as int);
    let page = before.subrange(start, start + WASM_PAGE_SIZE);
    lemma_buckets_for(old_pages, pages, bucket_pages as int);
    lemma_buckets_for(pages, pages, bucket_pages as int);
    lemma_auto_spec_u16_to_from_le_bytes();
    lemma_auto_spec_u64_to_from_le_bytes();
    assert(pages * WASM_PAGE_SIZE <= buckets * bucket_pages * WASM_PAGE_SIZE) by (nonlinear_arith)
        requires
            pages <= buckets * bucket_pages,
    ;
    assert(after.subrange(at, at + data.len()) =~= data);
    if pages > old_pages {
        let size_at = SIZES_OFFSET + 8 * id;
        assert(after.subrange(start, start + 3) =~= MAGIC@);
        assert(after.subrange(start + 4, start + 6) =~= spec_u16_to_le_bytes(buckets as u16));
        assert(after.subrange(start + 6, start + 8) =~= spec_u16_to_le_bytes(bucket_pages));
        assert(after.subrange(start + size_at, start + size_at + 8) =~= spec_u64_to_le_bytes(
            pages as u64,
        ));
        let owners = before.subrange(
            start + BUCKETS_OFFSET,
            start + BUCKETS_OFFSET + MAX_NUM_BUCKETS,
        );
        assert forall|i: int| 0 <= i < MAX_NUM_BUCKETS implies #[trigger] after.subrange(
            start + BUCKETS_OFFSET,
            start + BUCKETS_OFFSET + MAX_NUM_BUCKETS,
        )[i] == bucket_owners(buckets, id)[i] by {
            if i >= buckets {
                assert(owners[i] == before[start + BUCKETS_OFFSET + i]);
            }
        }
        assert(after.subrange(start + BUCKETS_OFFSET, start + BUCKETS_OFFSET + MAX_NUM_BUCKETS)
            =~= bucket_owners(buckets, id));
    } else {
        assert(after.subrange(start, start + WASM_PAGE_SIZE) =~= page);
        lemma_sole_tenant_frame(before, after, first_page, bucket_pages as int, id);
    }
}

/// A change of the memory that neither shortens it nor touches the manager's
/// page leaves the manager and its tenant as they are.
pub proof fn lemma_sole_tenant_frame(
    before: Seq<u8>,
    after: Seq<u8>,
    first_page: int,
    bucket_pages: int,
    id: u8,
)
    requires
        0 <= first_page,
        id < MAX_NUM_MEMORIES,
    ensures
        ({
            let start = first_page * WASM_PAGE_SIZE;
            before.len() >= start + WASM_PAGE_SIZE && after.len() >= before.len()
                && after.subrange(start, start + WASM_PAGE_SIZE) == before.subrange(
                start,
                start + WASM_PAGE_SIZE,
            ) ==> {
                &&& manager_buckets(after, first_page) == manager_buckets(before, first_page)
                &&& tenant_pages(after, first_page, id) == tenant_pages(before, first_page, id)
                &&& is_sole_tenant(before, first_page, bucket_pages, id) ==> is_sole_tenant(
                    after,
                    first_page,
                    bucket_pages,
                    id,
                )
            }
        }),
{
    let start = first_page * WASM_PAGE_SIZE;
    if before.len() >= start + WASM_PAGE_SIZE && after.len() >= before.len() && after.subrange(
        start,
        start + WASM_PAGE_SIZE,
    ) == before.subrange(start, start + WASM_PAGE_SIZE) {
        let page = before.subrange(start, start + WASM_PAGE_SIZE);
        let same = after.subrange(start, start + WASM_PAGE_SIZE);
        let at = SIZES_OFFSET + 8 * id;
        assert(before.subrange(start, start + 3) =~= page.subrange(0, 3));
        assert(after.subrange(start, start + 3) =~= same.subrange(0, 3));
        assert(before.subrange(start + 4, start + 6) =~= page.subrange(4, 6));
        assert(after.subrange(start + 4, start + 6) =~= same.subrange(4, 6));
        assert(before.subrange(start + 6, start + 8) =~= page.subrange(6, 8));
        assert(after.subrange(start + 6, start + 8) =~= same.subrange(6, 8));
        assert(before.subrange(start + at, start + at + 8) =~= page.subrange(at, at + 8));
        assert(after.subrange(start + at, start + at + 8) =~= same.subrange(at, at + 8));
        assert(before.subrange(start + BUCKETS_OFFSET, start + BUCKETS_OFFSET + MAX_NUM_BUCKETS)
            =~= page.subrange(BUCKETS_OFFSET as int, BUCKETS_OFFSET + MAX_NUM_BUCKETS));
        assert(after.subrange(start + BUCKETS_OFFSET, start + BUCKETS_OFFSET + MAX_NUM_BUCKETS)
            =~= same.subrange(BUCKETS_OFFSET as int, BUCKETS_OFFSET + MAX_NUM_BUCKETS));
        assert(before[start + 3] == page[3]);
    }
}

/// `MemoryManager::init_with_bucket_size` on a `RestrictedMemory` over the
/// pages `[first_page, end_page)`. Where the window is empty or does not begin
/// with the manager's magic, a header without buckets and then the owners of
/// no bucket are written to it; else the manager is loaded from the window and
/// nothing is written. Loading stops the program on a version other than 1.
#[verifier::external_body]
pub(crate) fn manager_init(
    memory: &mut VectorMemory,
    first_page: u64,
    end_page: u64,
    bucket_pages: u16,
)
    requires
        first_page < end_page <= MAX_WINDOW_END,
        (first_page + 1) * WASM_PAGE_SIZE <= MAX_ADDRESS,
        manager_absent(memory_bytes(*old(memory)), first_page as int, end_page as int)
            || memory_bytes(*old(memory))[first_page * WASM_PAGE_SIZE + 3] == LAYOUT_VERSION,
    ensures
        memory_bytes(*final(memory)) == manager_initialized(
            memory_bytes(*old(memory)),
            first_page as int,
            end_page as int,
            bucket_pages,
        ),
{
    let window = RestrictedMemory::new(memory.clone(), first_page..end_page);
    MemoryManager::init_with_bucket_size(window, bucket_pages);
}

/// `Memory::size` of the `VirtualMemory` with number `id` that a
/// `MemoryManager` over the pages `[first_page, end_page)` hands out: the size
/// in the manager's header. The pages of an only tenant lie inside the
/// vector, whose length is a `usize`.
#[verifier::external_body]
pub(crate) fn tenant_size(
    memory: &VectorMemory,
    first_page: u64,
    end_page: u64,
    bucket_pages: u16,
    id: u8,
) -> (pages: u64)
    requires
        first_page < end_page <= MAX_WINDOW_END,
        id < MAX_NUM_MEMORIES,
        is_sole_tenant(memory_bytes(*memory), first_page as int, bucket_pages as int, id),
    ensures
        pages == tenant_pages(memory_bytes(*memory), first_page as int, id),
        pages * WASM_PAGE_SIZE <= usize::MAX,
{
    let window = RestrictedMemory::new(memory.clone(), first_page..end_page);
    MemoryManager::init_with_bucket_size(window, bucket_pages).get(MemoryId::new(id)).size()
}

/// `write_all` and `flush` of a `BufferedWriter` with a buffer of
/// `buffer_size` bytes over a `Writer` at `offset` of the `VirtualMemory` with
/// number `id` that a `MemoryManager` over the pages `[first_page, end_page)`
/// hands out. The writer first grows the virtual memory until it holds the end
/// of `data`; the manager refuses, changing nothing, where that takes more
/// buckets than it can number, and stops the program where the window has no
/// room for the buckets of the grown memory. A write that ends inside the
/// virtual memory grows nothing and asks nothing of the window. Nothing is
/// written for empty `data`.
#[verifier::external_body]
pub(crate) fn tenant_write_buffered(
    memory: &mut VectorMemory,
    first_page: u64,
    end_page: u64,
    bucket_pages: u16,
    id: u8,
    offset: u64,
    buffer_size: usize,
    data: &[u8],
) -> (r: Result<(), std::io::Error>)
    requires
        first_page < end_page <= MAX_WINDOW_END,
        id < MAX_NUM_MEMORIES,
        is_sole_tenant(memory_bytes(*old(memory)), first_page as int, bucket_pages as int, id),
        end_page * WASM_PAGE_SIZE + offset + data@.len() <= MAX_ADDRESS,
        buffer_size <= MAX_ADDRESS,
        tenant_pages_after(memory_bytes(*old(memory)), first_page as int, id, offset + data@.len())
            > tenant_pages(memory_bytes(*old(memory)), first_page as int, id) ==> first_page + 1
            + buckets_for(
            tenant_pages_after(
                memory_bytes(*old(memory)),
                first_page as int,
                id,
                offset + data@.len(),
            ),
            bucket_pages as int,
        ) * bucket_pages <= end_page,
    ensures
        r is Ok <==> data@.len() == 0 || buckets_for(
            tenant_pages_after(
                memory_bytes(*old(memory)),
                first_page as int,
                id,
                offset + data@.len(),
            ),
            bucket_pages as int,
        ) <= MAX_NUM_BUCKETS,
        r is Ok ==> memory_bytes(*final(memory)) == tenant_written(
            memory_bytes(*old(memory)),
            first_page as int,
            bucket_pages,
            id,
            offset as int,
            data@,
        ),
        r is Err ==> memory_bytes(*final(memory)) == memory_bytes(*old(memory)),
{
    let window = RestrictedMemory::new(memory.clone(), first_page..end_page);
    let manager = MemoryManager::init_with_bucket_size(window, bucket_pages);
    let mut tenant = manager.get(MemoryId::new(id));
    let mut writer = BufferedWriter::new(buffer_size, Writer::new(&mut tenant, offset));
    std::io::Write::write_all(&mut writer, data)?;
    std::io::Write::flush(&mut writer)
}

/// `read_exact` of a `BufferedReader` with a buffer of `buffer_size` bytes
/// over a `Reader` at `offset` of the `VirtualMemory` with number `id` that a
/// `MemoryManager` over the pages `[first_page, end_page)` hands out: the
/// `len` bytes from `offset` of the virtual memory on, or an error where it
/// ends before them.
#[verifier::external_body]
pub(crate) fn tenant_read_buffered(
    memory: &VectorMemory,
    first_page: u64,
    end_page: u64,
    bucket_pages: u16,
    id: u8,
    offset: u64,
    buffer_size: usize,
    len: usize,
) -> (r: Result<Vec<u8>, std::io::Error>)
    requires
        first_page < end_page <= MAX_WINDOW_END,
        id < MAX_NUM_MEMORIES,
        is_sole_tenant(memory_bytes(*memory), first_page as int, bucket_pages as int, id),
        end_page * WASM_PAGE_SIZE + offset + len + buffer_size <= MAX_ADDRESS,
    ensures
        r is Ok <==> len == 0 || offset + len <= tenant_pages(
            memory_bytes(*memory),
            first_page as int,
            id,
        ) * WASM_PAGE_SIZE,
        r matches Ok(out) ==> out@.len() == len && (len > 0 ==> out@ == memory_bytes(
            *memory,
        ).subrange(
            (first_page + 1) * WASM_PAGE_SIZE + offset,
            (first_page + 1) * WASM_PAGE_SIZE + offset + len,
        )),
{
    let window = RestrictedMemory::new(memory.clone(), first_page..end_page);
    let tenant = MemoryManager::init_with_bucket_size(window, bucket_pages).get(MemoryId::new(id));
    let mut reader = BufferedReader::new(buffer_size, Reader::new(&tenant, offset));
    let mut out = vec![0u8; len];
    std::io::Read::read_exact(&mut reader, &mut out)?;
    Ok(out)
}

} // verus!
