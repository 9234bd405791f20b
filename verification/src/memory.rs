//! The backing memory: a growable array of pages, reached through
//! `ic_stable_structures`.
//!
//! The store owns one [`VectorMemory`]. Everything it knows of the bytes in it
//! is stated over [`memory_bytes`]; the functions at the end of this file are
//! the only code that touches the memory, and their contracts are taken on
//! trust from the memory crate's source.

use crate::layout::WASM_PAGE_SIZE;
use ic_stable_structures::reader::{BufferedReader, Reader};
use ic_stable_structures::writer::{BufferedWriter, Writer};
use ic_stable_structures::{Memory, RestrictedMemory, VectorMemory};
use vstd::prelude::*;

verus! {

/// `std::cell::RefCell`, which a `VectorMemory` is made of.
#[verifier::external_type_specification]
#[verifier::external_body]
#[verifier::reject_recursive_types(T)]
pub struct ExRefCell<T: ?Sized>(std::cell::RefCell<T>);

/// `std::io::Error`, which the readers and writers of the memory crate report.
#[verifier::external_type_specification]
#[verifier::external_body]
pub struct ExIoError(std::io::Error);

/// The bytes that a memory holds, from address zero. Handles that share one
/// vector are not told apart: the store keeps the only handle it works with.
pub uninterp spec fn memory_bytes(m: VectorMemory) -> Seq<u8>;

/// The largest page number that a window may end at.
pub const MAX_WINDOW_END: u64 = 0xffff_ffff_ffff;

/// The largest address that the memory functions are asked to reach.
pub const MAX_ADDRESS: u64 = 0x3fff_ffff_ffff_ffff;

/// Number of whole pages in `bytes`.
pub open spec fn page_count(bytes: Seq<u8>) -> int {
    bytes.len() as int / WASM_PAGE_SIZE as int
}

/// Number of pages needed to hold `len` bytes.
pub open spec fn pages_covering(len: int) -> int {
    (len + WASM_PAGE_SIZE - 1) / WASM_PAGE_SIZE as int
}

/// `bytes`, cut or filled up with zeroes to `len` bytes.
pub open spec fn resized(bytes: Seq<u8>, len: int) -> Seq<u8> {
    Seq::new(
        len as nat,
        |i: int|
            if i < bytes.len() {
                bytes[i]
            } else {
                0u8
            },
    )
}

/// Number of pages that the window `[first_page, end_page)` shows of `bytes`.
pub open spec fn window_pages(bytes: Seq<u8>, first_page: int, end_page: int) -> int {
    let pages = page_count(bytes);
    if pages < first_page {
        0
    } else if pages > end_page {
        end_page - first_page
    } else {
        pages - first_page
    }
}

/// A write that ends `end` bytes into the window `[first_page, end_page)` is
/// let through: either the window already reaches that far, or the memory may
/// still grow until it does.
pub open spec fn window_admits(bytes: Seq<u8>, first_page: int, end_page: int, end: int) -> bool {
    let pages = page_count(bytes);
    ||| end <= window_pages(bytes, first_page, end_page) * WASM_PAGE_SIZE
    ||| pages < first_page
    ||| (pages < end_page && pages_covering(first_page * WASM_PAGE_SIZE + end) <= end_page)
}

/// `bytes` after `data` was put at `address`: where the whole pages do not
/// reach the end of `data`, zeroed pages are added first until they do.
pub open spec fn stored(bytes: Seq<u8>, address: int, data: Seq<u8>) -> Seq<u8> {
    let end = address + data.len();
    if data.len() == 0 {
        bytes
    } else {
        let room = if end <= page_count(bytes) * WASM_PAGE_SIZE {
            bytes
        } else {
            resized(bytes, pages_covering(end) * WASM_PAGE_SIZE)
        };
        Seq::new(
            room.len(),
            |i: int|
                if address <= i < end {
                    data[i - address]
                } else {
                    room[i]
                },
        )
    }
}

/// What `stored` changes and what it keeps: the result holds `data` at
/// `address`, is as long as the pages that hold the end of `data` where it
/// had to grow, and agrees elsewhere with `bytes`, filled up with zeroes.
pub proof fn lemma_stored(bytes: Seq<u8>, address: int, data: Seq<u8>)
    requires
        0 <= address,
        data.len() > 0,
    ensures
        ({
            let after = stored(bytes, address, data);
            let end = address + data.len();
            &&& after.len() >= bytes.len()
            &&& after.len() >= end
            &&& page_count(after) * WASM_PAGE_SIZE >= end
            &&& end <= page_count(bytes) * WASM_PAGE_SIZE ==> after.len() == bytes.len()
            &&& end > page_count(bytes) * WASM_PAGE_SIZE ==> after.len() == pages_covering(end)
                * WASM_PAGE_SIZE && page_count(after) == pages_covering(end)
            &&& after.subrange(address, end) == data
            &&& forall|i: int|
                0 <= i < after.len() && !(address <= i < end) ==> #[trigger] after[i] == if i
                    < bytes.len() {
                    bytes[i]
                } else {
                    0u8
                }
        }),
{
}

/// A part of the memory that lies wholly before or behind the place where
/// `data` is put stays as it is.
pub proof fn lemma_stored_elsewhere(bytes: Seq<u8>, address: int, data: Seq<u8>, from: int, to: int)
    requires
        0 <= address,
        0 <= from <= to <= bytes.len(),
        to <= address || address + data.len() <= from,
    ensures
        stored(bytes, address, data).subrange(from, to) == bytes.subrange(from, to),
{
    if data.len() > 0 {
        lemma_stored(bytes, address, data);
    }
}

/// `Memory::size` of a `VectorMemory`: the number of whole pages.
#[verifier::external_body]
pub(crate) fn memory_size(memory: &VectorMemory) -> (pages: u64)
    ensures
        pages == page_count(memory_bytes(*memory)),
{
    memory.size()
}

/// `Memory::grow` of a `VectorMemory`: cuts the vector to its whole pages,
/// adds `pages` zeroed pages and returns the number of pages before.
#[verifier::external_body]
pub(crate) fn memory_grow(memory: &mut VectorMemory, pages: u64) -> (previous: i64)
    requires
        (page_count(memory_bytes(*old(memory))) + pages) * WASM_PAGE_SIZE <= MAX_ADDRESS,
    ensures
        previous == page_count(memory_bytes(*old(memory))),
        memory_bytes(*final(memory)) == resized(
            memory_bytes(*old(memory)),
            (page_count(memory_bytes(*old(memory))) + pages) * WASM_PAGE_SIZE,
        ),
{
    memory.grow(pages)
}

/// `Memory::read` of a `VectorMemory`: the `len` bytes from `offset` on, which
/// must lie inside the vector.
#[verifier::external_body]
pub(crate) fn memory_read(memory: &VectorMemory, offset: u64, len: usize) -> (out: Vec<u8>)
    requires
        offset + len <= memory_bytes(*memory).len(),
    ensures
        out@ == memory_bytes(*memory).subrange(offset as int, offset + len),
{
    let mut out = vec![0u8; len];
    memory.read(offset, &mut out);
    out
}

/// `Memory::size` of a `RestrictedMemory` over the pages
/// `[first_page, end_page)`: the pages of the memory that fall into the
/// window. They are pages of a vector, whose length is a `usize`.
#[verifier::external_body]
pub(crate) fn window_size(memory: &VectorMemory, first_page: u64, end_page: u64) -> (pages: u64)
    requires
        first_page <= end_page <= MAX_WINDOW_END,
    ensures
        pages == window_pages(memory_bytes(*memory), first_page as int, end_page as int),
        pages * WASM_PAGE_SIZE <= usize::MAX,
{
    RestrictedMemory::new(memory.clone(), first_page..end_page).size()
}

/// `write_all` of a `Writer` at `offset` of a `RestrictedMemory` over the pages
/// `[first_page, end_page)`. The writer first grows the memory until the
/// window holds the end of `data`, and fails, changing nothing, where the
/// window does not let it; then it puts `data` at `offset` of the window.
/// Nothing is written for empty `data`.
#[verifier::external_body]
pub(crate) fn window_write(
    memory: &mut VectorMemory,
    first_page: u64,
    end_page: u64,
    offset: u64,
    data: &[u8],
) -> (r: Result<(), std::io::Error>)
    requires
        first_page <= end_page <= MAX_WINDOW_END,
        first_page * WASM_PAGE_SIZE + offset + data@.len() <= MAX_ADDRESS,
    ensures
        r is Ok <==> data@.len() == 0 || window_admits(
            memory_bytes(*old(memory)),
            first_page as int,
            end_page as int,
            offset + data@.len(),
        ),
        r is Ok ==> memory_bytes(*final(memory)) == stored(
            memory_bytes(*old(memory)),
            first_page * WASM_PAGE_SIZE + offset,
            data@,
        ),
        r is Err ==> memory_bytes(*final(memory)) == memory_bytes(*old(memory)),
{
    let mut window = RestrictedMemory::new(memory.clone(), first_page..end_page);
    std::io::Write::write_all(&mut Writer::new(&mut window, offset), data)
}

/// `write_all` and `flush` of a `BufferedWriter` with a buffer of
/// `buffer_size` bytes over a `Writer` at `offset` of a `RestrictedMemory`
/// over the pages `[first_page, end_page)`. The buffer hands `data` to the
/// writer in one piece, so the memory changes as under `window_write`.
#[verifier::external_body]
pub(crate) fn window_write_buffered(
    memory: &mut VectorMemory,
    first_page: u64,
    end_page: u64,
    offset: u64,
    buffer_size: usize,
    data: &[u8],
) -> (r: Result<(), std::io::Error>)
    requires
        first_page <= end_page <= MAX_WINDOW_END,
        first_page * WASM_PAGE_SIZE + offset + data@.len() <= MAX_ADDRESS,
        buffer_size <= MAX_ADDRESS,
    ensures
        r is Ok <==> data@.len() == 0 || window_admits(
            memory_bytes(*old(memory)),
            first_page as int,
            end_page as int,
            offset + data@.len(),
        ),
        r is Ok ==> memory_bytes(*final(memory)) == stored(
            memory_bytes(*old(memory)),
            first_page * WASM_PAGE_SIZE + offset,
            data@,
        ),
        r is Err ==> memory_bytes(*final(memory)) == memory_bytes(*old(memory)),
{
    let mut window = RestrictedMemory::new(memory.clone(), first_page..end_page);
    let mut writer = BufferedWriter::new(buffer_size, Writer::new(&mut window, offset));
    std::io::Write::write_all(&mut writer, data)?;
    std::io::Write::flush(&mut writer)
}

/// `read_exact` of a `BufferedReader` with a buffer of `buffer_size` bytes
/// over a `Reader` at `offset` of a `RestrictedMemory` over the pages
/// `[first_page, end_page)`: the `len` bytes from `offset` of the window on,
/// or an error where the window ends before them.
#[verifier::external_body]
pub(crate) fn window_read_buffered(
    memory: &VectorMemory,
    first_page: u64,
    end_page: u64,
    offset: u64,
    buffer_size: usize,
    len: usize,
) -> (r: Result<Vec<u8>, std::io::Error>)
    requires
        first_page <= end_page <= MAX_WINDOW_END,
        first_page * WASM_PAGE_SIZE + offset + len + buffer_size <= MAX_ADDRESS,
    ensures
        r is Ok <==> len == 0 || offset + len <= window_pages(
            memory_bytes(*memory),
            first_page as int,
            end_page as int,
        ) * WASM_PAGE_SIZE,
        r matches Ok(out) ==> out@.len() == len && (len > 0 ==> out@ == memory_bytes(
            *memory,
        ).subrange(
            first_page * WASM_PAGE_SIZE + offset,
            first_page * WASM_PAGE_SIZE + offset + len,
        )),
{
    let window = RestrictedMemory::new(memory.clone(), first_page..end_page);
    let mut reader = BufferedReader::new(buffer_size, Reader::new(&window, offset));
    let mut out = vec![0u8; len];
    std::io::Read::read_exact(&mut reader, &mut out)?;
    Ok(out)
}

} // verus!
