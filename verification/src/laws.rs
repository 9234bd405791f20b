//! What holds of the store across its operations.
//!
//! Each law speaks of stores as the operations' contracts describe them: by
//! their header, the bytes of their memory and the flavour of their anchor
//! memory.

use crate::anchor_memory::{
    AnchorMemory, ANCHOR_MEMORY_INDEX, BUCKET_SIZE_IN_PAGES, MANAGER_FIRST_PAGE,
};
use crate::error::StorageError;
use crate::header::{empty_salt, lemma_decode_prefix, lemma_header_encoding, HeaderView};
use crate::layout::{
    AnchorNumber, FLAT_LAYOUT_VERSION, HEADER_SIZE, MANAGED_LAYOUT_VERSION, MAX_WASM_PAGES,
};
use crate::memory::page_count;
use crate::migration::{lemma_migrated, lemma_migrating, migrated, migrating};
use crate::mm::lemma_fresh_manager;
use crate::storage::{is_recoverable, layout_of, opened, Storage};
use vstd::prelude::*;

verus! {

/// No more anchors are allocated than the range has numbers.
pub proof fn law_anchors_within_range(storage: Storage)
    requires
        storage.inv(),
    ensures
        storage.header().num_anchors <= storage.header().id_range_hi
            - storage.header().id_range_lo,
{
}

/// An allocation hands out the lowest number of the range that is still
/// free, and counts it: the number named no anchor before and names the
/// last record afterwards.
pub proof fn law_allocation_counts(before: Storage, after: Storage, anchor_number: AnchorNumber)
    requires
        before.inv(),
        before.header().num_anchors < before.header().id_range_hi - before.header().id_range_lo,
        anchor_number == before.header().id_range_lo + before.header().num_anchors,
        after.header() == (HeaderView {
            num_anchors: (before.header().num_anchors + 1) as u32,
            ..before.header()
        }),
    ensures
        after.header().num_anchors == before.header().num_anchors + 1,
        before.spec_anchor_number_to_record(anchor_number) == Err::<u32, StorageError>(
            StorageError::BadAnchorNumber(anchor_number),
        ),
        after.spec_anchor_number_to_record(anchor_number) == Ok::<u32, StorageError>(
            before.header().num_anchors,
        ),
{
}

/// Reading an anchor gives back the payload that was last written to it.
pub proof fn law_read_after_write(
    before: Storage,
    after: Storage,
    anchor_number: AnchorNumber,
    data: Seq<u8>,
    written: Result<(), StorageError>,
)
    requires
        before.inv(),
        after.header() == before.header(),
        after.anchor_memory() == before.anchor_memory(),
        before.spec_anchor_number_to_record(anchor_number) matches Ok(record_number)
            && before.spec_write_entry_bytes(after, record_number, data, written),
        written is Ok,
    ensures
        after.spec_anchor_number_to_record(anchor_number) matches Ok(record_number)
            && after.is_intact(record_number) && after.payload(record_number) == data,
{
}

/// Writing an anchor leaves every byte of every other record as it was, and
/// with it what is read from that record.
pub proof fn law_write_keeps_other_records(
    before: Storage,
    after: Storage,
    record_number: u32,
    data: Seq<u8>,
    written: Result<(), StorageError>,
    other: u32,
)
    requires
        before.inv(),
        after.header() == before.header(),
        after.anchor_memory() == before.anchor_memory(),
        record_number < before.header().num_anchors,
        before.spec_write_entry_bytes(after, record_number, data, written),
        other != record_number,
    ensures
        forall|i: int|
            before.spec_record_address(other) <= i < before.spec_record_address(other)
                + before.header().entry_size && i < before.anchor_bytes().len()
                ==> #[trigger] after.anchor_bytes()[i] == before.anchor_bytes()[i],
        before.is_intact(other) ==> after.is_intact(other) && after.payload(other)
            == before.payload(other),
{
    before.lemma_records_apart(record_number, other);
    if written is Ok {
        let address = before.spec_record_address(other);
        if before.is_intact(other) {
            assert(after.anchor_bytes().subrange(address, address + 2)
                =~= before.anchor_bytes().subrange(address, address + 2));
        }
    }
}

/// A store can be opened again from its memory.
pub proof fn law_reopen(storage: Storage)
    requires
        storage.inv(),
    ensures
        page_count(storage.bytes()) >= 1,
        is_recoverable(storage.bytes()),
        HeaderView::decode(storage.bytes()) == storage.header(),
        layout_of(HeaderView::decode(storage.bytes()).version) == storage.anchor_memory(),
        opened(storage.anchor_memory(), storage.bytes()) == storage.bytes(),
{
    lemma_decode_prefix(storage.bytes());
    lemma_header_encoding(storage.header(), storage.bytes());
}

/// A store that is opened from the memory of another is that store: it has
/// the same header, the same bytes and the same flavour of anchor memory,
/// and so every record and the persistent state are read as before.
pub proof fn law_reopened_is_same(storage: Storage, reopened: Storage, record_number: u32)
    requires
        storage.inv(),
        reopened.inv(),
        reopened.header() == HeaderView::decode(storage.bytes()),
        reopened.bytes() == opened(reopened.anchor_memory(), storage.bytes()),
    ensures
        reopened.header() == storage.header(),
        reopened.anchor_memory() == storage.anchor_memory(),
        reopened.bytes() == storage.bytes(),
        reopened.is_intact(record_number) == storage.is_intact(record_number),
        reopened.payload(record_number) == storage.payload(record_number),
        reopened.has_state_magic() == storage.has_state_magic(),
        reopened.state_bytes() == storage.state_bytes(),
{
    law_reopen(storage);
}

/// A salt other than all zeroes is the salt of the store once it was set.
pub proof fn law_salt_is_kept(before: Storage, after: Storage, salt: Seq<u8>)
    requires
        !before.header().has_salt(),
        after.header() == (HeaderView { salt, ..before.header() }),
        salt != empty_salt(),
    ensures
        after.header().has_salt(),
        after.header().salt == salt,
{
}

/// While anchors exist, no range is accepted that starts at another number
/// or has fewer numbers than there are anchors.
pub proof fn law_range_keeps_anchors(storage: Storage, range: (AnchorNumber, AnchorNumber))
    requires
        storage.inv(),
        storage.header().num_anchors > 0,
        range.0 != storage.header().id_range_lo || range.1 - range.0
            < storage.header().num_anchors,
    ensures
        storage.spec_check_anchor_number_range(range) is Err,
{
}

/// A range that is accepted has a number for every anchor, every anchor
/// keeps its number, and the header is consistent under the new range.
pub proof fn law_accepted_range(storage: Storage, range: (AnchorNumber, AnchorNumber))
    requires
        storage.inv(),
        storage.spec_check_anchor_number_range(range) is Ok,
    ensures
        range.0 <= range.1,
        storage.header().num_anchors <= range.1 - range.0,
        storage.header().num_anchors > 0 ==> range.0 == storage.header().id_range_lo,
        (HeaderView { id_range_lo: range.0, id_range_hi: range.1, ..storage.header() })
            .is_consistent(),
{
}

/// The migration to the managed layout keeps the header but for the
/// version, and keeps the anchor memory byte for byte: every record and the
/// persistent state are read as before.
pub proof fn law_migration_keeps_records(flat: Storage, managed: Storage, record_number: u32)
    requires
        flat.inv(),
        flat.header().version == FLAT_LAYOUT_VERSION,
        managed.bytes() == migrated(flat.bytes()),
        managed.header() == (HeaderView { version: MANAGED_LAYOUT_VERSION, ..flat.header() }),
        managed.anchor_memory() == AnchorMemory::Managed,
    ensures
        managed.inv(),
        HeaderView::decode(managed.bytes()) == managed.header(),
        managed.anchor_bytes() == flat.anchor_bytes(),
        managed.is_intact(record_number) == flat.is_intact(record_number),
        managed.payload(record_number) == flat.payload(record_number),
        managed.spec_unused_memory_start() == flat.spec_unused_memory_start(),
        managed.has_state_magic() == flat.has_state_magic(),
        managed.state_bytes() == flat.state_bytes(),
{
    law_reopen(flat);
    lemma_migrated(flat.bytes());
}

/// A migration that stops before its last write, the one of the storage
/// header, leaves a store in the flat layout: it can be opened, has the
/// header that it had, and every record that was intact is read as before.
pub proof fn law_migration_interrupted(
    flat: Storage,
    step: int,
    reopened: Storage,
    record_number: u32,
)
    requires
        flat.inv(),
        flat.header().version == FLAT_LAYOUT_VERSION,
        0 <= step <= 3,
        reopened.anchor_memory() == AnchorMemory::Single,
        reopened.header() == HeaderView::decode(migrating(flat.bytes(), step)),
        reopened.bytes() == migrating(flat.bytes(), step),
    ensures
        page_count(migrating(flat.bytes(), step)) >= 1,
        is_recoverable(migrating(flat.bytes(), step)),
        reopened.inv(),
        reopened.header() == flat.header(),
        flat.keeps_record(reopened, record_number),
{
    law_reopen(flat);
    lemma_migrating(flat.bytes(), step);
    lemma_header_encoding(flat.header(), reopened.bytes().subrange(0, HEADER_SIZE as int));
    if flat.is_intact(record_number) {
        let at = flat.spec_record_address(record_number);
        assert(reopened.anchor_bytes().subrange(at, at + 2) =~= flat.anchor_bytes().subrange(
            at,
            at + 2,
        ));
        assert(reopened.payload(record_number) =~= flat.payload(record_number));
    }
}

/// Migrating a memory that was migrated changes nothing.
pub proof fn law_migration_idempotent(bytes: Seq<u8>)
    requires
        page_count(bytes) >= 1,
        is_recoverable(bytes),
    ensures
        page_count(migrated(bytes)) >= 1,
        is_recoverable(migrated(bytes)),
        HeaderView::decode(migrated(bytes)).version == MANAGED_LAYOUT_VERSION,
        migrated(migrated(bytes)) == migrated(bytes),
{
    if HeaderView::decode(bytes).version == FLAT_LAYOUT_VERSION {
        lemma_migrated(bytes);
    } else {
        let after = migrated(bytes);
        lemma_fresh_manager(
            bytes,
            MANAGER_FIRST_PAGE as int,
            MAX_WASM_PAGES as int,
            BUCKET_SIZE_IN_PAGES,
            ANCHOR_MEMORY_INDEX,
        );
        lemma_decode_prefix(bytes);
        lemma_decode_prefix(after);
        assert(after.subrange(0, HEADER_SIZE as int) == bytes.subrange(0, HEADER_SIZE as int));
    }
}

} // verus!
