//! Records: where the anchor of a number lies, and how its payload is
//! written and read.
//!
//! A record is `entry_size` bytes wide. It begins with the length of the
//! payload in two bytes, little endian; the payload follows; the rest of the
//! record is unused.

use crate::error::{RecordFault, StorageError};
use crate::layout::{AnchorNumber, LENGTH_PREFIX_SIZE};
use crate::memory::memory_bytes;
use crate::storage::Storage;
use vstd::bytes::*;
use vstd::pervasive::unreached;
use vstd::prelude::*;

verus! {

/// The bytes of a record with the given payload: its length, then the payload.
pub open spec fn framed(payload: Seq<u8>) -> Seq<u8> {
    spec_u16_to_le_bytes(payload.len() as u16) + payload
}

/// Puts the length of `payload` in front of it.
pub fn frame_record(payload: &[u8]) -> (record: Vec<u8>)
    requires
        payload@.len() <= u16::MAX,
    ensures
        record@ == framed(payload@),
        record@.len() == payload@.len() + 2,
{
    let mut record = u16_to_le_bytes(payload.len() as u16);
    record.extend_from_slice(payload);
    record
}

impl Storage {
    /// The record that holds the anchor of the given number, or why there is
    /// none: the number lies outside the range, or it has not been allocated.
    pub open spec fn spec_anchor_number_to_record(self, anchor_number: AnchorNumber) -> Result<
        u32,
        StorageError,
    > {
        let header = self.header();
        if anchor_number < header.id_range_lo || anchor_number >= header.id_range_hi {
            Err(
                StorageError::AnchorNumberOutOfRange {
                    anchor_number,
                    range: (header.id_range_lo, header.id_range_hi),
                },
            )
        } else if anchor_number - header.id_range_lo >= header.num_anchors {
            Err(StorageError::BadAnchorNumber(anchor_number))
        } else {
            Ok((anchor_number - header.id_range_lo) as u32)
        }
    }

    /// The address of a record in the anchor memory.
    pub open spec fn spec_record_address(self, record_number: u32) -> int {
        record_number * self.header().entry_size
    }

    /// The largest payload that fits into a record.
    pub open spec fn spec_entry_size_limit(self) -> int {
        self.header().entry_size - LENGTH_PREFIX_SIZE
    }

    /// The length that the record announces for its payload.
    pub open spec fn stored_length(self, record_number: u32) -> int {
        let address = self.spec_record_address(record_number);
        spec_u16_from_le_bytes(self.anchor_bytes().subrange(address, address + 2)) as int
    }

    /// The anchor memory holds the length of the record.
    pub open spec fn has_length(self, record_number: u32) -> bool {
        self.spec_record_address(record_number) + 2 <= self.anchor_bytes().len()
    }

    /// The anchor memory holds a whole record: its length, which is no more
    /// than fits, and as many bytes of payload.
    pub open spec fn is_intact(self, record_number: u32) -> bool {
        &&& self.has_length(record_number)
        &&& self.stored_length(record_number) <= self.spec_entry_size_limit()
        &&& self.spec_record_address(record_number) + 2 + self.stored_length(record_number)
            <= self.anchor_bytes().len()
    }

    /// The payload of a record.
    pub open spec fn payload(self, record_number: u32) -> Seq<u8> {
        let address = self.spec_record_address(record_number);
        self.anchor_bytes().subrange(
            address + 2,
            address + 2 + self.stored_length(record_number),
        )
    }

    /// What `record_fault` answers: nothing of an intact record; of another,
    /// that its length is more than fits into a record, or else that the
    /// memory ends before the end of its length or of its payload.
    pub open spec fn spec_record_fault(self, record_number: u32, r: Option<RecordFault>) -> bool {
        match r {
            None => self.is_intact(record_number),
            Some(RecordFault::LengthExceedsLimit { len, limit }) => {
                &&& self.has_length(record_number)
                &&& len == self.stored_length(record_number)
                &&& limit == self.spec_entry_size_limit()
                &&& len > limit
            },
            Some(RecordFault::Truncated(_)) => {
                ||| !self.has_length(record_number)
                ||| (self.stored_length(record_number) <= self.spec_entry_size_limit()
                    && !self.is_intact(record_number))
            },
        }
    }

    /// Finds the record that holds the anchor of the given number.
    pub fn anchor_number_to_record(&self, anchor_number: AnchorNumber) -> (r: Result<
        u32,
        StorageError,
    >)
        requires
            self.inv(),
        ensures
            r == self.spec_anchor_number_to_record(anchor_number),
    {
        if anchor_number < self.header.id_range_lo || anchor_number >= self.header.id_range_hi {
            return Err(
                StorageError::AnchorNumberOutOfRange {
                    anchor_number,
                    range: self.assigned_anchor_number_range(),
                },
            );
        }
        let record_number = (anchor_number - self.header.id_range_lo) as u32;
        if record_number >= self.header.num_anchors {
            return Err(StorageError::BadAnchorNumber(anchor_number));
        }
        Ok(record_number)
    }

    /// The address of a record in the anchor memory.
    pub fn record_address(&self, record_number: u32) -> (address: u64)
        ensures
            address == self.spec_record_address(record_number),
            address <= 0xffff_ffff * 0xffff,
    {
        assert(record_number * self.header.entry_size <= 0xffff_ffff * 0xffff) by (nonlinear_arith)
            requires
                record_number <= 0xffff_ffff,
                self.header.entry_size <= 0xffff,
        ;
        record_number as u64 * self.header.entry_size as u64
    }

    /// The largest payload that fits into a record, behind the two bytes of
    /// its length.
    pub fn candid_entry_size_limit(&self) -> (limit: usize)
        requires
            self.inv(),
        ensures
            limit == self.spec_entry_size_limit(),
    {
        self.header.entry_size as usize - LENGTH_PREFIX_SIZE as usize
    }

    /// The address of the first byte behind the allocated records. There is
    /// such an address even when the range is used up, because the tail of
    /// stable memory is kept free.
    pub fn unused_memory_start(&self) -> (address: u64)
        ensures
            address == self.header().num_anchors * self.header().entry_size,
            address <= 0xffff_ffff * 0xffff,
    {
        self.record_address(self.header.num_anchors)
    }

    /// Writes the payload of the anchor of the given number into its record.
    /// Nothing is written where the number names no record or the payload
    /// does not fit.
    pub fn write(&mut self, anchor_number: AnchorNumber, data: Vec<u8>) -> (r: Result<
        (),
        StorageError,
    >)
        requires
            old(self).inv(),
        ensures
            final(self).inv(),
            final(self).header() == old(self).header(),
            final(self).anchor_memory() == old(self).anchor_memory(),
            match old(self).spec_anchor_number_to_record(anchor_number) {
                Err(e) => r == Err::<(), StorageError>(e) && final(self).bytes() == old(
                    self,
                ).bytes(),
                Ok(record_number) => old(self).spec_write_entry_bytes(
                    *final(self),
                    record_number,
                    data@,
                    r,
                ),
            },
    {
        let record_number = match self.anchor_number_to_record(anchor_number) {
            Ok(record_number) => record_number,
            Err(e) => {
                return Err(e);
            },
        };
        self.write_entry_bytes(record_number, data)
    }

    /// What `write_entry_bytes` does: a payload that does not fit is turned
    /// down and nothing changes; else the record holds the payload, and the
    /// anchor memory is otherwise as it was, only longer where it had to
    /// grow.
    pub open spec fn spec_write_entry_bytes(
        self,
        after: Storage,
        record_number: u32,
        data: Seq<u8>,
        r: Result<(), StorageError>,
    ) -> bool {
        let address = self.spec_record_address(record_number);
        if data.len() > self.spec_entry_size_limit() {
            &&& r == Err::<(), StorageError>(StorageError::EntrySizeLimitExceeded(data.len() as usize))
            &&& after.bytes() == self.bytes()
        } else {
            &&& r is Ok
            &&& after.bytes() == self.anchor_memory().written(self.bytes(), address, framed(data))
            &&& after.is_intact(record_number)
            &&& after.payload(record_number) == data
            &&& after.anchor_bytes().len() >= self.anchor_bytes().len()
            &&& forall|i: int|
                0 <= i < self.anchor_bytes().len() && !(address <= i < address + 2 + data.len())
                    ==> #[trigger] after.anchor_bytes()[i] == self.anchor_bytes()[i]
            &&& forall|other: u32|
                other != record_number ==> #[trigger] self.keeps_record(after, other)
        }
    }

    /// A record that is intact in this store is intact in `after`, with the
    /// same payload.
    pub open spec fn keeps_record(self, after: Storage, record_number: u32) -> bool {
        self.is_intact(record_number) ==> after.is_intact(record_number) && after.payload(
            record_number,
        ) == self.payload(record_number)
    }

    /// Writes a payload into an allocated record.
    pub fn write_entry_bytes(&mut self, record_number: u32, buf: Vec<u8>) -> (r: Result<
        (),
        StorageError,
    >)
        requires
            old(self).inv(),
            record_number < old(self).header().num_anchors,
        ensures
            final(self).inv(),
            final(self).header() == old(self).header(),
            final(self).anchor_memory() == old(self).anchor_memory(),
            old(self).spec_write_entry_bytes(*final(self), record_number, buf@, r),
    {
        if buf.len() > self.candid_entry_size_limit() {
            return Err(StorageError::EntrySizeLimitExceeded(buf.len()));
        }
        let address = self.record_address(record_number);
        let record = frame_record(buf.as_slice());
        let ghost before = self.bytes();
        proof {
            self.lemma_records_fit(record_number);
        }
        self.anchor_memory.write_all(
            &mut self.memory,
            address,
            self.header.entry_size as usize,
            record.as_slice(),
        );
        proof {
            let after = memory_bytes(self.memory);
            self.anchor_memory.lemma_written(before, after, address as int, record@);
            lemma_auto_spec_u16_to_from_le_bytes();
            let contents = self.anchor_memory.contents(after);
            let written = contents.subrange(address as int, address + record@.len());
            assert(contents.subrange(address as int, address + 2) =~= written.subrange(0, 2));
            assert(record@.subrange(0, 2) =~= spec_u16_to_le_bytes(buf@.len() as u16));
            assert(contents.subrange(address + 2, address + 2 + buf@.len()) =~= written.subrange(
                2,
                2 + buf@.len() as int,
            ));
            assert(record@.subrange(2, 2 + buf@.len() as int) =~= buf@);
            assert forall|other: u32|
                other != record_number && old(self).is_intact(other) implies #[trigger] old(
                self,
            ).keeps_record(*self, other) by {
                old(self).lemma_records_apart(record_number, other);
                let at = old(self).spec_record_address(other);
                assert(self.anchor_bytes().subrange(at, at + 2) =~= old(self).anchor_bytes().subrange(
                    at,
                    at + 2,
                ));
                assert(self.payload(other) =~= old(self).payload(other));
            }
        }
        Ok(())
    }

    /// Reads the payload of the anchor of the given number from its record.
    /// The record must be intact, as it is once it was written; of one that
    /// may not be, `record_fault` says what is wrong with it.
    pub fn read(&self, anchor_number: AnchorNumber) -> (r: Result<Vec<u8>, StorageError>)
        requires
            self.inv(),
            self.spec_anchor_number_to_record(anchor_number) matches Ok(record_number)
                ==> self.is_intact(record_number),
        ensures
            match self.spec_anchor_number_to_record(anchor_number) {
                Err(e) => r == Err::<Vec<u8>, StorageError>(e),
                Ok(record_number) => r matches Ok(payload) && payload@ == self.payload(
                    record_number,
                ),
            },
    {
        let record_number = match self.anchor_number_to_record(anchor_number) {
            Ok(record_number) => record_number,
            Err(e) => {
                return Err(e);
            },
        };
        Ok(self.read_entry_bytes(record_number))
    }

    /// Reads the payload of a record. The record must be intact: the memory
    /// holds its length, the length is no more than fits into a record, and
    /// the memory holds as many bytes of payload.
    pub fn read_entry_bytes(&self, record_number: u32) -> (payload: Vec<u8>)
        requires
            self.inv(),
            self.is_intact(record_number),
        ensures
            payload@ == self.payload(record_number),
            payload@.len() == self.stored_length(record_number),
            payload@.len() <= self.spec_entry_size_limit(),
    {
        let address = self.record_address(record_number);
        let buffer_size = self.header.entry_size as usize;
        let len_buf = match self.anchor_memory.read_exact(&self.memory, address, buffer_size, 2) {
            Ok(len_buf) => len_buf,
            Err(_) => unreached(),
        };
        let len = u16_from_le_bytes(len_buf.as_slice()) as usize;
        match self.anchor_memory.read_exact(&self.memory, address + 2, buffer_size, len) {
            Ok(payload) => {
                assert(payload@ =~= self.payload(record_number));
                payload
            },
            Err(_) => unreached(),
        }
    }

    /// Says what is wrong with a record, if anything: its length is more
    /// than fits into a record, or the memory ends before the end of its
    /// length or of its payload.
    pub fn record_fault(&self, record_number: u32) -> (r: Option<RecordFault>)
        requires
            self.inv(),
        ensures
            r is None <==> self.is_intact(record_number),
            self.spec_record_fault(record_number, r),
    {
        let address = self.record_address(record_number);
        let buffer_size = self.header.entry_size as usize;
        let len_buf = match self.anchor_memory.read_exact(&self.memory, address, buffer_size, 2) {
            Ok(len_buf) => len_buf,
            Err(e) => {
                return Some(RecordFault::Truncated(e));
            },
        };
        let len = u16_from_le_bytes(len_buf.as_slice()) as usize;
        let limit = self.candid_entry_size_limit();
        if len > limit {
            return Some(RecordFault::LengthExceedsLimit { len, limit });
        }
        match self.anchor_memory.read_exact(&self.memory, address + 2, buffer_size, len) {
            Ok(_) => None,
            Err(e) => Some(RecordFault::Truncated(e)),
        }
    }

    /// Two records do not overlap.
    pub proof fn lemma_records_apart(self, record_number: u32, other: u32)
        requires
            self.inv(),
            record_number != other,
        ensures
            self.spec_record_address(other) + self.header().entry_size
                <= self.spec_record_address(record_number) || self.spec_record_address(
                record_number,
            ) + self.header().entry_size <= self.spec_record_address(other),
    {
        let e = self.header().entry_size as int;
        let r = record_number as int;
        let o = other as int;
        assert(o * e + e <= r * e || r * e + e <= o * e) by (nonlinear_arith)
            requires
                o != r,
                e > 0,
                0 <= o,
                0 <= r,
        ;
    }

    /// The allocated records end before the anchor memory can grow no more.
    pub proof fn lemma_records_fit(self, record_number: u32)
        requires
            self.inv(),
            record_number <= self.header().num_anchors,
        ensures
            self.spec_record_address(record_number) + (if record_number
                < self.header().num_anchors {
                self.header().entry_size as int
            } else {
                0
            }) <= self.header().num_anchors * self.header().entry_size,
            self.header().num_anchors * self.header().entry_size <= 33_500_744_909,
            33_500_744_909 < self.anchor_memory().capacity(self.bytes()),
    {
        let header = self.header();
        let n = header.num_anchors as int;
        let e = header.entry_size as int;
        let r = record_number as int;
        let room = crate::layout::STABLE_MEMORY_SIZE - header.first_entry_offset
            - crate::layout::STABLE_MEMORY_RESERVE;
        assert(n * e <= room) by (nonlinear_arith)
            requires
                n <= room / e,
                e > 0,
                0 <= n,
        ;
        assert(r * e + (if r < n {
            e
        } else {
            0
        }) <= n * e) by (nonlinear_arith)
            requires
                0 <= r <= n,
                e > 0,
        ;
    }
}

} // verus!
