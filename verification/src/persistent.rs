//! The persistent state: a blob that is kept behind the last allocated
//! record while the program is replaced by a newer one.
//!
//! ```text
//! magic "IIPS"  4 bytes
//! length        8 bytes, little endian
//! state         as many bytes as the length says
//! ```
//!
//! It lies where the next record will lie, so the next anchor that is
//! allocated and written takes its place.

use crate::error::PersistentStateError;
use crate::layout::{PERSISTENT_STATE_MAGIC, WASM_PAGE_SIZE};
use crate::memory::memory_bytes;
use crate::storage::Storage;
use vstd::bytes::*;
use vstd::pervasive::unreached;
use vstd::prelude::*;

verus! {

/// Number of bytes in front of the state: the magic and the length.
pub const PERSISTENT_STATE_PREFIX: u64 = 12;

/// The bytes that are written for a state: the magic, the length, the state.
pub open spec fn framed_state(state: Seq<u8>) -> Seq<u8> {
    PERSISTENT_STATE_MAGIC@ + spec_u64_to_le_bytes(state.len() as u64) + state
}

/// Puts the magic and the length of `state` in front of it.
pub fn frame_state(state: &[u8]) -> (framed: Vec<u8>)
    requires
        state@.len() <= u64::MAX,
    ensures
        framed@ == framed_state(state@),
        framed@.len() == state@.len() + PERSISTENT_STATE_PREFIX,
{
    proof {
        lemma_auto_spec_u64_to_from_le_bytes();
    }
    let mut framed: Vec<u8> = Vec::new();
    framed.push(PERSISTENT_STATE_MAGIC[0]);
    framed.push(PERSISTENT_STATE_MAGIC[1]);
    framed.push(PERSISTENT_STATE_MAGIC[2]);
    framed.push(PERSISTENT_STATE_MAGIC[3]);
    let mut len = u64_to_le_bytes(state.len() as u64);
    framed.append(&mut len);
    framed.extend_from_slice(state);
    framed
}

impl Storage {
    /// The address behind the last allocated record.
    pub open spec fn spec_unused_memory_start(self) -> int {
        self.header().num_anchors * self.header().entry_size
    }

    /// The magic of a persistent state stands behind the last allocated
    /// record.
    pub open spec fn has_state_magic(self) -> bool {
        let address = self.spec_unused_memory_start();
        &&& address + 4 <= self.anchor_bytes().len()
        &&& self.anchor_bytes().subrange(address, address + 4) == PERSISTENT_STATE_MAGIC@
    }

    /// The length that is announced for the persistent state.
    pub open spec fn state_length(self) -> int {
        let address = self.spec_unused_memory_start();
        spec_u64_from_le_bytes(self.anchor_bytes().subrange(address + 4, address + 12)) as int
    }

    /// The anchor memory holds the whole persistent state.
    pub open spec fn has_whole_state(self) -> bool {
        let address = self.spec_unused_memory_start();
        &&& address + PERSISTENT_STATE_PREFIX <= self.anchor_bytes().len()
        &&& address + PERSISTENT_STATE_PREFIX + self.state_length() <= self.anchor_bytes().len()
    }

    /// The bytes of the persistent state.
    pub open spec fn state_bytes(self) -> Seq<u8> {
        let address = self.spec_unused_memory_start();
        self.anchor_bytes().subrange(
            address + PERSISTENT_STATE_PREFIX,
            address + PERSISTENT_STATE_PREFIX + self.state_length(),
        )
    }

    /// What `read_persistent_state` answers: the state where its magic is
    /// found and the memory holds all of it; that none is found where the
    /// magic is missing; that it cannot be read where the memory ends before
    /// its end.
    pub open spec fn spec_read_persistent_state(self, r: Result<Vec<u8>, PersistentStateError>) -> bool {
        match r {
            Ok(state) => self.has_state_magic() && self.has_whole_state() && state@
                == self.state_bytes(),
            Err(PersistentStateError::NotFound) => !self.has_state_magic(),
            Err(PersistentStateError::ReadError(_)) => self.has_state_magic()
                && !self.has_whole_state(),
            Err(PersistentStateError::CandidError(_)) => false,
        }
    }

    /// Writes the state behind the last allocated record. It stays there
    /// until a record or another state is written to that place.
    pub fn write_persistent_state(&mut self, state: &[u8])
        requires
            old(self).inv(),
            old(self).spec_unused_memory_start() + PERSISTENT_STATE_PREFIX + state@.len() <= old(
                self,
            ).anchor_memory().capacity(old(self).bytes()),
        ensures
            final(self).inv(),
            final(self).header() == old(self).header(),
            final(self).anchor_memory() == old(self).anchor_memory(),
            final(self).bytes() == old(self).anchor_memory().written(
                old(self).bytes(),
                old(self).spec_unused_memory_start(),
                framed_state(state@),
            ),
            final(self).has_state_magic(),
            final(self).has_whole_state(),
            final(self).state_bytes() == state@,
            forall|i: int|
                0 <= i < old(self).spec_unused_memory_start() && i < old(self).anchor_bytes().len()
                    ==> #[trigger] final(self).anchor_bytes()[i] == old(self).anchor_bytes()[i],
            forall|record_number: u32|
                record_number < old(self).header().num_anchors ==> #[trigger] old(
                    self,
                ).keeps_record(*final(self), record_number),
    {
        let address = self.unused_memory_start();
        let framed = frame_state(state);
        let ghost before = self.bytes();
        self.anchor_memory.write_all(
            &mut self.memory,
            address,
            self.header.entry_size as usize,
            framed.as_slice(),
        );
        proof {
            let after = memory_bytes(self.memory);
            self.anchor_memory.lemma_written(before, after, address as int, framed@);
            lemma_auto_spec_u64_to_from_le_bytes();
            let contents = self.anchor_memory.contents(after);
            let written = contents.subrange(address as int, address + framed@.len());
            assert(contents.subrange(address as int, address + 4) =~= written.subrange(0, 4));
            assert(framed@.subrange(0, 4) =~= PERSISTENT_STATE_MAGIC@);
            assert(contents.subrange(address + 4, address + 12) =~= written.subrange(4, 12));
            assert(framed@.subrange(4, 12) =~= spec_u64_to_le_bytes(state@.len() as u64));
            assert(contents.subrange(address + 12, address + 12 + state@.len())
                =~= written.subrange(12, 12 + state@.len() as int));
            assert forall|record_number: u32|
                record_number < old(self).header().num_anchors && old(self).is_intact(
                    record_number,
                ) implies #[trigger] old(self).keeps_record(*self, record_number) by {
                old(self).lemma_records_fit(record_number);
                let at = old(self).spec_record_address(record_number);
                assert(contents.subrange(at, at + 2) =~= old(self).anchor_bytes().subrange(
                    at,
                    at + 2,
                ));
                assert(self.payload(record_number) =~= old(self).payload(record_number));
            }
        }
    }

    /// Reads the state that lies behind the last allocated record.
    pub fn read_persistent_state(&self) -> (r: Result<Vec<u8>, PersistentStateError>)
        requires
            self.inv(),
        ensures
            self.spec_read_persistent_state(r),
    {
        let address = self.unused_memory_start();
        let buffer_size = self.header.entry_size as usize;
        proof {
            self.anchor_memory.lemma_contents_len(self.bytes());
        }
        let end = self.anchor_memory.size(&self.memory) * WASM_PAGE_SIZE;
        if address > end {
            // The place where the state would lie is not allocated yet.
            return Err(PersistentStateError::NotFound);
        }
        let magic_buf = match self.anchor_memory.read_exact(&self.memory, address, buffer_size, 4) {
            Ok(magic_buf) => magic_buf,
            // The memory ends here: no state was written to this place.
            Err(_) => {
                return Err(PersistentStateError::NotFound);
            },
        };
        if magic_buf[0] != PERSISTENT_STATE_MAGIC[0] || magic_buf[1] != PERSISTENT_STATE_MAGIC[1]
            || magic_buf[2] != PERSISTENT_STATE_MAGIC[2] || magic_buf[3]
            != PERSISTENT_STATE_MAGIC[3] {
            // What lies here is not a persistent state.
            return Err(PersistentStateError::NotFound);
        }
        assert(magic_buf@ =~= PERSISTENT_STATE_MAGIC@);
        let size_buf = match self.anchor_memory.read_exact(
            &self.memory,
            address + 4,
            buffer_size,
            8,
        ) {
            Ok(size_buf) => size_buf,
            Err(e) => {
                return Err(PersistentStateError::ReadError(e));
            },
        };
        let size = u64_from_le_bytes(size_buf.as_slice());
        if size > end - (address + PERSISTENT_STATE_PREFIX) {
            // The state would end behind the memory. The reader says so when
            // it is asked for the byte behind the last one.
            return match self.anchor_memory.read_exact(&self.memory, end, buffer_size, 1) {
                Err(e) => Err(PersistentStateError::ReadError(e)),
                Ok(_) => unreached(),
            };
        }
        match self.anchor_memory.read_exact(
            &self.memory,
            address + PERSISTENT_STATE_PREFIX,
            buffer_size,
            size as usize,
        ) {
            Ok(state) => {
                assert(state@ =~= self.state_bytes());
                Ok(state)
            },
            Err(e) => Err(PersistentStateError::ReadError(e)),
        }
    }
}

} // verus!
