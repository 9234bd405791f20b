//! The storage header and its 66-byte encoding.
//!
//! | field              | bytes   | encoding      |
//! |--------------------|---------|---------------|
//! | magic              | 0..3    | `"IIC"`       |
//! | version            | 3       |               |
//! | num_anchors        | 4..8    | little endian |
//! | id_range_lo        | 8..16   | little endian |
//! | id_range_hi        | 16..24  | little endian |
//! | entry_size         | 24..26  | little endian |
//! | salt               | 26..58  |               |
//! | first_entry_offset | 58..66  | little endian |

use crate::layout::{
    Salt, FLAT_LAYOUT_VERSION, HEADER_SIZE, LENGTH_PREFIX_SIZE, MANAGED_LAYOUT_VERSION,
    STABLE_MEMORY_RESERVE, STABLE_MEMORY_SIZE,
};
use vstd::bytes::*;
use vstd::prelude::*;
use vstd::slice::slice_subrange;

verus! {

/// Magic bytes in front of every storage header.
pub const HEADER_MAGIC: [u8; 3] = [0x49, 0x49, 0x43];

/// Metadata of a store, kept at address zero of its memory.
#[derive(Clone, Copy, Debug)]
pub struct Header {
    pub magic: [u8; 3],
    pub version: u8,
    pub num_anchors: u32,
    pub id_range_lo: u64,
    pub id_range_hi: u64,
    pub entry_size: u16,
    pub salt: Salt,
    pub first_entry_offset: u64,
}

/// What a header says, with its byte strings as sequences.
pub struct HeaderView {
    pub magic: Seq<u8>,
    pub version: u8,
    pub num_anchors: u32,
    pub id_range_lo: u64,
    pub id_range_hi: u64,
    pub entry_size: u16,
    pub salt: Seq<u8>,
    pub first_entry_offset: u64,
}

/// Why a header cannot be opened.
#[derive(Clone, Copy, Debug, PartialEq, Eq)]
pub enum HeaderError {
    /// The first three bytes are not the magic of a storage header.
    InvalidMagic([u8; 3]),
    /// The layout is older than any that can still be read.
    VersionNoLongerSupported(u8),
    /// The layout is newer than any known one.
    UnsupportedVersion(u8),
    /// The counters and bounds contradict each other.
    Inconsistent,
}

/// The largest number of records of `entry_size` bytes that fit between
/// `first_entry_offset` and the reserved tail of stable memory.
pub open spec fn spec_max_entries(first_entry_offset: u64, entry_size: u16) -> int {
    (STABLE_MEMORY_SIZE - first_entry_offset - STABLE_MEMORY_RESERVE) / (entry_size as int)
}

/// The salt that stands for "not set".
pub open spec fn empty_salt() -> Seq<u8> {
    Seq::new(32, |i: int| 0u8)
}

impl View for Header {
    type V = HeaderView;

    open spec fn view(&self) -> HeaderView {
        HeaderView {
            magic: self.magic@,
            version: self.version,
            num_anchors: self.num_anchors,
            id_range_lo: self.id_range_lo,
            id_range_hi: self.id_range_hi,
            entry_size: self.entry_size,
            salt: self.salt@,
            first_entry_offset: self.first_entry_offset,
        }
    }
}

impl HeaderView {
    /// The 66 bytes that stand for the header.
    pub open spec fn encode(self) -> Seq<u8> {
        self.magic + seq![self.version] + spec_u32_to_le_bytes(self.num_anchors)
            + spec_u64_to_le_bytes(self.id_range_lo) + spec_u64_to_le_bytes(self.id_range_hi)
            + spec_u16_to_le_bytes(self.entry_size) + self.salt + spec_u64_to_le_bytes(
            self.first_entry_offset,
        )
    }

    /// The header that the first 66 of `bytes` stand for.
    pub open spec fn decode(bytes: Seq<u8>) -> HeaderView {
        HeaderView {
            magic: bytes.subrange(0, 3),
            version: bytes[3],
            num_anchors: spec_u32_from_le_bytes(bytes.subrange(4, 8)),
            id_range_lo: spec_u64_from_le_bytes(bytes.subrange(8, 16)),
            id_range_hi: spec_u64_from_le_bytes(bytes.subrange(16, 24)),
            entry_size: spec_u16_from_le_bytes(bytes.subrange(24, 26)),
            salt: bytes.subrange(26, 58),
            first_entry_offset: spec_u64_from_le_bytes(bytes.subrange(58, 66)),
        }
    }

    /// The byte strings have the lengths of their fields.
    pub open spec fn is_sized(self) -> bool {
        self.magic.len() == 3 && self.salt.len() == 32
    }

    /// The magic is right and the version is one that can be opened.
    pub open spec fn is_supported(self) -> bool {
        &&& self.magic == HEADER_MAGIC@
        &&& (self.version == FLAT_LAYOUT_VERSION || self.version == MANAGED_LAYOUT_VERSION)
    }

    /// The counters and bounds agree: a record has room for its length
    /// prefix, every record number fits the 32-bit counter, the range is
    /// proper and fits, and no more anchors are allocated than the range has
    /// numbers.
    pub open spec fn is_consistent(self) -> bool {
        &&& self.is_sized()
        &&& self.entry_size >= LENGTH_PREFIX_SIZE
        &&& self.first_entry_offset <= STABLE_MEMORY_SIZE - STABLE_MEMORY_RESERVE
        &&& spec_max_entries(self.first_entry_offset, self.entry_size) <= u32::MAX
        &&& self.id_range_lo <= self.id_range_hi
        &&& self.id_range_hi - self.id_range_lo <= spec_max_entries(
            self.first_entry_offset,
            self.entry_size,
        )
        &&& self.num_anchors <= self.id_range_hi - self.id_range_lo
    }

    /// The salt has been set.
    pub open spec fn has_salt(self) -> bool {
        self.salt != empty_salt()
    }
}

impl Header {
    /// What `validate` answers for this header.
    pub open spec fn spec_validate(self) -> Result<(), HeaderError> {
        if self@.magic != HEADER_MAGIC@ {
            Err(HeaderError::InvalidMagic(self.magic))
        } else if self.version < FLAT_LAYOUT_VERSION {
            Err(HeaderError::VersionNoLongerSupported(self.version))
        } else if self.version > MANAGED_LAYOUT_VERSION {
            Err(HeaderError::UnsupportedVersion(self.version))
        } else if !self@.is_consistent() {
            Err(HeaderError::Inconsistent)
        } else {
            Ok(())
        }
    }

    /// Encodes the header into its 66 bytes.
    pub fn to_bytes(&self) -> (out: Vec<u8>)
        ensures
            out@ == self@.encode(),
            out@.len() == HEADER_SIZE,
    {
        proof {
            lemma_auto_spec_u16_to_from_le_bytes();
            lemma_auto_spec_u32_to_from_le_bytes();
            lemma_auto_spec_u64_to_from_le_bytes();
        }
        let mut out: Vec<u8> = Vec::with_capacity(HEADER_SIZE);
        out.push(self.magic[0]);
        out.push(self.magic[1]);
        out.push(self.magic[2]);
        out.push(self.version);
        let mut num_anchors = u32_to_le_bytes(self.num_anchors);
        out.append(&mut num_anchors);
        let mut lo = u64_to_le_bytes(self.id_range_lo);
        out.append(&mut lo);
        let mut hi = u64_to_le_bytes(self.id_range_hi);
        out.append(&mut hi);
        let mut entry_size = u16_to_le_bytes(self.entry_size);
        out.append(&mut entry_size);
        let ghost before_salt = out@;
        let mut i: usize = 0;
        while i < 32
            invariant
                i <= 32,
                out@ == before_salt + self.salt@.subrange(0, i as int),
            decreases 32 - i,
        {
            out.push(self.salt[i]);
            i += 1;
        }
        let mut first_entry_offset = u64_to_le_bytes(self.first_entry_offset);
        out.append(&mut first_entry_offset);
        out
    }

    /// Decodes a header from its 66 bytes. Any 66 bytes decode; whether the
    /// result can be opened is for `validate` to say.
    pub fn from_bytes(bytes: &[u8]) -> (header: Header)
        requires
            bytes@.len() == HEADER_SIZE,
        ensures
            header@ == HeaderView::decode(bytes@),
    {
        let mut magic: [u8; 3] = [0u8; 3];
        magic[0] = bytes[0];
        magic[1] = bytes[1];
        magic[2] = bytes[2];
        assert(magic@ == bytes@.subrange(0, 3));
        let mut salt: Salt = [0u8; 32];
        let mut i: usize = 0;
        while i < 32
            invariant
                i <= 32,
                bytes@.len() == HEADER_SIZE,
                forall|j: int| 0 <= j < i ==> salt@[j] == bytes@[26 + j],
            decreases 32 - i,
        {
            salt[i] = bytes[26 + i];
            i += 1;
        }
        assert(salt@ == bytes@.subrange(26, 58));
        Header {
            magic,
            version: bytes[3],
            num_anchors: u32_from_le_bytes(slice_subrange(bytes, 4, 8)),
            id_range_lo: u64_from_le_bytes(slice_subrange(bytes, 8, 16)),
            id_range_hi: u64_from_le_bytes(slice_subrange(bytes, 16, 24)),
            entry_size: u16_from_le_bytes(slice_subrange(bytes, 24, 26)),
            salt,
            first_entry_offset: u64_from_le_bytes(slice_subrange(bytes, 58, 66)),
        }
    }

    /// The number of records that fit into the memory planned for them.
    pub fn max_entries(&self) -> (n: u64)
        requires
            self.entry_size > 0,
            self.first_entry_offset <= STABLE_MEMORY_SIZE - STABLE_MEMORY_RESERVE,
        ensures
            n == spec_max_entries(self.first_entry_offset, self.entry_size),
    {
        (STABLE_MEMORY_SIZE - self.first_entry_offset - STABLE_MEMORY_RESERVE)
            / self.entry_size as u64
    }

    /// Says whether the salt is other than all zeroes.
    pub fn has_salt(&self) -> (b: bool)
        ensures
            b == self@.has_salt(),
    {
        let mut i: usize = 0;
        while i < 32
            invariant
                i <= 32,
                forall|j: int| 0 <= j < i ==> self.salt@[j] == 0,
            decreases 32 - i,
        {
            if self.salt[i] != 0 {
                return true;
            }
            i += 1;
        }
        assert(self.salt@ =~= empty_salt());
        false
    }

    /// Says whether a decoded header can be opened, and if not, why: a wrong
    /// magic first, then a version below or above the supported ones, then
    /// counters that contradict each other.
    pub fn validate(&self) -> (r: Result<(), HeaderError>)
        ensures
            r == self.spec_validate(),
            r is Ok <==> self@.is_supported() && self@.is_consistent(),
    {
        if self.magic[0] != HEADER_MAGIC[0] || self.magic[1] != HEADER_MAGIC[1] || self.magic[2]
            != HEADER_MAGIC[2] {
            return Err(HeaderError::InvalidMagic(self.magic));
        }
        assert(self.magic@ =~= HEADER_MAGIC@);
        if self.version < FLAT_LAYOUT_VERSION {
            return Err(HeaderError::VersionNoLongerSupported(self.version));
        }
        if self.version > MANAGED_LAYOUT_VERSION {
            return Err(HeaderError::UnsupportedVersion(self.version));
        }
        if self.entry_size < LENGTH_PREFIX_SIZE || self.first_entry_offset > STABLE_MEMORY_SIZE
            - STABLE_MEMORY_RESERVE || self.id_range_lo > self.id_range_hi {
            return Err(HeaderError::Inconsistent);
        }
        let span = self.id_range_hi - self.id_range_lo;
        let max_entries = self.max_entries();
        if max_entries > u32::MAX as u64 || span > max_entries || self.num_anchors as u64 > span {
            return Err(HeaderError::Inconsistent);
        }
        Ok(())
    }
}

/// Encoding and decoding are inverse to each other: a header is what its
/// encoding decodes to, and 66 bytes are the encoding of what they decode to.
pub proof fn lemma_header_encoding(header: HeaderView, bytes: Seq<u8>)
    ensures
        header.is_sized() ==> header.encode().len() == HEADER_SIZE,
        header.is_sized() ==> HeaderView::decode(header.encode()) == header,
        bytes.len() == HEADER_SIZE ==> HeaderView::decode(bytes).encode() == bytes,
        bytes.len() >= HEADER_SIZE ==> HeaderView::decode(bytes).is_sized(),
{
    lemma_auto_spec_u16_to_from_le_bytes();
    lemma_auto_spec_u32_to_from_le_bytes();
    lemma_auto_spec_u64_to_from_le_bytes();
    if header.is_sized() {
        let s = header.encode();
        assert(s.subrange(0, 3) == header.magic);
        assert(s.subrange(4, 8) == spec_u32_to_le_bytes(header.num_anchors));
        assert(s.subrange(8, 16) == spec_u64_to_le_bytes(header.id_range_lo));
        assert(s.subrange(16, 24) == spec_u64_to_le_bytes(header.id_range_hi));
        assert(s.subrange(24, 26) == spec_u16_to_le_bytes(header.entry_size));
        assert(s.subrange(26, 58) == header.salt);
        assert(s.subrange(58, 66) == spec_u64_to_le_bytes(header.first_entry_offset));
    }
    if bytes.len() == HEADER_SIZE {
        assert(bytes =~= bytes.subrange(0, 3) + seq![bytes[3]] + bytes.subrange(4, 8)
            + bytes.subrange(8, 16) + bytes.subrange(16, 24) + bytes.subrange(24, 26)
            + bytes.subrange(26, 58) + bytes.subrange(58, 66));
    }
}

/// Decoding looks at the first 66 bytes only.
pub proof fn lemma_decode_prefix(bytes: Seq<u8>)
    requires
        bytes.len() >= HEADER_SIZE,
    ensures
        HeaderView::decode(bytes.subrange(0, HEADER_SIZE as int)) == HeaderView::decode(bytes),
{
    let p = bytes.subrange(0, HEADER_SIZE as int);
    assert(p.subrange(0, 3) == bytes.subrange(0, 3));
    assert(p.subrange(4, 8) == bytes.subrange(4, 8));
    assert(p.subrange(8, 16) == bytes.subrange(8, 16));
    assert(p.subrange(16, 24) == bytes.subrange(16, 24));
    assert(p.subrange(24, 26) == bytes.subrange(24, 26));
    assert(p.subrange(26, 58) == bytes.subrange(26, 58));
    assert(p.subrange(58, 66) == bytes.subrange(58, 66));
}

} // verus!
