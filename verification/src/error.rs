//! What the operations of the store report instead of a result, and how the
//! errors read.

use crate::layout::AnchorNumber;
use vstd::prelude::*;
use vstd::string::StringExecFns;

verus! {

/// `candid::error::Error`, which the codec of the payloads reports.
#[verifier::external_type_specification]
#[verifier::external_body]
pub struct ExCandidError(candid::error::Error);

/// Why an anchor could not be read or written.
#[derive(Debug)]
pub enum StorageError {
    /// The anchor number lies outside the range assigned to the store.
    AnchorNumberOutOfRange { anchor_number: AnchorNumber, range: (AnchorNumber, AnchorNumber) },
    /// The anchor number lies in the range but has not been allocated.
    BadAnchorNumber(u64),
    /// The stored bytes are not the encoding of an anchor.
    DeserializationError(candid::error::Error),
    /// The anchor could not be encoded.
    SerializationError(candid::error::Error),
    /// The encoded anchor, of the given size, does not fit into a record.
    EntrySizeLimitExceeded(usize),
}

/// Why no persistent state was read.
#[derive(Debug)]
pub enum PersistentStateError {
    /// The bytes behind the marker are not the encoding of a state.
    CandidError(candid::error::Error),
    /// No marker stands behind the last allocated record.
    NotFound,
    /// The memory ends before the end of the state.
    ReadError(std::io::Error),
}

/// Why the bytes of a record cannot be handed out.
#[derive(Debug)]
pub enum RecordFault {
    /// The memory ends before the end of the record.
    Truncated(std::io::Error),
    /// The stored length is larger than any payload that fits into a record.
    LengthExceedsLimit { len: usize, limit: usize },
}

/// Why a range of anchor numbers cannot be assigned to a store.
#[derive(Clone, Copy, Debug, PartialEq, Eq, Structural)]
pub enum RangeError {
    /// The upper bound lies below the lower bound.
    Improper { lo: AnchorNumber, hi: AnchorNumber },
    /// The range has more numbers than the store has room for records.
    TooLarge { lo: AnchorNumber, hi: AnchorNumber, max_entries: u64 },
    /// Anchors exist and the range starts at another number than the one
    /// they were counted from.
    StartMoved { lo: AnchorNumber, hi: AnchorNumber, current_lo: AnchorNumber },
    /// The range has fewer numbers than there are anchors.
    TooSmall { lo: AnchorNumber, hi: AnchorNumber, num_anchors: u32 },
}

/// The ten digits.
pub open spec fn digits() -> Seq<char> {
    seq!['0', '1', '2', '3', '4', '5', '6', '7', '8', '9']
}

/// A number in decimal notation.
pub open spec fn decimal(n: nat) -> Seq<char>
    decreases n,
{
    if n < 10 {
        seq![digits()[n as int]]
    } else {
        decimal(n / 10) + seq![digits()[(n % 10) as int]]
    }
}

/// What a candid error says of itself.
pub uninterp spec fn candid_error_text(e: candid::error::Error) -> Seq<char>;

/// `to_string` of a `u64`: the number in decimal notation.
#[verifier::external_body]
fn decimal_string(n: u64) -> (s: String)
    ensures
        s@ == decimal(n as nat),
{
    n.to_string()
}

/// `to_string` of a `candid::error::Error`: the text that its `Display`
/// writes.
#[verifier::external_body]
fn candid_error_string(e: &candid::error::Error) -> (s: String)
    ensures
        s@ == candid_error_text(*e),
{
    e.to_string()
}

impl StorageError {
    /// The text of the error.
    pub open spec fn message(self) -> Seq<char> {
        match self {
            StorageError::AnchorNumberOutOfRange { anchor_number, range } => "Identity Anchor "@
                + decimal(anchor_number as nat) + " is out of range ["@ + decimal(range.0 as nat)
                + ", "@ + decimal(range.1 as nat) + ")"@,
            StorageError::BadAnchorNumber(n) => "bad Identity Anchor "@ + decimal(n as nat),
            StorageError::DeserializationError(e) => "failed to deserialize a Candid value: "@
                + candid_error_text(e),
            StorageError::SerializationError(e) => "failed to serialize a Candid value: "@
                + candid_error_text(e),
            StorageError::EntrySizeLimitExceeded(n) => "attempted to store an entry of size "@
                + decimal(n as nat)
                + " which is larger then the max allowed entry size"@,
        }
    }

    /// Writes the error out as text.
    pub fn to_string(&self) -> (s: String)
        ensures
            s@ == self.message(),
    {
        match self {
            StorageError::AnchorNumberOutOfRange { anchor_number, range } => {
                let mut s = String::from_str("Identity Anchor ");
                s.append(decimal_string(*anchor_number).as_str());
                s.append(" is out of range [");
                s.append(decimal_string(range.0).as_str());
                s.append(", ");
                s.append(decimal_string(range.1).as_str());
                s.append(")");
                s
            },
            StorageError::BadAnchorNumber(n) => {
                let mut s = String::from_str("bad Identity Anchor ");
                s.append(decimal_string(*n).as_str());
                s
            },
            StorageError::DeserializationError(e) => {
                let mut s = String::from_str("failed to deserialize a Candid value: ");
                s.append(candid_error_string(e).as_str());
                s
            },
            StorageError::SerializationError(e) => {
                let mut s = String::from_str("failed to serialize a Candid value: ");
                s.append(candid_error_string(e).as_str());
                s
            },
            StorageError::EntrySizeLimitExceeded(n) => {
                let mut s = String::from_str("attempted to store an entry of size ");
                s.append(decimal_string(*n as u64).as_str());
                s.append(" which is larger then the max allowed entry size");
                s
            },
        }
    }
}

} // verus!
