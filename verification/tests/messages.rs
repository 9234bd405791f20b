use anchor_storage::StorageError;

fn candid_error() -> candid::error::Error {
    candid::decode_one::<u64>(&[1, 2, 3]).unwrap_err()
}

#[test]
fn should_name_the_anchor_and_the_range() {
    let error = StorageError::AnchorNumberOutOfRange { anchor_number: 99, range: (100, 200) };
    assert_eq!(error.to_string(), "Identity Anchor 99 is out of range [100, 200)");
    let error = StorageError::AnchorNumberOutOfRange {
        anchor_number: u64::MAX,
        range: (0, 10_000),
    };
    assert_eq!(
        error.to_string(),
        "Identity Anchor 18446744073709551615 is out of range [0, 10000)"
    );
}

#[test]
fn should_name_the_bad_anchor() {
    assert_eq!(StorageError::BadAnchorNumber(101).to_string(), "bad Identity Anchor 101");
    assert_eq!(StorageError::BadAnchorNumber(0).to_string(), "bad Identity Anchor 0");
}

#[test]
fn should_name_the_size_that_was_too_large() {
    assert_eq!(
        StorageError::EntrySizeLimitExceeded(4095).to_string(),
        "attempted to store an entry of size 4095 which is larger then the max allowed entry size"
    );
}

#[test]
fn should_pass_on_what_the_codec_says() {
    let text = candid_error().to_string();
    assert!(!text.is_empty());
    assert_eq!(
        StorageError::DeserializationError(candid_error()).to_string(),
        format!("failed to deserialize a Candid value: {}", text)
    );
    assert_eq!(
        StorageError::SerializationError(candid_error()).to_string(),
        format!("failed to serialize a Candid value: {}", text)
    );
    let custom = candid::error::Error::msg("no such field");
    assert_eq!(
        StorageError::SerializationError(custom).to_string(),
        "failed to serialize a Candid value: no such field"
    );
}
