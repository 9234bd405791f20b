use anchor_storage::header::{Header, HeaderError, HEADER_MAGIC};
use anchor_storage::layout::{
    DEFAULT_ENTRY_SIZE, ENTRY_OFFSET, HEADER_SIZE, MAX_WASM_PAGES, STABLE_MEMORY_RESERVE,
    STABLE_MEMORY_SIZE, WASM_PAGE_SIZE,
};
use anchor_storage::{StableMemory, Storage};
use ic_stable_structures::VectorMemory;

fn sample_header() -> Header {
    let mut salt = [0u8; 32];
    for (i, b) in salt.iter_mut().enumerate() {
        *b = 0xa0 + i as u8;
    }
    Header {
        magic: *b"IIC",
        version: 6,
        num_anchors: 0x0403_0201,
        id_range_lo: 0x1112_1314_1516_1718,
        id_range_hi: 0x2122_2324_2526_2728,
        entry_size: 0x1000,
        salt,
        first_entry_offset: 0x0002_0000,
    }
}

#[test]
fn should_know_the_layout_constants() {
    assert_eq!(WASM_PAGE_SIZE, 65_536);
    assert_eq!(ENTRY_OFFSET, 131_072);
    assert_eq!(DEFAULT_ENTRY_SIZE, 4096);
    assert_eq!(STABLE_MEMORY_SIZE, 34_359_738_368);
    assert_eq!(STABLE_MEMORY_RESERVE, 858_993_459);
    assert_eq!(MAX_WASM_PAGES, 524_288);
    assert_eq!(HEADER_SIZE, 66);
    assert_eq!(&HEADER_MAGIC, b"IIC");
}

#[test]
fn should_encode_the_header_field_by_field() {
    let bytes = sample_header().to_bytes();
    assert_eq!(bytes.len(), 66);
    let mut expected = Vec::new();
    expected.extend_from_slice(b"IIC");
    expected.push(6);
    expected.extend_from_slice(&[0x01, 0x02, 0x03, 0x04]);
    expected.extend_from_slice(&[0x18, 0x17, 0x16, 0x15, 0x14, 0x13, 0x12, 0x11]);
    expected.extend_from_slice(&[0x28, 0x27, 0x26, 0x25, 0x24, 0x23, 0x22, 0x21]);
    expected.extend_from_slice(&[0x00, 0x10]);
    expected.extend((0..32u8).map(|i| 0xa0 + i));
    expected.extend_from_slice(&[0x00, 0x00, 0x02, 0x00, 0x00, 0x00, 0x00, 0x00]);
    assert_eq!(bytes, expected);
}

#[test]
fn should_decode_what_was_encoded() {
    let header = sample_header();
    let decoded = Header::from_bytes(&header.to_bytes());
    assert_eq!(decoded.magic, header.magic);
    assert_eq!(decoded.version, header.version);
    assert_eq!(decoded.num_anchors, header.num_anchors);
    assert_eq!(decoded.id_range_lo, header.id_range_lo);
    assert_eq!(decoded.id_range_hi, header.id_range_hi);
    assert_eq!(decoded.entry_size, header.entry_size);
    assert_eq!(decoded.salt, header.salt);
    assert_eq!(decoded.first_entry_offset, header.first_entry_offset);
}

#[test]
fn should_encode_what_was_decoded() {
    let bytes: Vec<u8> = (0..66u8).map(|i| i.wrapping_mul(37).wrapping_add(11)).collect();
    assert_eq!(Header::from_bytes(&bytes).to_bytes(), bytes);
}

#[test]
fn should_write_the_header_of_a_new_store_at_address_zero() {
    for (memory, version) in [
        (StableMemory::Single(VectorMemory::default()), 6u8),
        (StableMemory::Managed(VectorMemory::default()), 7u8),
    ] {
        let raw = match &memory {
            StableMemory::Single(m) => m.clone(),
            StableMemory::Managed(m) => m.clone(),
        };
        let storage = Storage::new((10_000, 3_784_873), memory);
        assert_eq!(storage.version(), version);
        let mut expected = Vec::new();
        expected.extend_from_slice(b"IIC");
        expected.push(version);
        expected.extend_from_slice(&0u32.to_le_bytes());
        expected.extend_from_slice(&10_000u64.to_le_bytes());
        expected.extend_from_slice(&3_784_873u64.to_le_bytes());
        expected.extend_from_slice(&4096u16.to_le_bytes());
        expected.extend_from_slice(&[0u8; 32]);
        expected.extend_from_slice(&131_072u64.to_le_bytes());
        assert_eq!(&raw.borrow()[..66], &expected[..]);
        assert!(raw.borrow()[66..65_536].iter().all(|b| *b == 0));
    }
}

#[test]
fn should_accept_a_sound_header() {
    let mut header = sample_header();
    header.num_anchors = 5;
    header.id_range_lo = 10;
    header.id_range_hi = 15;
    assert_eq!(header.validate(), Ok(()));
    header.version = 7;
    assert_eq!(header.validate(), Ok(()));
    assert_eq!(header.max_entries(), 8_178_860);
    header.id_range_hi = 10 + 8_178_860;
    assert_eq!(header.validate(), Ok(()));
}

#[test]
fn should_reject_a_wrong_magic() {
    let mut header = sample_header();
    header.magic = *b"IIX";
    assert_eq!(header.validate(), Err(HeaderError::InvalidMagic([0x49, 0x49, 0x58])));
    // the magic is looked at before the version
    header.version = 3;
    assert_eq!(header.validate(), Err(HeaderError::InvalidMagic(*b"IIX")));
}

#[test]
fn should_reject_versions_outside_the_supported_ones() {
    let mut header = sample_header();
    for version in 0..6u8 {
        header.version = version;
        assert_eq!(header.validate(), Err(HeaderError::VersionNoLongerSupported(version)));
    }
    for version in [8u8, 9, 255] {
        header.version = version;
        assert_eq!(header.validate(), Err(HeaderError::UnsupportedVersion(version)));
    }
}

#[test]
fn should_reject_counters_that_contradict_each_other() {
    let sound = {
        let mut header = sample_header();
        header.num_anchors = 5;
        header.id_range_lo = 10;
        header.id_range_hi = 15;
        header
    };
    let mut header = sound;
    header.num_anchors = 6;
    assert_eq!(header.validate(), Err(HeaderError::Inconsistent));
    let mut header = sound;
    header.id_range_lo = 16;
    assert_eq!(header.validate(), Err(HeaderError::Inconsistent));
    let mut header = sound;
    header.id_range_hi = 10 + 8_178_861;
    assert_eq!(header.validate(), Err(HeaderError::Inconsistent));
    let mut header = sound;
    header.entry_size = 1;
    assert_eq!(header.validate(), Err(HeaderError::Inconsistent));
    let mut header = sound;
    header.first_entry_offset = STABLE_MEMORY_SIZE;
    assert_eq!(header.validate(), Err(HeaderError::Inconsistent));
    // with records of two bytes there would be more of them than the counter can count
    let mut header = sound;
    header.entry_size = 2;
    assert_eq!(header.validate(), Err(HeaderError::Inconsistent));
}

#[test]
fn should_tell_a_set_salt_from_an_empty_one() {
    let mut header = sample_header();
    assert!(header.has_salt());
    header.salt = [0u8; 32];
    assert!(!header.has_salt());
    header.salt[31] = 1;
    assert!(header.has_salt());
}
