use anchor_storage::error::RecordFault;
use anchor_storage::records::frame_record;
use anchor_storage::{StableMemory, Storage, StorageError};
use ic_stable_structures::VectorMemory;

const RECORDS_START: usize = 131_072;

fn sample_anchor(tag: &str) -> Vec<u8> {
    candid::encode_one(vec![tag.to_string(), "device".to_string()]).unwrap()
}

fn payload_of_size(len: usize) -> Vec<u8> {
    (0..len).map(|i| (i % 251) as u8).collect()
}

fn both_layouts() -> Vec<(u8, VectorMemory, Storage)> {
    let flat = VectorMemory::default();
    let managed = VectorMemory::default();
    vec![
        (6, flat.clone(), Storage::new((100, 200), StableMemory::Single(flat))),
        (7, managed.clone(), Storage::new((100, 200), StableMemory::Managed(managed))),
    ]
}

#[test]
fn should_read_back_what_was_written() {
    for (version, _, mut storage) in both_layouts() {
        assert_eq!(storage.version(), version);
        let anchor_number = storage.allocate_anchor().unwrap();
        assert_eq!(anchor_number, 100);
        let anchor = sample_anchor("default");
        storage.write(100, anchor.clone()).unwrap();
        assert_eq!(storage.read(100).unwrap(), anchor);
        let decoded: Vec<String> = candid::decode_one(&storage.read(100).unwrap()).unwrap();
        assert_eq!(decoded, vec!["default".to_string(), "device".to_string()]);
        assert!(matches!(storage.read(101), Err(StorageError::BadAnchorNumber(101))));
    }
}

#[test]
fn should_read_back_the_last_of_several_writes() {
    for (_, _, mut storage) in both_layouts() {
        storage.allocate_anchor().unwrap();
        storage.write(100, payload_of_size(300)).unwrap();
        storage.write(100, payload_of_size(12)).unwrap();
        assert_eq!(storage.read(100).unwrap(), payload_of_size(12));
        storage.write(100, Vec::new()).unwrap();
        assert_eq!(storage.read(100).unwrap(), Vec::<u8>::new());
    }
}

#[test]
fn should_enforce_the_entry_size_limit() {
    for range in [(1u64, 2u64), (1, 3)] {
        let mut storage = Storage::new(range, StableMemory::Single(VectorMemory::default()));
        storage.allocate_anchor().unwrap();
        let limit = storage.candid_entry_size_limit();
        assert_eq!(limit, 4094);
        storage.write(1, payload_of_size(4094)).unwrap();
        assert_eq!(storage.read(1).unwrap(), payload_of_size(4094));
        let result = storage.write(1, payload_of_size(4095));
        assert!(matches!(result, Err(StorageError::EntrySizeLimitExceeded(4095))));
        // the rejected write has changed nothing
        assert_eq!(storage.read(1).unwrap(), payload_of_size(4094));
    }
}

#[test]
fn should_refuse_to_write_unallocated_or_foreign_anchors() {
    for (_, memory, mut storage) in both_layouts() {
        storage.allocate_anchor().unwrap();
        let before = memory.borrow().clone();
        assert!(matches!(
            storage.write(101, sample_anchor("a")),
            Err(StorageError::BadAnchorNumber(101))
        ));
        assert!(matches!(
            storage.write(99, sample_anchor("a")),
            Err(StorageError::AnchorNumberOutOfRange { anchor_number: 99, range: (100, 200) })
        ));
        assert!(matches!(
            storage.write(200, sample_anchor("a")),
            Err(StorageError::AnchorNumberOutOfRange { anchor_number: 200, range: (100, 200) })
        ));
        assert!(matches!(
            storage.read(250),
            Err(StorageError::AnchorNumberOutOfRange { anchor_number: 250, range: (100, 200) })
        ));
        assert_eq!(*memory.borrow(), before);
    }
}

#[test]
fn should_lay_out_records_as_length_then_payload() {
    for (_, memory, mut storage) in both_layouts() {
        for _ in 0..3 {
            storage.allocate_anchor().unwrap();
        }
        storage.write(102, vec![0xaa, 0xbb, 0xcc]).unwrap();
        let bytes = memory.borrow();
        let at = RECORDS_START + 2 * 4096;
        assert_eq!(&bytes[at..at + 5], &[3, 0, 0xaa, 0xbb, 0xcc]);
        // nothing else of the anchor memory was touched
        assert!(bytes[RECORDS_START..at].iter().all(|b| *b == 0));
        assert!(bytes[at + 5..].iter().all(|b| *b == 0));
    }
}

#[test]
fn should_encode_the_length_in_little_endian() {
    for (_, memory, mut storage) in both_layouts() {
        storage.allocate_anchor().unwrap();
        storage.write(100, payload_of_size(0x0123)).unwrap();
        let bytes = memory.borrow();
        assert_eq!(&bytes[RECORDS_START..RECORDS_START + 2], &[0x23, 0x01]);
    }
}

#[test]
fn should_frame_a_payload_with_its_length() {
    assert_eq!(frame_record(&[]), vec![0, 0]);
    assert_eq!(frame_record(&[7, 8, 9]), vec![3, 0, 7, 8, 9]);
    let framed = frame_record(&payload_of_size(258));
    assert_eq!(&framed[..2], &[2, 1]);
    assert_eq!(&framed[2..], &payload_of_size(258)[..]);
}

#[test]
fn should_not_touch_other_records() {
    for (_, memory, mut storage) in both_layouts() {
        for _ in 0..4 {
            storage.allocate_anchor().unwrap();
        }
        for i in 0..4usize {
            storage.write(100 + i as u64, payload_of_size(1000 + i)).unwrap();
        }
        let before = memory.borrow().clone();
        storage.write(101, payload_of_size(4094)).unwrap();
        let after = memory.borrow().clone();
        let slot = |i: usize| RECORDS_START + i * 4096..RECORDS_START + (i + 1) * 4096;
        for i in [0usize, 2, 3] {
            assert_eq!(before[slot(i)], after[slot(i)]);
            assert_eq!(storage.read(100 + i as u64).unwrap(), payload_of_size(1000 + i));
        }
        assert_ne!(before[slot(1)], after[slot(1)]);
        assert_eq!(storage.read(101).unwrap(), payload_of_size(4094));
        // a shorter payload leaves the unused rest of its own record alone
        storage.write(101, vec![1]).unwrap();
        let shorter = memory.borrow().clone();
        let at = RECORDS_START + 4096;
        assert_eq!(&shorter[at..at + 3], &[1, 0, 1]);
        assert_eq!(shorter[at + 3..at + 4096], after[at + 3..at + 4096]);
    }
}

#[test]
fn should_grow_the_flat_memory_in_whole_pages() {
    let memory = VectorMemory::default();
    let mut storage = Storage::new((0, 100), StableMemory::Single(memory.clone()));
    assert_eq!(memory.borrow().len(), 65_536);
    for _ in 0..17 {
        storage.allocate_anchor().unwrap();
    }
    storage.write(0, vec![1, 2, 3]).unwrap();
    assert_eq!(memory.borrow().len(), 3 * 65_536);
    // record 16 starts on the fourth page
    storage.write(16, vec![4]).unwrap();
    assert_eq!(memory.borrow().len(), 4 * 65_536);
    storage.write(15, payload_of_size(4094)).unwrap();
    assert_eq!(memory.borrow().len(), 4 * 65_536);
}

#[test]
fn should_report_a_record_behind_the_end_of_memory() {
    for (_, _, mut storage) in both_layouts() {
        storage.allocate_anchor().unwrap();
        // allocated, never written: the anchor memory is still empty
        assert!(matches!(storage.record_fault(0), Some(RecordFault::Truncated(_))));
        storage.write(100, vec![9; 10]).unwrap();
        assert!(storage.record_fault(0).is_none());
        assert_eq!(storage.read_entry_bytes(0), vec![9; 10]);
        // the page that holds record 0 holds record 5 as well, all zeroes
        assert!(storage.record_fault(5).is_none());
        assert_eq!(storage.read_entry_bytes(5), Vec::<u8>::new());
        // record 16 lies on a page that the memory does not have
        assert!(matches!(storage.record_fault(16), Some(RecordFault::Truncated(_))));
    }
}

#[test]
fn should_report_a_length_that_no_record_can_hold() {
    let memory = VectorMemory::default();
    let mut storage = Storage::new((0, 10), StableMemory::Single(memory.clone()));
    storage.allocate_anchor().unwrap();
    storage.allocate_anchor().unwrap();
    storage.write(1, vec![1, 2, 3]).unwrap();
    {
        let mut bytes = memory.borrow_mut();
        // 4095 = 0x0fff
        bytes[RECORDS_START] = 0xff;
        bytes[RECORDS_START + 1] = 0x0f;
    }
    assert!(matches!(
        storage.record_fault(0),
        Some(RecordFault::LengthExceedsLimit { len: 4095, limit: 4094 })
    ));
    assert!(storage.record_fault(1).is_none());
    assert_eq!(storage.read_entry_bytes(1), vec![1, 2, 3]);
    {
        let mut bytes = memory.borrow_mut();
        // 4094 = 0x0ffe is the largest length that fits
        bytes[RECORDS_START] = 0xfe;
    }
    assert!(storage.record_fault(0).is_none());
    assert_eq!(storage.read_entry_bytes(0).len(), 4094);
}

#[test]
fn should_report_a_payload_that_ends_behind_the_memory() {
    let memory = VectorMemory::default();
    let mut storage = Storage::new((0, 100), StableMemory::Single(memory.clone()));
    for _ in 0..16 {
        storage.allocate_anchor().unwrap();
    }
    storage.write(15, vec![1, 2, 3]).unwrap();
    assert_eq!(memory.borrow().len(), 3 * 65_536);
    {
        // cut the memory in the middle of the last record
        let mut bytes = memory.borrow_mut();
        bytes.truncate(3 * 65_536 - 4094);
    }
    // the memory now ends with its second page: the records are gone
    assert!(matches!(storage.record_fault(15), Some(RecordFault::Truncated(_))));
}

#[test]
fn should_find_fault_with_records_on_a_page_that_is_gone() {
    let memory = VectorMemory::default();
    let mut storage = Storage::new((0, 100), StableMemory::Single(memory.clone()));
    for _ in 0..16 {
        storage.allocate_anchor().unwrap();
    }
    storage.write(15, vec![7; 4094]).unwrap();
    assert!(storage.record_fault(15).is_none());
    assert_eq!(storage.read(15).unwrap(), vec![7; 4094]);
    // a page that lacks its last byte is no page: the records on it are gone
    memory.borrow_mut().truncate(3 * 65_536 - 1);
    assert!(matches!(storage.record_fault(15), Some(RecordFault::Truncated(_))));
    assert!(matches!(storage.record_fault(14), Some(RecordFault::Truncated(_))));
}
