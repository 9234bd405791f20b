use anchor_storage::persistent::frame_state;
use anchor_storage::{PersistentStateError, StableMemory, Storage};
use ic_stable_structures::VectorMemory;

const RECORDS_START: usize = 131_072;

fn sample_state() -> Vec<u8> {
    candid::encode_one(("archive".to_string(), 42u64, vec![1u8, 2, 3])).unwrap()
}

fn stores_in_both_layouts() -> Vec<(VectorMemory, Storage)> {
    let flat = VectorMemory::default();
    let managed = VectorMemory::default();
    vec![
        (flat.clone(), Storage::new((10_000, 3_784_873), StableMemory::Single(flat))),
        (managed.clone(), Storage::new((10_000, 3_784_873), StableMemory::Managed(managed))),
    ]
}

#[test]
fn should_frame_a_state_with_magic_and_length() {
    assert_eq!(frame_state(&[]), b"IIPS\0\0\0\0\0\0\0\0".to_vec());
    let framed = frame_state(&[9, 8, 7]);
    assert_eq!(&framed[..4], b"IIPS");
    assert_eq!(&framed[4..12], &[3, 0, 0, 0, 0, 0, 0, 0]);
    assert_eq!(&framed[12..], &[9, 8, 7]);
    let long = vec![5u8; 0x0102_03];
    let framed = frame_state(&long);
    assert_eq!(&framed[4..12], &[0x03, 0x02, 0x01, 0, 0, 0, 0, 0]);
    assert_eq!(framed.len(), long.len() + 12);
}

#[test]
fn should_read_previously_stored_persistent_state() {
    for (memory, mut storage) in stores_in_both_layouts() {
        for i in 0..3u64 {
            let anchor_number = storage.allocate_anchor().unwrap();
            storage.write(anchor_number, vec![i as u8 + 1; 100 + i as usize]).unwrap();
        }
        let state = sample_state();
        assert!(storage.persistent_state_fits(state.len()));
        storage.write_persistent_state(&state);

        let mut reopened = Storage::from_memory(memory).unwrap();
        assert_eq!(reopened.read_persistent_state().unwrap(), state);
        let decoded: (String, u64, Vec<u8>) =
            candid::decode_one(&reopened.read_persistent_state().unwrap()).unwrap();
        assert_eq!(decoded, ("archive".to_string(), 42, vec![1, 2, 3]));
        for i in 0..3u64 {
            assert_eq!(reopened.read(10_000 + i).unwrap(), vec![i as u8 + 1; 100 + i as usize]);
        }

        // the next anchor takes the place of the state
        assert_eq!(reopened.allocate_anchor(), Some(10_003));
        assert!(matches!(
            reopened.read_persistent_state(),
            Err(PersistentStateError::NotFound)
        ));
    }
}

#[test]
fn should_write_the_state_behind_the_last_allocated_record() {
    for (memory, mut storage) in stores_in_both_layouts() {
        storage.allocate_anchor().unwrap();
        storage.allocate_anchor().unwrap();
        storage.write(10_001, vec![0x77; 20]).unwrap();
        let before = memory.borrow().clone();
        storage.write_persistent_state(&[0xde, 0xad, 0xbe, 0xef, 0x01]);
        let bytes = memory.borrow();
        let at = RECORDS_START + 2 * 4096;
        assert_eq!(&bytes[at..at + 4], b"IIPS");
        assert_eq!(&bytes[at + 4..at + 12], &5u64.to_le_bytes());
        assert_eq!(&bytes[at + 12..at + 17], &[0xde, 0xad, 0xbe, 0xef, 0x01]);
        // header and records are as they were
        assert_eq!(bytes[..66], before[..66]);
        assert_eq!(bytes[RECORDS_START..at], before[RECORDS_START..at]);
        assert!(bytes[at + 17..].iter().all(|b| *b == 0));
    }
}

#[test]
fn should_not_find_persistent_state_in_a_new_store() {
    for (_, storage) in stores_in_both_layouts() {
        assert!(matches!(
            storage.read_persistent_state(),
            Err(PersistentStateError::NotFound)
        ));
    }
}

#[test]
fn should_not_find_persistent_state_behind_the_end_of_memory() {
    for (_, mut storage) in stores_in_both_layouts() {
        // 17 records end on the second page of the anchor memory, which has one page
        for _ in 0..17 {
            storage.allocate_anchor().unwrap();
        }
        storage.write(10_000, vec![1]).unwrap();
        assert!(matches!(
            storage.read_persistent_state(),
            Err(PersistentStateError::NotFound)
        ));
    }
}

#[test]
fn should_not_find_persistent_state_where_the_magic_ends_behind_the_memory() {
    let memory = VectorMemory::default();
    let mut storage = Storage::new((0, 100), StableMemory::Single(memory.clone()));
    for _ in 0..16 {
        storage.allocate_anchor().unwrap();
    }
    storage.write(15, vec![1]).unwrap();
    // the anchor memory has one page and the state would start at its very end
    assert_eq!(storage.unused_memory_start(), 65_536);
    assert_eq!(memory.borrow().len(), 3 * 65_536);
    assert!(matches!(storage.read_persistent_state(), Err(PersistentStateError::NotFound)));
}

#[test]
fn should_not_find_persistent_state_under_another_magic() {
    for (memory, mut storage) in stores_in_both_layouts() {
        storage.allocate_anchor().unwrap();
        storage.write_persistent_state(&sample_state());
        assert_eq!(storage.read_persistent_state().unwrap(), sample_state());
        memory.borrow_mut()[RECORDS_START + 4096 + 3] = b'X';
        assert!(matches!(
            storage.read_persistent_state(),
            Err(PersistentStateError::NotFound)
        ));
    }
}

#[test]
fn should_report_a_state_that_ends_behind_the_memory() {
    for (memory, mut storage) in stores_in_both_layouts() {
        storage.allocate_anchor().unwrap();
        storage.write_persistent_state(&sample_state());
        let at = RECORDS_START + 4096 + 4;
        // announce more bytes than the anchor memory has left
        memory.borrow_mut()[at..at + 8].copy_from_slice(&(65_536u64 - 4096 - 11).to_le_bytes());
        assert!(matches!(
            storage.read_persistent_state(),
            Err(PersistentStateError::ReadError(_))
        ));
        // as many as it has left can be read
        memory.borrow_mut()[at..at + 8].copy_from_slice(&(65_536u64 - 4096 - 12).to_le_bytes());
        assert_eq!(storage.read_persistent_state().unwrap().len(), 65_536 - 4096 - 12);
        // a length that no memory can hold
        memory.borrow_mut()[at..at + 8].copy_from_slice(&u64::MAX.to_le_bytes());
        assert!(matches!(
            storage.read_persistent_state(),
            Err(PersistentStateError::ReadError(_))
        ));
    }
}

#[test]
fn should_report_a_length_that_ends_behind_the_memory() {
    let memory = VectorMemory::default();
    let mut storage = Storage::new((0, 100), StableMemory::Single(memory.clone()));
    for _ in 0..16 {
        storage.allocate_anchor().unwrap();
    }
    // a state right at the end of the second page of the anchor memory
    storage.write_persistent_state(&[1, 2, 3]);
    assert_eq!(storage.read_persistent_state().unwrap(), vec![1, 2, 3]);
    // cut the memory behind the magic, in the middle of the page
    memory.borrow_mut().truncate(3 * 65_536 + 6);
    // the anchor memory is one page again, and the magic lay behind it
    assert!(matches!(storage.read_persistent_state(), Err(PersistentStateError::NotFound)));
}

#[test]
fn should_overwrite_persistent_state_with_next_anchor() {
    for (_, mut storage) in stores_in_both_layouts() {
        storage.allocate_anchor().unwrap();
        storage.write_persistent_state(&sample_state());
        assert_eq!(storage.read_persistent_state().unwrap(), sample_state());
        let anchor_number = storage.allocate_anchor().unwrap();
        storage.write(anchor_number, vec![3; 500]).unwrap();
        assert!(matches!(
            storage.read_persistent_state(),
            Err(PersistentStateError::NotFound)
        ));
        assert_eq!(storage.read(anchor_number).unwrap(), vec![3; 500]);
    }
}

#[test]
fn should_replace_a_state_by_the_next_one() {
    for (_, mut storage) in stores_in_both_layouts() {
        storage.write_persistent_state(&vec![1u8; 5000]);
        storage.write_persistent_state(&[2, 2]);
        assert_eq!(storage.read_persistent_state().unwrap(), vec![2, 2]);
        storage.write_persistent_state(&[]);
        assert_eq!(storage.read_persistent_state().unwrap(), Vec::<u8>::new());
    }
}

#[test]
fn should_hold_a_state_larger_than_a_record() {
    for (memory, mut storage) in stores_in_both_layouts() {
        storage.allocate_anchor().unwrap();
        storage.write(10_000, vec![8; 64]).unwrap();
        let state: Vec<u8> = (0..200_000u32).map(|i| (i % 253) as u8).collect();
        storage.write_persistent_state(&state);
        assert_eq!(storage.read_persistent_state().unwrap(), state);
        assert_eq!(storage.read(10_000).unwrap(), vec![8; 64]);
        let reopened = Storage::from_memory(memory).unwrap();
        assert_eq!(reopened.read_persistent_state().unwrap(), state);
    }
}

#[test]
fn should_know_how_large_a_state_fits() {
    let flat = Storage::new((0, 10), StableMemory::Single(VectorMemory::default()));
    // 524286 pages of records, less the twelve bytes in front of the state
    assert!(flat.persistent_state_fits(34_359_607_296 - 12));
    assert!(!flat.persistent_state_fits(34_359_607_296 - 11));
    let mut managed = Storage::new((0, 10), StableMemory::Managed(VectorMemory::default()));
    // 4095 buckets of 128 pages
    assert!(managed.persistent_state_fits(34_351_349_760 - 12));
    assert!(!managed.persistent_state_fits(34_351_349_760 - 11));
    managed.allocate_anchor().unwrap();
    assert!(managed.persistent_state_fits(34_351_349_760 - 4096 - 12));
    assert!(!managed.persistent_state_fits(34_351_349_760 - 4096 - 11));
}
