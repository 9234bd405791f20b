//! The bytes of the memory after each operation, held against a plain
//! description of what the operation writes.

use anchor_storage::mm::{bucket_table, Header};
use anchor_storage::persistent::frame_state;
use anchor_storage::records::frame_record;
use anchor_storage::{StableMemory, Storage};
use ic_stable_structures::VectorMemory;

const PAGE: usize = 65_536;
const RECORDS: usize = 2 * PAGE;
const BUCKET: usize = 128;

/// The memory after `data` was put at `address`, with whole zeroed pages
/// added where it ended before the end of `data`.
fn put(bytes: &[u8], address: usize, data: &[u8]) -> Vec<u8> {
    let mut after = bytes.to_vec();
    if data.is_empty() {
        return after;
    }
    let end = address + data.len();
    if end > after.len() / PAGE * PAGE {
        after.resize(end.div_ceil(PAGE) * PAGE, 0);
    }
    after[address..end].copy_from_slice(data);
    after
}

fn tenant_pages(bytes: &[u8]) -> usize {
    u64::from_le_bytes(bytes[PAGE + 40..PAGE + 48].try_into().unwrap()) as usize
}

/// The memory after a manager was set up on it, unless one was there.
fn set_up(bytes: &[u8]) -> Vec<u8> {
    if bytes.len() / PAGE > 1 && &bytes[PAGE..PAGE + 3] == b"MGR" {
        return bytes.to_vec();
    }
    let with_header = put(bytes, PAGE, &Header::for_tenant(0, 128, 0, 0).to_bytes());
    put(&with_header, PAGE + 2080, &bucket_table(0, 0))
}

/// The memory after `data` was put at `address` of the records of a
/// managed store.
fn put_managed(bytes: &[u8], address: usize, data: &[u8]) -> Vec<u8> {
    let mut after = bytes.to_vec();
    let old_pages = tenant_pages(bytes);
    let end = address + data.len();
    if end > old_pages * PAGE {
        let pages = end.div_ceil(PAGE);
        let buckets = pages.div_ceil(BUCKET);
        let reach = 2 + buckets * BUCKET;
        if reach > after.len() / PAGE {
            after.resize(reach * PAGE, 0);
        }
        after[PAGE..PAGE + 3].copy_from_slice(b"MGR");
        after[PAGE + 3] = 1;
        after[PAGE + 4..PAGE + 6].copy_from_slice(&(buckets as u16).to_le_bytes());
        after[PAGE + 6..PAGE + 8].copy_from_slice(&128u16.to_le_bytes());
        after[PAGE + 8..PAGE + 40].fill(0);
        after[PAGE + 40..PAGE + 48].copy_from_slice(&(pages as u64).to_le_bytes());
        after[PAGE + 2080..PAGE + 2080 + buckets].fill(0);
    }
    after[RECORDS + address..RECORDS + end].copy_from_slice(data);
    after
}

fn put_records(version: u8, bytes: &[u8], address: usize, data: &[u8]) -> Vec<u8> {
    if version == 7 {
        put_managed(bytes, address, data)
    } else {
        put(bytes, RECORDS + address, data)
    }
}

fn header_bytes(version: u8, num_anchors: u32, range: (u64, u64), salt: [u8; 32]) -> Vec<u8> {
    let mut bytes = Vec::new();
    bytes.extend_from_slice(b"IIC");
    bytes.push(version);
    bytes.extend_from_slice(&num_anchors.to_le_bytes());
    bytes.extend_from_slice(&range.0.to_le_bytes());
    bytes.extend_from_slice(&range.1.to_le_bytes());
    bytes.extend_from_slice(&4096u16.to_le_bytes());
    bytes.extend_from_slice(&salt);
    bytes.extend_from_slice(&131_072u64.to_le_bytes());
    bytes
}

/// A source of numbers that gives the same ones every time.
struct Numbers(u64);

impl Numbers {
    fn next(&mut self, below: u64) -> u64 {
        self.0 = self.0.wrapping_mul(6_364_136_223_846_793_005).wrapping_add(1_442_695_040_888_963_407);
        (self.0 >> 33) % below
    }
}

fn follow_a_store(version: u8, seed: u64, initial: Vec<u8>) {
    let memory = VectorMemory::default();
    *memory.borrow_mut() = initial.clone();
    let range = (1000u64, 9000u64);
    let stable = if version == 7 {
        StableMemory::Managed(memory.clone())
    } else {
        StableMemory::Single(memory.clone())
    };
    let mut storage = Storage::new(range, stable);
    let mut expected = if version == 7 { set_up(&initial) } else { initial };
    let mut num_anchors = 0u32;
    let mut salt = [0u8; 32];
    let mut range = range;
    expected = put(&expected, 0, &header_bytes(version, 0, range, salt));
    assert_eq!(*memory.borrow(), expected);

    let mut numbers = Numbers(seed);
    for step in 0..300 {
        match numbers.next(10) {
            0..=2 => {
                let allocated = storage.allocate_anchor();
                assert_eq!(allocated, Some(range.0 + num_anchors as u64));
                num_anchors += 1;
                expected = put(&expected, 0, &header_bytes(version, num_anchors, range, salt));
            }
            3..=6 if num_anchors > 0 => {
                // now and then far ahead, so that the memory has to grow by many pages
                let record = if numbers.next(4) == 0 {
                    num_anchors as u64 - 1
                } else {
                    numbers.next(num_anchors as u64)
                };
                let len = match numbers.next(4) {
                    0 => 0,
                    1 => 4094,
                    _ => numbers.next(4095),
                } as usize;
                let payload: Vec<u8> = (0..len).map(|i| (i + step) as u8).collect();
                storage.write(range.0 + record, payload.clone()).unwrap();
                expected = put_records(
                    version,
                    &expected,
                    record as usize * 4096,
                    &frame_record(&payload),
                );
                assert_eq!(storage.read(range.0 + record).unwrap(), payload);
            }
            7 => {
                let len = numbers.next(3 * PAGE as u64) as usize;
                let state: Vec<u8> = (0..len).map(|i| (i * 7 + step) as u8).collect();
                storage.write_persistent_state(&state);
                expected = put_records(
                    version,
                    &expected,
                    num_anchors as usize * 4096,
                    &frame_state(&state),
                );
                assert_eq!(storage.read_persistent_state().unwrap(), state);
            }
            8 if salt == [0u8; 32] => {
                salt = core::array::from_fn(|i| (i + step) as u8 | 1);
                storage.update_salt(salt);
                expected = put(&expected, 0, &header_bytes(version, num_anchors, range, salt));
            }
            9 => {
                range.1 = range.0 + num_anchors as u64 + numbers.next(5000);
                storage.set_anchor_number_range(range);
                expected = put(&expected, 0, &header_bytes(version, num_anchors, range, salt));
                if range.1 == range.0 + num_anchors as u64 {
                    assert_eq!(storage.allocate_anchor(), None);
                    range.1 += 4000;
                    storage.set_anchor_number_range(range);
                    expected = put(&expected, 0, &header_bytes(version, num_anchors, range, salt));
                }
            }
            _ => {
                let before = memory.borrow().clone();
                drop(Storage::from_memory(memory.clone()).unwrap());
                assert_eq!(*memory.borrow(), before);
            }
        }
        assert!(*memory.borrow() == expected, "memory differs after step {step}");
    }
}

#[test]
fn should_write_what_the_flat_layout_says() {
    for seed in 1..6 {
        follow_a_store(6, seed, Vec::new());
    }
}

#[test]
fn should_write_what_the_managed_layout_says() {
    for seed in 1..6 {
        follow_a_store(7, seed, Vec::new());
    }
}

#[test]
fn should_write_what_the_layouts_say_onto_memory_that_holds_bytes() {
    let mut numbers = Numbers(99);
    for (pages, tail) in [(1usize, 0usize), (1, 700), (2, 0), (3, 12), (5, 0), (130, 1)] {
        let initial: Vec<u8> = (0..pages * PAGE + tail).map(|_| numbers.next(256) as u8).collect();
        let mut initial_without_manager = initial.clone();
        if initial_without_manager.len() > PAGE + 3 {
            // no manager's magic by chance
            initial_without_manager[PAGE] = 0;
        }
        follow_a_store(6, 7, initial);
        follow_a_store(7, 8, initial_without_manager);
    }
}

#[test]
fn should_migrate_to_what_the_managed_layout_says() {
    for anchors in [0u64, 1, 15, 16, 17, 600, 2047, 2048, 2049] {
        let memory = VectorMemory::default();
        let mut flat = Storage::new((0, 5000), StableMemory::Single(memory.clone()));
        for i in 0..anchors {
            flat.allocate_anchor().unwrap();
            if i % 97 == 0 || i + 1 == anchors {
                flat.write(i, vec![i as u8; (i % 4095) as usize]).unwrap();
            }
        }
        let before = memory.borrow().clone();
        let pages = (before.len() / PAGE).saturating_sub(2);
        let buckets = pages.div_ceil(BUCKET);

        let mut grown = before.clone();
        if before.len() / PAGE < 2 + buckets * BUCKET {
            grown.resize((2 + buckets * BUCKET) * PAGE, 0);
        }
        let with_header =
            put(&grown, PAGE, &Header::for_tenant(buckets as u16, 128, 0, pages as u64).to_bytes());
        let with_owners = put(&with_header, PAGE + 2080, &bucket_table(buckets as u16, 0));
        let mut header = before[..66].to_vec();
        header[3] = 7;
        let expected = put(&with_owners, 0, &header);

        let migrated = Storage::from_memory_v6_to_v7(memory.clone()).unwrap();
        assert!(*memory.borrow() == expected, "memory differs for {anchors} anchors");
        assert_eq!(migrated.anchor_count() as u64, anchors);
        assert_eq!(tenant_pages(&memory.borrow()), pages);
    }
}
