use scotch::allocator::WasmAllocator;
use scotch::allocator::WasmAllocatorOptions;
use scotch::guest::encoded::EncodedPtr;
use scotch::guest::managed::ManagedPtr;
use scotch::guest::scotch_alloc;
use scotch::guest::scotch_free;
use scotch::guest::GuestError;

fn guest() -> (Vec<u8>, WasmAllocator) {
    let allocator = WasmAllocator::with_previous_pages(1, WasmAllocatorOptions::default());
    (vec![0u8; 2 * 65536], allocator)
}

#[test]
fn new_record_lies_in_the_first_free_block() {
    let (mut memory, mut allocator) = guest();
    let pointer = ManagedPtr::new(b"Some text", &mut memory, &mut allocator).unwrap();
    assert_eq!(pointer.offset(), 65536);
    assert_eq!(pointer.size, 9);
    assert_eq!(&memory[65536..65536 + 11], b"\x09\x00Some text");
    assert_eq!(allocator.occupied_bytes(), 512);
}

#[test]
fn record_is_read_back_by_both_descriptors() {
    let (mut memory, mut allocator) = guest();
    ManagedPtr::new(b"first", &mut memory, &mut allocator).unwrap();
    let pointer = ManagedPtr::new(b"second", &mut memory, &mut allocator).unwrap();
    assert_eq!(pointer.offset(), 65536 + 512);
    assert_eq!(pointer.read(&memory), Some(b"second".to_vec()));
    assert_eq!(EncodedPtr::new(pointer.offset()).read(&memory), Some(b"second".to_vec()));
    assert_eq!(EncodedPtr::new(65536).read(&memory), Some(b"first".to_vec()));
}

#[test]
fn descriptor_by_address_takes_the_size_from_the_prefix() {
    let (mut memory, mut allocator) = guest();
    let made = ManagedPtr::new(&[7u8; 300], &mut memory, &mut allocator).unwrap();
    let found = ManagedPtr::with_size_by_address(&memory, made.offset()).unwrap();
    assert_eq!(found.offset, made.offset);
    assert_eq!(found.size, 300);
    assert_eq!(found.read(&memory), Some(vec![7u8; 300]));
    assert!(ManagedPtr::with_size_by_address(&memory, 2 * 65536 - 1).is_none());
    assert!(ManagedPtr::with_size_by_address(&memory, 2 * 65536 - 2).is_some());
    assert!(ManagedPtr::with_size_by_address(&[], 0).is_none());
}

#[test]
fn free_gives_the_block_back() {
    let (mut memory, mut allocator) = guest();
    let before = allocator.occupied_bytes();
    let pointer = ManagedPtr::new(&[1u8; 1000], &mut memory, &mut allocator).unwrap();
    assert_eq!(allocator.occupied_bytes(), before + 1024);
    pointer.free(&mut allocator);
    assert_eq!(allocator.occupied_bytes(), before);
    assert!(allocator.is_vacant());
}

#[test]
fn payload_longer_than_a_record_is_refused() {
    let (mut memory, mut allocator) = guest();
    let made = ManagedPtr::new(&vec![0u8; 65536], &mut memory, &mut allocator);
    assert_eq!(made.unwrap_err(), GuestError::EncodingFailed);
    assert!(allocator.is_vacant());
}

#[test]
fn record_larger_than_the_slab_is_out_of_memory() {
    let (mut memory, mut allocator) = guest();
    let made = ManagedPtr::new(&vec![0u8; 65535], &mut memory, &mut allocator);
    assert_eq!(made.unwrap_err(), GuestError::OutOfMemory);
    assert!(allocator.is_vacant());
    let next = ManagedPtr::new(&vec![0u8; 65534], &mut memory, &mut allocator).unwrap();
    assert_eq!(next.offset(), 65536);
    assert_eq!(allocator.occupied_bytes(), 65536);
}

#[test]
fn block_outside_the_memory_is_given_back() {
    let mut allocator = WasmAllocator::with_previous_pages(1, WasmAllocatorOptions::default());
    let mut memory = vec![3u8; 65536 + 5];
    let made = ManagedPtr::new(b"four", &mut memory, &mut allocator);
    assert_eq!(made.unwrap_err(), GuestError::OutOfBounds);
    assert!(allocator.is_vacant());
    assert_eq!(memory, vec![3u8; 65536 + 5]);
    let fits = ManagedPtr::new(b"abc", &mut memory, &mut allocator).unwrap();
    assert_eq!(fits.read(&memory), Some(b"abc".to_vec()));
}

#[test]
fn missing_record_is_not_read() {
    let memory = vec![0xFFu8; 100];
    assert_eq!(EncodedPtr::new(0).read(&memory), None);
    assert_eq!(EncodedPtr::new(99).read(&memory), None);
    assert_eq!(ManagedPtr { offset: 200, size: 0 }.read(&memory), None);
}

#[test]
fn allocator_export_answers_zero_when_nothing_is_left() {
    let (_, mut allocator) = guest();
    let first = scotch_alloc(&mut allocator, 100, 1);
    assert_eq!(first, 65536);
    let second = scotch_alloc(&mut allocator, 1024, 8);
    assert_eq!(second, 65536 + 1024);
    assert_eq!(scotch_alloc(&mut allocator, 65536, 1), 0);
    assert_eq!(scotch_alloc(&mut allocator, 70000, 1), 0);
    assert_eq!(allocator.occupied_bytes(), 512 + 1024);
    scotch_free(&mut allocator, first, 100, 1);
    scotch_free(&mut allocator, second, 1024, 8);
    assert!(allocator.is_vacant());
    assert_eq!(scotch_alloc(&mut allocator, 65536, 1), 65536);
}

#[test]
fn allocator_export_ignores_a_free_of_nothing() {
    let (_, mut allocator) = guest();
    let block = scotch_alloc(&mut allocator, 100, 1);
    scotch_free(&mut allocator, 0, 100, 1);
    scotch_free(&mut allocator, block + 4, 100, 1);
    assert_eq!(allocator.occupied_bytes(), 512);
    scotch_free(&mut allocator, block, 100, 1);
    assert!(allocator.is_vacant());
}

#[test]
fn block_at_address_zero_is_not_handed_out() {
    let mut allocator = WasmAllocator::with_previous_pages(0, WasmAllocatorOptions::default());
    assert_eq!(scotch_alloc(&mut allocator, 10, 1), 0);
    assert!(allocator.is_vacant());
    assert_eq!(allocator.allocate(10), Some(0));
    assert_eq!(scotch_alloc(&mut allocator, 10, 1), 512);
}

#[test]
fn no_record_is_made_at_address_zero() {
    let mut allocator = WasmAllocator::with_previous_pages(0, WasmAllocatorOptions::default());
    let mut memory = vec![0u8; 65536];
    let made = ManagedPtr::new(b"abc", &mut memory, &mut allocator);
    assert_eq!(made.unwrap_err(), GuestError::OutOfMemory);
    assert!(allocator.is_vacant());
    assert_eq!(memory, vec![0u8; 65536]);
    assert_eq!(allocator.allocate(1), Some(0));
    let next = ManagedPtr::new(b"abc", &mut memory, &mut allocator).unwrap();
    assert_eq!(next.offset(), 512);
    assert_eq!(next.read(&memory), Some(b"abc".to_vec()));
}
