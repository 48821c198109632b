use wasm_bridge::memory::{
    allocate, validate_pointer, wasm_allocate, wasm_deallocate, GuestBuffer, GuestInstance,
    MemoryAreasReturnCode,
};

#[test]
fn deallocate_succeeds_exactly_once() {
    let mut guest = GuestInstance::new();
    let handle = wasm_allocate(&mut guest, 16);
    assert_ne!(handle, 0);
    assert_eq!(validate_pointer(&guest, handle), 16);
    assert_eq!(wasm_deallocate(&mut guest, handle), 0);
    assert_eq!(wasm_deallocate(&mut guest, handle), -1);
    assert_eq!(validate_pointer(&guest, handle), 0);
}

#[test]
fn return_codes_are_zero_and_minus_one() {
    assert_eq!(MemoryAreasReturnCode::Success.code(), 0);
    assert_eq!(MemoryAreasReturnCode::ErrorMemoryNotAllocated.code(), -1);
}

#[test]
fn validate_is_zero_for_a_handle_never_returned() {
    let mut guest = GuestInstance::new();
    assert_eq!(validate_pointer(&guest, 0), 0);
    assert_eq!(validate_pointer(&guest, 1), 0);
    assert_eq!(validate_pointer(&guest, u32::MAX), 0);
    let handle = wasm_allocate(&mut guest, 8);
    assert_eq!(validate_pointer(&guest, handle), 8);
    for inside in 1..8 {
        assert_eq!(validate_pointer(&guest, handle + inside), 0);
    }
    assert_eq!(validate_pointer(&guest, handle - 1), 0);
    assert_eq!(validate_pointer(&guest, handle + 8), 0);
}

#[test]
fn first_handle_of_a_fresh_instance_is_one() {
    let mut guest = GuestInstance::new();
    assert_eq!(guest.memory_size(), 1);
    assert_eq!(wasm_allocate(&mut guest, 4), 1);
    assert_eq!(guest.memory_size(), 5);
    assert_eq!(wasm_allocate(&mut guest, 3), 5);
    assert_eq!(guest.memory_size(), 8);
}

#[test]
fn allocated_bytes_are_zeroed() {
    let mut guest = GuestInstance::new();
    let handle = wasm_allocate(&mut guest, 5);
    assert_eq!(guest.read(handle, 5), Some(vec![0u8; 5]));
}

#[test]
fn allocate_keeps_the_bytes_of_the_box() {
    let mut guest = GuestInstance::new();
    let handle = allocate(&mut guest, 3, vec![7, 8, 9]);
    assert_ne!(handle, 0);
    assert_eq!(validate_pointer(&guest, handle), 3);
    assert_eq!(guest.read(handle, 3), Some(vec![7, 8, 9]));
    assert_eq!(guest.buffer(handle), Some(GuestBuffer { handle, size: 3 }));
    assert_eq!(guest.buffer(handle + 1), None);
}

#[test]
fn empty_buffers_get_handles_of_their_own() {
    let mut guest = GuestInstance::new();
    let first = wasm_allocate(&mut guest, 0);
    let second = wasm_allocate(&mut guest, 0);
    assert_ne!(first, 0);
    assert_ne!(second, 0);
    assert_ne!(first, second);
    assert_eq!(validate_pointer(&guest, first), 0);
    assert_eq!(guest.buffer(first), Some(GuestBuffer { handle: first, size: 0 }));
    assert_eq!(wasm_deallocate(&mut guest, first), 0);
    assert_eq!(wasm_deallocate(&mut guest, first), -1);
    assert_eq!(wasm_deallocate(&mut guest, second), 0);
}

#[test]
fn allocation_beyond_the_limit_returns_zero() {
    let mut guest = GuestInstance::with_memory_limit(10);
    assert!(guest.fits(9));
    assert!(!guest.fits(10));
    assert!(guest.fits_both(4, 5));
    assert!(!guest.fits_both(5, 5));
    assert_eq!(wasm_allocate(&mut guest, 10), 0);
    assert_eq!(guest.memory_size(), 1);
    let handle = wasm_allocate(&mut guest, 9);
    assert_eq!(handle, 1);
    assert_eq!(wasm_allocate(&mut guest, 1), 0);
    assert_eq!(wasm_allocate(&mut guest, 0), 0);
    assert_eq!(wasm_deallocate(&mut guest, handle), 0);
}

#[test]
fn an_instance_without_room_allocates_nothing() {
    let mut guest = GuestInstance::with_memory_limit(0);
    assert_eq!(wasm_allocate(&mut guest, 0), 0);
    assert_eq!(wasm_allocate(&mut guest, 1), 0);
}

#[test]
fn memory_is_handed_out_again_once_nothing_is_live() {
    let mut guest = GuestInstance::with_memory_limit(9);
    for _ in 0..100 {
        let handle = wasm_allocate(&mut guest, 8);
        assert_eq!(handle, 1);
        assert_eq!(guest.memory_size(), 9);
        assert_eq!(wasm_deallocate(&mut guest, handle), 0);
        assert_eq!(guest.memory_size(), 1);
        assert_eq!(wasm_deallocate(&mut guest, handle), -1);
    }
}

#[test]
fn memory_stays_while_a_buffer_is_live() {
    let mut guest = GuestInstance::new();
    let first = wasm_allocate(&mut guest, 4);
    let second = wasm_allocate(&mut guest, 4);
    assert!(guest.write(second, &[1, 2, 3, 4]));
    assert_eq!(wasm_deallocate(&mut guest, first), 0);
    assert_eq!(guest.memory_size(), 9);
    assert_eq!(guest.read(second, 4), Some(vec![1, 2, 3, 4]));
    let third = wasm_allocate(&mut guest, 4);
    assert_eq!(third, 9);
    assert_eq!(wasm_deallocate(&mut guest, first), -1);
    assert_eq!(wasm_deallocate(&mut guest, second), 0);
    assert_eq!(wasm_deallocate(&mut guest, third), 0);
    assert_eq!(guest.memory_size(), 1);
}

#[test]
fn write_then_read_gives_the_bytes_back() {
    let mut guest = GuestInstance::new();
    let handle = wasm_allocate(&mut guest, 6);
    assert!(guest.write(handle + 1, &[1, 2, 3]));
    assert_eq!(guest.read(handle, 6), Some(vec![0, 1, 2, 3, 0, 0]));
    assert_eq!(guest.read(handle + 2, 2), Some(vec![2, 3]));
    assert_eq!(guest.read(handle, 0), Some(Vec::new()));
}

#[test]
fn access_outside_linear_memory_is_refused() {
    let mut guest = GuestInstance::new();
    let handle = wasm_allocate(&mut guest, 4);
    let end = guest.memory_size();
    assert_eq!(end, handle + 4);
    assert_eq!(guest.read(handle, 5), None);
    assert_eq!(guest.read(end, 1), None);
    assert_eq!(guest.read(end, 0), Some(Vec::new()));
    assert_eq!(guest.read(end + 1, 0), None);
    assert_eq!(guest.read(u32::MAX, u32::MAX), None);
    assert!(!guest.write(handle + 2, &[1, 2, 3]));
    assert_eq!(guest.read(handle, 4), Some(vec![0u8; 4]));
    assert!(guest.write(end, &[]));
}
