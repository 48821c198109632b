use wasm_bridge::greeter::{
    answer, format_hello_world, greet_bytes, wasm_memory_c_format_hello_world,
    wasm_memory_rust_format_hello_world,
};
use wasm_bridge::memory::{validate_pointer, wasm_allocate, wasm_deallocate, GuestInstance};
use wasm_bridge::wire::{
    decode_nul_terminated, encode_nul_terminated, find_nul, pack_metadata, unpack_metadata,
};

fn store(guest: &mut GuestInstance, bytes: &[u8]) -> u32 {
    let handle = wasm_allocate(guest, bytes.len() as u32);
    assert_ne!(handle, 0);
    assert!(guest.write(handle, bytes));
    handle
}

#[test]
fn answer_is_forty_two() {
    assert_eq!(answer(), 42);
}

#[test]
fn greeting_has_the_documented_form() {
    assert_eq!(format_hello_world("Rust"), "Hello World, Rust!");
    assert_eq!(format_hello_world(""), "Hello World, !");
    assert_eq!(format_hello_world("Zoë"), "Hello World, Zoë!");
}

#[test]
fn greet_bytes_rejects_what_is_not_utf8() {
    assert_eq!(greet_bytes(b"Rust".to_vec()), Some(b"Hello World, Rust!".to_vec()));
    assert_eq!(greet_bytes(Vec::new()), Some(b"Hello World, !".to_vec()));
    assert_eq!(greet_bytes(vec![0xff, 0xfe]), None);
    assert_eq!(greet_bytes(vec![0xc3]), None);
}

#[test]
fn nul_terminated_text_is_framed_and_unframed() {
    assert_eq!(encode_nul_terminated(b"abc"), vec![b'a', b'b', b'c', 0]);
    assert_eq!(encode_nul_terminated(b""), vec![0]);
    assert_eq!(decode_nul_terminated(b"abc\0"), Some(b"abc".to_vec()));
    assert_eq!(decode_nul_terminated(b"\0"), Some(Vec::new()));
    assert_eq!(decode_nul_terminated(b"abc"), None);
    assert_eq!(decode_nul_terminated(b"a\0c\0"), None);
    assert_eq!(decode_nul_terminated(b""), None);
    assert_eq!(find_nul(b"ab\0d\0"), Some(2));
    assert_eq!(find_nul(b"abcd"), None);
}

#[test]
fn packed_pair_is_two_little_endian_words() {
    assert_eq!(pack_metadata(0x0403_0201, 0x0807_0605), vec![1, 2, 3, 4, 5, 6, 7, 8]);
    assert_eq!(unpack_metadata(&[1, 2, 3, 4, 5, 6, 7, 8]), Some((0x0403_0201, 0x0807_0605)));
    assert_eq!(unpack_metadata(&pack_metadata(u32::MAX, 0)), Some((u32::MAX, 0)));
    assert_eq!(unpack_metadata(&[1, 2, 3, 4, 5, 6, 7]), None);
    assert_eq!(unpack_metadata(&[1, 2, 3, 4, 5, 6, 7, 8, 9]), None);
    assert_eq!(unpack_metadata(&[]), None);
}

#[test]
fn c_greeter_scenario() {
    let mut guest = GuestInstance::new();
    let name = store(&mut guest, b"Rust (C ABI)\0");
    let reply = wasm_memory_c_format_hello_world(&mut guest, name);
    assert_ne!(reply, 0);
    let expected = b"Hello World, Rust (C ABI)!\0";
    assert_eq!(validate_pointer(&guest, reply), expected.len());
    assert_eq!(guest.read(reply, expected.len() as u32), Some(expected.to_vec()));
    assert_eq!(wasm_deallocate(&mut guest, name), 0);
    assert_eq!(wasm_deallocate(&mut guest, reply), 0);
}

#[test]
fn c_greeter_rejects_a_handle_that_is_not_live() {
    let mut guest = GuestInstance::new();
    let name = store(&mut guest, b"Rust\0");
    let before = guest.memory_size();
    assert_eq!(wasm_memory_c_format_hello_world(&mut guest, 0), 0);
    assert_eq!(wasm_memory_c_format_hello_world(&mut guest, name + 1), 0);
    assert_eq!(guest.memory_size(), before);
    assert_eq!(wasm_deallocate(&mut guest, name), 0);
    let after = guest.memory_size();
    assert_eq!(wasm_memory_c_format_hello_world(&mut guest, name), 0);
    assert_eq!(guest.memory_size(), after);
}

#[test]
fn c_greeter_rejects_text_that_does_not_fill_its_buffer() {
    let mut guest = GuestInstance::new();
    let unterminated = store(&mut guest, b"Rust");
    let early = store(&mut guest, b"Ru\0t\0");
    let empty = wasm_allocate(&mut guest, 0);
    let before = guest.memory_size();
    assert_eq!(wasm_memory_c_format_hello_world(&mut guest, unterminated), 0);
    assert_eq!(wasm_memory_c_format_hello_world(&mut guest, early), 0);
    assert_eq!(wasm_memory_c_format_hello_world(&mut guest, empty), 0);
    assert_eq!(guest.memory_size(), before);
}

#[test]
fn c_greeter_rejects_what_is_not_utf8() {
    let mut guest = GuestInstance::new();
    let name = store(&mut guest, &[0xff, 0xfe, 0]);
    assert_eq!(wasm_memory_c_format_hello_world(&mut guest, name), 0);
}

#[test]
fn c_greeter_answers_zero_without_room() {
    let mut guest = GuestInstance::with_memory_limit(1 + 5 + 18);
    let name = store(&mut guest, b"Rust\0");
    assert_eq!(wasm_memory_c_format_hello_world(&mut guest, name), 0);
    let mut guest = GuestInstance::with_memory_limit(1 + 5 + 19);
    let name = store(&mut guest, b"Rust\0");
    assert_eq!(wasm_memory_c_format_hello_world(&mut guest, name), 6);
}

#[test]
fn rust_greeter_scenario() {
    let mut guest = GuestInstance::new();
    let text = b"Rust (Rust ABI)";
    let name = store(&mut guest, text);
    let reply = wasm_memory_rust_format_hello_world(&mut guest, name, text.len() as u32);
    assert_ne!(reply, 0);
    assert_eq!(validate_pointer(&guest, reply), 8);
    let metadata = guest.read(reply, 8).expect("in bounds");
    let (ptr, len) = unpack_metadata(&metadata).expect("a packed pair");
    let expected = b"Hello World, Rust (Rust ABI)!";
    assert_eq!(len as usize, expected.len());
    assert_eq!(validate_pointer(&guest, ptr), expected.len());
    assert_eq!(guest.read(ptr, len), Some(expected.to_vec()));
    assert_eq!(wasm_deallocate(&mut guest, name), 0);
    assert_eq!(wasm_deallocate(&mut guest, reply), 0);
    assert_eq!(wasm_deallocate(&mut guest, ptr), 0);
}

#[test]
fn rust_greeter_takes_the_empty_name() {
    let mut guest = GuestInstance::new();
    let name = wasm_allocate(&mut guest, 0);
    let reply = wasm_memory_rust_format_hello_world(&mut guest, name, 0);
    assert_ne!(reply, 0);
    let metadata = guest.read(reply, 8).expect("in bounds");
    let (ptr, len) = unpack_metadata(&metadata).expect("a packed pair");
    assert_eq!(guest.read(ptr, len), Some(b"Hello World, !".to_vec()));
}

#[test]
fn rust_greeter_rejects_a_wrong_declared_length() {
    let mut guest = GuestInstance::new();
    let name = store(&mut guest, b"Rust");
    let before = guest.memory_size();
    assert_eq!(wasm_memory_rust_format_hello_world(&mut guest, name, 3), 0);
    assert_eq!(wasm_memory_rust_format_hello_world(&mut guest, name, 5), 0);
    assert_eq!(wasm_memory_rust_format_hello_world(&mut guest, name, 0), 0);
    assert_eq!(wasm_memory_rust_format_hello_world(&mut guest, name + 1, 3), 0);
    assert_eq!(wasm_memory_rust_format_hello_world(&mut guest, 0, 0), 0);
    assert_eq!(guest.memory_size(), before);
    assert_ne!(wasm_memory_rust_format_hello_world(&mut guest, name, 4), 0);
}

#[test]
fn rust_greeter_rejects_what_is_not_utf8() {
    let mut guest = GuestInstance::new();
    let name = store(&mut guest, &[0xe2, 0x82]);
    assert_eq!(wasm_memory_rust_format_hello_world(&mut guest, name, 2), 0);
}

#[test]
fn rust_greeter_publishes_both_buffers_or_none() {
    let mut guest = GuestInstance::with_memory_limit(1 + 4 + 18 + 7);
    let name = store(&mut guest, b"Rust");
    let before = guest.memory_size();
    assert_eq!(wasm_memory_rust_format_hello_world(&mut guest, name, 4), 0);
    assert_eq!(guest.memory_size(), before);
    let mut guest = GuestInstance::with_memory_limit(1 + 4 + 18 + 8);
    let name = store(&mut guest, b"Rust");
    assert_eq!(wasm_memory_rust_format_hello_world(&mut guest, name, 4), 1 + 4 + 18);
}
