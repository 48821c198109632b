//! The greeting module of the guest: a scalar export and the two text
//! adapters, one for nul-terminated text and one for text of declared length.
use crate::adapter::{after_reply, declared_payload, fetch_declared, publish};
use crate::memory::{allocate, validate_pointer, GuestInstance, GuestState};
use crate::text::{lemma_decode_is_inverse, string_from_utf8};
use crate::wire::{c_string, decode_nul_terminated, is_c_string};
use vstd::prelude::*;
use vstd::string::{StrSliceExecFns, StringExecFns};
use vstd::utf8::{decode_utf8, encode_utf8, valid_utf8};

verus! {

/// The greeting for `name`.
pub open spec fn greeting(name: Seq<char>) -> Seq<char> {
    "Hello World, "@ + name + "!"@
}

/// The bytes of the greeting for the name that `name` encodes.
pub open spec fn greeting_bytes(name: Seq<u8>) -> Seq<u8>
    recommends
        valid_utf8(name),
{
    encode_utf8(greeting(decode_utf8(name)))
}

/// What the nul-terminated adapter answers for `handle`: the nul-terminated
/// greeting, provided that `handle` is live and holds nul-terminated UTF-8
/// text that fills the buffer.
pub open spec fn c_greeting_reply(guest: GuestState, handle: u32) -> Option<Seq<u8>> {
    let bytes = guest.contents(handle);
    if guest.is_live(handle) && is_c_string(bytes) && valid_utf8(bytes.drop_last()) {
        Some(c_string(greeting_bytes(bytes.drop_last())))
    } else {
        None
    }
}

/// What the length-prefixed adapter answers for `offset` and `length`: the
/// greeting, provided that `offset` is live, that its recorded size is
/// `length`, and that it holds UTF-8 text.
pub open spec fn rust_greeting_reply(guest: GuestState, offset: u32, length: u32) -> Option<
    Seq<u8>,
> {
    match declared_payload(guest, offset, length) {
        Some(bytes) => if valid_utf8(bytes) {
            Some(greeting_bytes(bytes))
        } else {
            None
        },
        None => None,
    }
}

/// What the nul-terminated adapter leaves and returns.
pub open spec fn c_format_result(guest: GuestState, name: u32) -> (GuestState, u32) {
    match c_greeting_reply(guest, name) {
        Some(bytes) => guest.after_allocate(bytes),
        None => (guest, 0u32),
    }
}

/// What the length-prefixed adapter leaves and returns.
pub open spec fn rust_format_result(guest: GuestState, offset: u32, length: u32) -> (
    GuestState,
    u32,
) {
    after_reply(guest, rust_greeting_reply(guest, offset, length))
}

/// The scalar pattern: the value is the call's own result.
pub fn answer() -> (value: i32)
    ensures
        value == 42,
{
    42
}

/// Builds the greeting for `name`.
pub fn format_hello_world(name: &str) -> (text: String)
    ensures
        text@ == greeting(name@),
{
    let mut text: String = String::from_str("Hello World, ");
    text.append(name);
    text.append("!");
    text
}

/// The greeting for the name that `name` encodes, as bytes; `None` where
/// `name` is not UTF-8.
pub fn greet_bytes(name: Vec<u8>) -> (reply: Option<Vec<u8>>)
    ensures
        reply is Some <==> valid_utf8(name@),
        reply is Some ==> reply->0@ == greeting_bytes(name@),
{
    match string_from_utf8(name) {
        Some(text) => {
            proof {
                lemma_decode_is_inverse(name@, text@);
            }
            let greeted: String = format_hello_world(text.as_str());
            Some(greeted.as_str().as_bytes_vec())
        },
        None => None,
    }
}

/// Nul-terminated pattern. Reads the nul-terminated name at `name`, and
/// returns the handle of a new buffer that holds the nul-terminated greeting.
/// Returns `0`, and changes nothing, where `name` is not live, where its
/// buffer is not exactly one nul-terminated UTF-8 text, or where the greeting
/// does not fit.
pub fn wasm_memory_c_format_hello_world(guest: &mut GuestInstance, name: u32) -> (reply: u32)
    requires
        old(guest)@.wf(),
    ensures
        final(guest)@.wf(),
        (final(guest)@, reply) == c_format_result(old(guest)@, name),
{
    let expected_size: usize = validate_pointer(guest, name);
    if expected_size == 0 {
        assert(!is_c_string(guest@.contents(name)) || !guest@.is_live(name));
        return 0;
    }
    assert(guest@.areas.contains_key(name));
    assert(guest@.in_bounds(name, expected_size as nat));
    let stored: Vec<u8> = match guest.read(name, expected_size as u32) {
        Some(bytes) => bytes,
        None => { return 0; },
    };
    let name_bytes: Vec<u8> = match decode_nul_terminated(stored.as_slice()) {
        Some(text) => text,
        None => { return 0; },
    };
    let mut greeted: Vec<u8> = match greet_bytes(name_bytes) {
        Some(bytes) => bytes,
        None => { return 0; },
    };
    greeted.push(0u8);
    let size: usize = greeted.len();
    allocate(guest, size, greeted)
}

/// Length-prefixed pattern. Reads the name of `length` bytes at `offset`, and
/// returns the handle of a packed pair that points at the greeting. Returns
/// `0`, and changes nothing, where `offset` is not live, where its recorded
/// size is not `length`, where the name is not UTF-8, or where the result does
/// not fit.
pub fn wasm_memory_rust_format_hello_world(guest: &mut GuestInstance, offset: u32, length: u32) -> (reply:
    u32)
    requires
        old(guest)@.wf(),
    ensures
        final(guest)@.wf(),
        (final(guest)@, reply) == rust_format_result(old(guest)@, offset, length),
{
    let name_bytes: Vec<u8> = match fetch_declared(guest, offset, length) {
        Some(bytes) => bytes,
        None => { return 0; },
    };
    match greet_bytes(name_bytes) {
        Some(greeted) => publish(guest, greeted),
        None => 0,
    }
}

} // verus!
