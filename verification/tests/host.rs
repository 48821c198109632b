use wasm_bridge::host::{
    call_answer, call_c_bytes, call_c_format_hello_world, call_process_data_arrow,
    call_rust_bytes, call_rust_format_hello_world, decode_reply,
};
use wasm_bridge::session::{
    complete, judge_allocation, judge_release, read_packed, read_text, release, resolve, send,
    wrapper_wasm_allocate, wrapper_wasm_deallocate, CallSession, Completed, MarshaledValue,
};
use wasm_bridge::memory::{wasm_allocate, GuestInstance};
use wasm_bridge::payloads::{create_arrow_example_data, create_arrow_example_meta_data};
use wasm_bridge::sandbox::{to_value, to_word, CallError, Export, Guest, Sandbox};
use wasm_bridge::tabular::{Content, Leaf};

fn live_buffers(sandbox: &Sandbox, upto: u32) -> usize {
    match sandbox.guest() {
        Guest::Reference(guest) => (0..upto).filter(|h| guest.buffer(*h).is_some()).count(),
        Guest::Wasm(_) => panic!("not the reference guest"),
    }
}

#[test]
fn scalar_call_gives_forty_two() {
    let mut sandbox = Sandbox::reference();
    assert_eq!(call_answer(&mut sandbox), Ok(42));
}

#[test]
fn c_call_scenario() {
    let mut sandbox = Sandbox::reference();
    let done = call_c_format_hello_world(&mut sandbox, "Rust (C ABI)").expect("a greeting");
    assert_eq!(done.value, "Hello World, Rust (C ABI)!");
    assert_eq!(done.cleanup_failures, 0);
    assert_eq!(live_buffers(&sandbox, 200), 0);
}

#[test]
fn rust_call_scenario() {
    let mut sandbox = Sandbox::reference();
    let done = call_rust_format_hello_world(&mut sandbox, "Rust (Rust ABI)").expect("a greeting");
    assert_eq!(done.value, "Hello World, Rust (Rust ABI)!");
    assert_eq!(done.cleanup_failures, 0);
    assert_eq!(live_buffers(&sandbox, 200), 0);
}

#[test]
fn round_trips_keep_text_of_any_length() {
    let mut sandbox = Sandbox::reference();
    for name in ["", "a", "Zoë", "日本語", "a name with spaces", "x".repeat(1000).as_str()] {
        let expected = format!("Hello World, {}!", name);
        let by_pair = call_rust_format_hello_world(&mut sandbox, name).expect("a greeting");
        assert_eq!(by_pair.value, expected);
        assert_eq!(by_pair.cleanup_failures, 0);
        let by_scan = call_c_format_hello_world(&mut sandbox, name).expect("a greeting");
        assert_eq!(by_scan.value, expected);
        assert_eq!(by_scan.cleanup_failures, 0);
    }
}

#[test]
fn c_call_refuses_a_name_with_a_zero_byte() {
    let mut sandbox = Sandbox::reference();
    let refused = call_c_format_hello_world(&mut sandbox, "Ru\0st");
    assert_eq!(refused.err(), Some(CallError::InvalidInput));
    assert_eq!(live_buffers(&sandbox, 50), 0);
    let taken = call_rust_format_hello_world(&mut sandbox, "Ru\0st").expect("a greeting");
    assert_eq!(taken.value, "Hello World, Ru\0st!");
}

#[test]
fn c_call_reports_no_result_and_releases_the_input() {
    let mut sandbox = Sandbox::reference();
    let refused = call_c_bytes(&mut sandbox, &[0xff, 0xfe]);
    assert_eq!(refused.err(), Some(CallError::NoResult));
    assert_eq!(live_buffers(&sandbox, 50), 0);
}

#[test]
fn rust_call_reports_no_result_and_releases_the_input() {
    let mut sandbox = Sandbox::reference();
    let refused = call_rust_bytes(&mut sandbox, &[0xff, 0xfe]);
    assert_eq!(refused.err(), Some(CallError::NoResult));
    assert_eq!(live_buffers(&sandbox, 50), 0);
}

#[test]
fn call_reports_a_guest_without_room() {
    let mut sandbox = Sandbox::on(Guest::Reference(GuestInstance::with_memory_limit(4)));
    let refused = call_rust_format_hello_world(&mut sandbox, "Rust");
    assert_eq!(refused.err(), Some(CallError::OutOfMemory));
    let mut sandbox = Sandbox::on(Guest::Reference(GuestInstance::with_memory_limit(8)));
    let refused = call_rust_format_hello_world(&mut sandbox, "Rust");
    assert_eq!(refused.err(), Some(CallError::NoResult));
    assert_eq!(live_buffers(&sandbox, 50), 0);
}

#[test]
fn tabular_call_scenario() {
    let mut sandbox = Sandbox::reference();
    let command = create_arrow_example_meta_data().expect("encodes");
    let data = create_arrow_example_data().expect("encodes");
    let done = call_process_data_arrow(&mut sandbox, &command, &data).expect("an answer");
    assert_eq!(done.cleanup_failures, 0);
    let decoded = decode_reply(done).expect("batches");
    assert_eq!(decoded.cleanup_failures, 0);
    assert_eq!(decoded.value.len(), 1);
    let batch = &decoded.value[0];
    assert_eq!(batch.rows, 1);
    assert_eq!(batch.fields.len(), 2);
    assert_eq!(batch.fields[0].name, "id");
    assert!(matches!(&batch.fields[0].content, Content::Leaf(Leaf::UInt64(ids)) if ids == &vec![1u64]));
    assert_eq!(batch.fields[1].name, "content");
    assert!(matches!(
        &batch.fields[1].content,
        Content::Leaf(Leaf::Utf8(cells)) if cells == &vec!["this is a test2".to_string()]
    ));
    assert_eq!(live_buffers(&sandbox, 4000), 0);
}

#[test]
fn tabular_call_reports_no_result_for_a_rejected_payload() {
    let mut sandbox = Sandbox::reference();
    let command = create_arrow_example_meta_data().expect("encodes");
    let data = create_arrow_example_data().expect("encodes");
    let swapped = call_process_data_arrow(&mut sandbox, &data, &command);
    assert_eq!(swapped.err(), Some(CallError::NoResult));
    let garbage = call_process_data_arrow(&mut sandbox, b"no stream", &data);
    assert_eq!(garbage.err(), Some(CallError::NoResult));
    assert_eq!(live_buffers(&sandbox, 8000), 0);
}

#[test]
fn decode_reply_refuses_bytes_that_are_no_stream() {
    let done = Completed { value: b"not a stream".to_vec(), cleanup_failures: 1 };
    assert_eq!(decode_reply(done).err(), Some(CallError::InvalidResult));
}

#[test]
fn allocate_and_deallocate_through_the_sandbox() {
    let mut sandbox = Sandbox::reference();
    let handle = wrapper_wasm_allocate(&mut sandbox, 12).expect("no fault");
    assert_eq!(handle, 1);
    assert_eq!(wrapper_wasm_deallocate(&mut sandbox, handle), Ok(0));
    assert_eq!(wrapper_wasm_deallocate(&mut sandbox, handle), Ok(-1));
    assert_eq!(wrapper_wasm_deallocate(&mut sandbox, 0), Ok(-1));
}

#[test]
fn a_failed_release_is_counted_and_does_not_undo_the_result() {
    let mut sandbox = Sandbox::reference();
    let handle = send(&mut sandbox, b"payload").expect("sent");
    assert_eq!(release(&mut sandbox, handle), Ok(true));
    assert_eq!(release(&mut sandbox, handle), Ok(false));
    let text = send(&mut sandbox, b"kept\0").expect("sent");
    let mut session = CallSession::new();
    session.track(handle);
    session.track(777);
    let done = complete(&mut sandbox, session, MarshaledValue::NulTerminatedBytes { offset: text })
        .expect("a result");
    assert_eq!(done.value, b"kept".to_vec());
    assert_eq!(done.cleanup_failures, 2);
    assert_eq!(live_buffers(&sandbox, 50), 0);
}

#[test]
fn a_session_releases_what_it_tracks() {
    let mut sandbox = Sandbox::reference();
    let first = send(&mut sandbox, b"one").expect("sent");
    let second = send(&mut sandbox, b"two").expect("sent");
    let mut session = CallSession::new();
    assert!(session.buffers.is_empty());
    session.track(first);
    session.track(second);
    assert_eq!(session.buffers, vec![first, second]);
    assert_eq!(session.close(&mut sandbox), Ok(0));
    assert_eq!(live_buffers(&sandbox, 50), 0);
    assert_eq!(CallSession::new().close(&mut sandbox), Ok(0));
}

#[test]
fn the_sentinel_ends_a_call_without_a_read() {
    let mut sandbox = Sandbox::reference();
    let input = send(&mut sandbox, b"input").expect("sent");
    for value in [
        MarshaledValue::NulTerminatedBytes { offset: 0 },
        MarshaledValue::LengthPrefixedBytes { offset: 0, length: 1 },
        MarshaledValue::PackedMultiValue { offset: 0 },
    ] {
        assert!(value.is_sentinel());
        let refused = complete(&mut sandbox, CallSession::new(), value);
        assert_eq!(refused.err(), Some(CallError::NoResult));
    }
    assert!(!MarshaledValue::Scalar(0).is_sentinel());
    assert!(!MarshaledValue::PackedMultiValue { offset: 9 }.is_sentinel());
    let mut session = CallSession::new();
    session.track(input);
    let refused = complete(&mut sandbox, session, MarshaledValue::PackedMultiValue { offset: 0 });
    assert_eq!(refused.err(), Some(CallError::NoResult));
    assert_eq!(live_buffers(&sandbox, 50), 0);
}

#[test]
fn each_shape_of_value_is_resolved() {
    let mut sandbox = Sandbox::reference();
    let text = send(&mut sandbox, b"text\0").expect("sent");
    let data = send(&mut sandbox, b"result").expect("sent");
    let mut pair = data.to_le_bytes().to_vec();
    pair.extend_from_slice(&6u32.to_le_bytes());
    let metadata = send(&mut sandbox, &pair).expect("sent");
    let mut session = CallSession::new();
    let scalar = resolve(&mut sandbox, MarshaledValue::Scalar(0x0403_0201), &mut session);
    assert_eq!(scalar, Ok(vec![1, 2, 3, 4]));
    assert!(session.buffers.is_empty());
    let scanned =
        resolve(&mut sandbox, MarshaledValue::NulTerminatedBytes { offset: text }, &mut session);
    assert_eq!(scanned, Ok(b"text".to_vec()));
    assert_eq!(session.buffers, vec![text]);
    let ranged = resolve(
        &mut sandbox,
        MarshaledValue::LengthPrefixedBytes { offset: data + 2, length: 3 },
        &mut session,
    );
    assert_eq!(ranged, Ok(b"sul".to_vec()));
    assert_eq!(session.buffers, vec![text, data + 2]);
    let packed =
        resolve(&mut sandbox, MarshaledValue::PackedMultiValue { offset: metadata }, &mut session);
    assert_eq!(packed, Ok(b"result".to_vec()));
    assert_eq!(session.buffers, vec![text, data + 2, metadata, data]);
    let wild = resolve(
        &mut sandbox,
        MarshaledValue::LengthPrefixedBytes { offset: data, length: 6000 },
        &mut session,
    );
    assert_eq!(wild, Err(CallError::Trap));
    assert_eq!(session.buffers.len(), 4);
}

#[test]
fn send_puts_the_payload_into_guest_memory() {
    let mut sandbox = Sandbox::reference();
    let handle = send(&mut sandbox, b"payload").expect("sent");
    assert_eq!(sandbox.read(handle, 7), Ok(b"payload".to_vec()));
    let empty = send(&mut sandbox, b"").expect("sent");
    assert_ne!(empty, handle);
    assert_eq!(sandbox.read(empty, 0), Ok(Vec::new()));
}

#[test]
fn read_text_stops_at_the_first_zero_byte() {
    let mut sandbox = Sandbox::reference();
    let handle = send(&mut sandbox, b"one\0two\0").expect("sent");
    assert_eq!(read_text(&mut sandbox, handle), Ok(b"one".to_vec()));
    assert_eq!(read_text(&mut sandbox, handle + 3), Ok(Vec::new()));
    assert_eq!(read_text(&mut sandbox, handle + 4), Ok(b"two".to_vec()));
}

#[test]
fn read_text_faults_where_no_terminator_follows() {
    let mut sandbox = Sandbox::reference();
    let handle = send(&mut sandbox, b"open").expect("sent");
    assert_eq!(read_text(&mut sandbox, handle), Err(CallError::Trap));
    assert_eq!(read_text(&mut sandbox, handle + 4), Err(CallError::Trap));
    assert_eq!(read_text(&mut sandbox, u32::MAX), Err(CallError::Trap));
}

#[test]
fn read_packed_follows_the_pair() {
    let mut sandbox = Sandbox::reference();
    let data = send(&mut sandbox, b"result").expect("sent");
    let mut pair = data.to_le_bytes().to_vec();
    pair.extend_from_slice(&6u32.to_le_bytes());
    let metadata = send(&mut sandbox, &pair).expect("sent");
    assert_eq!(read_packed(&mut sandbox, metadata), Ok((data, b"result".to_vec())));
    let mut wild = data.to_le_bytes().to_vec();
    wild.extend_from_slice(&6000u32.to_le_bytes());
    let dangling = send(&mut sandbox, &wild).expect("sent");
    assert_eq!(read_packed(&mut sandbox, dangling), Err(CallError::Trap));
    assert_eq!(read_packed(&mut sandbox, u32::MAX - 3), Err(CallError::Trap));
}

#[test]
fn a_call_with_the_wrong_number_of_arguments_is_a_fault() {
    let mut sandbox = Sandbox::reference();
    assert_eq!(sandbox.invoke(Export::Answer, &vec![1]), Err(CallError::Trap));
    assert_eq!(sandbox.invoke(Export::Allocate, &vec![]), Err(CallError::Trap));
    assert_eq!(sandbox.invoke(Export::RustFormatHelloWorld, &vec![1]), Err(CallError::Trap));
    assert_eq!(sandbox.invoke(Export::Answer, &vec![]), Ok(42));
    assert_eq!(sandbox.invoke(Export::Deallocate, &vec![9]), Ok(u32::MAX));
}

#[test]
fn exports_have_their_names_and_arities() {
    assert_eq!(Export::Answer.name(), "answer");
    assert_eq!(Export::Allocate.name(), "wasm_allocate");
    assert_eq!(Export::Deallocate.name(), "wasm_deallocate");
    assert_eq!(Export::CFormatHelloWorld.name(), "wasm_memory_c_format_hello_world");
    assert_eq!(Export::RustFormatHelloWorld.name(), "wasm_memory_rust_format_hello_world");
    assert_eq!(Export::ProcessDataArrow.name(), "wasm_memory_process_data_arrow");
    assert_eq!(Export::Answer.arity(), 0);
    assert_eq!(Export::ProcessDataArrow.arity(), 4);
}

#[test]
fn words_and_signed_values_convert_both_ways() {
    assert_eq!(to_word(0), 0);
    assert_eq!(to_word(-1), u32::MAX);
    assert_eq!(to_word(i32::MIN), 0x8000_0000);
    assert_eq!(to_word(i32::MAX), 0x7fff_ffff);
    assert_eq!(to_value(u32::MAX), -1);
    assert_eq!(to_value(0x8000_0000), i32::MIN);
    assert_eq!(to_value(42), 42);
}

#[test]
fn sandbox_memory_access_is_bounded() {
    let mut guest = GuestInstance::new();
    let handle = wasm_allocate(&mut guest, 4);
    let mut sandbox = Sandbox::on(Guest::Reference(guest));
    assert_eq!(sandbox.write(handle, &[1, 2, 3, 4]), Ok(()));
    assert_eq!(sandbox.write(handle, &[1, 2, 3, 4, 5]), Err(CallError::Trap));
    assert_eq!(sandbox.read(handle, 4), Ok(vec![1, 2, 3, 4]));
    assert_eq!(sandbox.read(handle, 5), Err(CallError::Trap));
}

#[test]
fn the_answers_of_the_guest_are_judged() {
    assert_eq!(judge_allocation(Ok(0)), Err(CallError::OutOfMemory));
    assert_eq!(judge_allocation(Ok(16)), Ok(16));
    assert_eq!(judge_allocation(Err(CallError::Trap)), Err(CallError::Trap));
    assert_eq!(judge_release(Ok(0)), Ok(true));
    assert_eq!(judge_release(Ok(u32::MAX)), Ok(false));
    assert_eq!(judge_release(Ok(7)), Ok(false));
    assert_eq!(judge_release(Err(CallError::Trap)), Err(CallError::Trap));
}
