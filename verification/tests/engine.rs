use wasm_bridge::host::{
    call_answer, call_c_format_hello_world, call_rust_format_hello_world, connect,
    wrapper_answer, wrapper_wasm_c_format_hello_world, wrapper_wasm_process_data_arrow,
    wrapper_wasm_rust_format_hello_world,
};
use wasm_bridge::session::{
    complete, read_text, release, send, wrapper_wasm_allocate, wrapper_wasm_deallocate,
    CallSession, MarshaledValue,
};
use wasm_bridge::sandbox::CallError;
use wasmtime::{Config, Engine, Module};

/// A guest that answers 42, allocates by moving a mark forward, and whose two
/// greeters hand the name back as it came.
const ECHO_GUEST: &str = r#"
(module
  (memory (export "memory") 1)
  (global $next (mut i32) (i32.const 16))
  (func (export "answer") (result i32) (i32.const 42))
  (func $allocate (export "wasm_allocate") (param $size i32) (result i32)
    (local $handle i32)
    (local.set $handle (global.get $next))
    (global.set $next
      (i32.add (global.get $next)
        (select (local.get $size) (i32.const 1) (local.get $size))))
    (local.get $handle))
  (func (export "wasm_deallocate") (param $ptr i32) (result i32)
    (select (i32.const 0) (i32.const -1)
      (i32.and (i32.ge_u (local.get $ptr) (i32.const 16))
               (i32.lt_u (local.get $ptr) (global.get $next)))))
  (func (export "wasm_memory_c_format_hello_world") (param $name i32) (result i32)
    (local.get $name))
  (func (export "wasm_memory_rust_format_hello_world")
    (param $offset i32) (param $length i32) (result i32)
    (local $pair i32)
    (local.set $pair (call $allocate (i32.const 8)))
    (i32.store (local.get $pair) (local.get $offset))
    (i32.store offset=4 (local.get $pair) (local.get $length))
    (local.get $pair))
  (func (export "wasm_memory_process_data_arrow")
    (param i32) (param i32) (param i32) (param i32) (result i32)
    (i32.const 0)))
"#;

/// A guest whose greeters answer with bytes that are not UTF-8, and which
/// refuses every release.
const STUBBORN_GUEST: &str = r#"
(module
  (memory (export "memory") 1)
  (data (i32.const 32) "\ff\41\00")
  (data (i32.const 40) "\20\00\00\00\02\00\00\00")
  (func (export "wasm_allocate") (param i32) (result i32) (i32.const 64))
  (func (export "wasm_deallocate") (param i32) (result i32) (i32.const -1))
  (func (export "wasm_memory_c_format_hello_world") (param i32) (result i32)
    (i32.const 32))
  (func (export "wasm_memory_rust_format_hello_world") (param i32) (param i32) (result i32)
    (i32.const 40)))
"#;

/// A guest that exports nothing but its memory.
const BARE_GUEST: &str = r#"(module (memory (export "memory") 1))"#;

/// An engine that reserves no more address space than a small guest needs.
fn small_engine() -> Engine {
    let mut config = Config::new();
    config.memory_reservation(1 << 20).memory_guard_size(0).memory_reservation_for_growth(0);
    Engine::new(&config).expect("the engine starts")
}

fn arguments() -> Vec<String> {
    vec!["guest".to_string()]
}

fn echo_guest() -> (Engine, Module) {
    let engine = small_engine();
    let module = Module::new(&engine, ECHO_GUEST).expect("the module compiles");
    (engine, module)
}

#[test]
fn engine_answers_the_scalar_call() {
    let (engine, module) = echo_guest();
    assert_eq!(wrapper_answer(&engine, &module, &arguments()), Ok(42));
}

#[test]
fn engine_hands_nul_terminated_text_back() {
    let (engine, module) = echo_guest();
    let done = wrapper_wasm_c_format_hello_world(&engine, &module, &arguments(), "Rust (C ABI)")
        .expect("the call completes");
    assert_eq!(done.value, "Rust (C ABI)");
    assert_eq!(done.cleanup_failures, 0);
}

#[test]
fn engine_hands_length_prefixed_text_back() {
    let (engine, module) = echo_guest();
    let done = wrapper_wasm_rust_format_hello_world(
        &engine,
        &module,
        &arguments(),
        "Rust (Rust ABI)".to_string(),
    )
    .expect("the call completes");
    assert_eq!(done.value, "Rust (Rust ABI)");
    assert_eq!(done.cleanup_failures, 0);
    let empty =
        wrapper_wasm_rust_format_hello_world(&engine, &module, &arguments(), String::new())
            .expect("the call completes");
    assert_eq!(empty.value, "");
}

#[test]
fn engine_reports_the_zero_sentinel_as_no_result() {
    let (engine, module) = echo_guest();
    let refused = wrapper_wasm_process_data_arrow(&engine, &module, &arguments());
    assert_eq!(refused.err(), Some(CallError::NoResult));
}

#[test]
fn engine_reports_a_missing_export_as_a_fault() {
    let engine = small_engine();
    let module = Module::new(&engine, BARE_GUEST).expect("the module compiles");
    assert_eq!(wrapper_answer(&engine, &module, &arguments()), Err(CallError::Trap));
    let refused = wrapper_wasm_c_format_hello_world(&engine, &module, &arguments(), "Rust");
    assert_eq!(refused.err(), Some(CallError::Trap));
}

#[test]
fn engine_call_refuses_a_name_with_a_zero_byte() {
    let (engine, module) = echo_guest();
    let refused = wrapper_wasm_c_format_hello_world(&engine, &module, &arguments(), "Ru\0st");
    assert_eq!(refused.err(), Some(CallError::InvalidInput));
}

#[test]
fn a_sandbox_on_the_engine_takes_the_single_steps() {
    let (engine, module) = echo_guest();
    let mut sandbox = connect(&engine, &module, &arguments()).expect("an instance");
    let handle = wrapper_wasm_allocate(&mut sandbox, 8).expect("no fault");
    assert_eq!(handle, 16);
    assert_eq!(sandbox.write(handle, b"abc\0"), Ok(()));
    assert_eq!(sandbox.read(handle, 4), Ok(b"abc\0".to_vec()));
    assert_eq!(read_text(&mut sandbox, handle), Ok(b"abc".to_vec()));
    assert_eq!(sandbox.read(65536 - 2, 4), Err(CallError::Trap));
    assert_eq!(sandbox.write(65536 - 2, &[1, 2, 3, 4]), Err(CallError::Trap));
    assert_eq!(wrapper_wasm_deallocate(&mut sandbox, handle), Ok(0));
    assert_eq!(wrapper_wasm_deallocate(&mut sandbox, 4), Ok(-1));
    assert_eq!(call_answer(&mut sandbox), Ok(42));
}

#[test]
fn a_refused_release_does_not_undo_the_result() {
    let engine = small_engine();
    let module = Module::new(&engine, STUBBORN_GUEST).expect("the module compiles");
    let done =
        wrapper_wasm_rust_format_hello_world(&engine, &module, &arguments(), "Rust".to_string())
            .expect("the call completes");
    assert_eq!(done.value, "\u{fffd}A");
    assert_eq!(done.cleanup_failures, 3);
}

#[test]
fn nul_terminated_text_that_is_not_utf8_is_refused() {
    let engine = small_engine();
    let module = Module::new(&engine, STUBBORN_GUEST).expect("the module compiles");
    let refused = wrapper_wasm_c_format_hello_world(&engine, &module, &arguments(), "Rust");
    assert_eq!(refused.err(), Some(CallError::InvalidResult));
}

#[test]
fn an_engine_for_async_calls_is_refused() {
    let mut config = Config::new();
    config.async_support(true);
    config.memory_reservation(1 << 20).memory_guard_size(0).memory_reservation_for_growth(0);
    let engine = Engine::new(&config).expect("the engine starts");
    let module = Module::new(&engine, ECHO_GUEST).expect("the module compiles");
    assert_eq!(wrapper_answer(&engine, &module, &arguments()), Err(CallError::Trap));
    assert!(connect(&engine, &module, &arguments()).is_err());
}

#[test]
fn send_writes_the_payload_into_the_engine_guest() {
    let (engine, module) = echo_guest();
    let mut sandbox = connect(&engine, &module, &arguments()).expect("an instance");
    let handle = send(&mut sandbox, b"payload").expect("sent");
    assert_eq!(handle, 16);
    assert_eq!(sandbox.read(handle, 7), Ok(b"payload".to_vec()));
    let next = send(&mut sandbox, b"more").expect("sent");
    assert_eq!(next, 23);
    assert_eq!(sandbox.read(handle, 11), Ok(b"payloadmore".to_vec()));
}

#[test]
fn a_session_on_the_engine_counts_refused_releases_and_goes_on() {
    let (engine, module) = echo_guest();
    let mut sandbox = connect(&engine, &module, &arguments()).expect("an instance");
    let text = send(&mut sandbox, b"kept\0").expect("sent");
    assert_eq!(release(&mut sandbox, 4), Ok(false));
    assert_eq!(release(&mut sandbox, text), Ok(true));
    let mut session = CallSession::new();
    session.track(2);
    session.track(text);
    session.track(3);
    let done = complete(&mut sandbox, session, MarshaledValue::NulTerminatedBytes { offset: text })
        .expect("a result");
    assert_eq!(done.value, b"kept".to_vec());
    assert_eq!(done.cleanup_failures, 2);
}

#[test]
fn reference_guest_and_engine_share_the_driver() {
    let mut reference = wasm_bridge::sandbox::Sandbox::reference();
    assert_eq!(call_answer(&mut reference), Ok(42));
    let greeted = call_c_format_hello_world(&mut reference, "Rust").expect("a greeting");
    assert_eq!(greeted.value, "Hello World, Rust!");
    let greeted = call_rust_format_hello_world(&mut reference, "Rust").expect("a greeting");
    assert_eq!(greeted.value, "Hello World, Rust!");
}
