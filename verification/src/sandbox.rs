//! The guest as the host reaches it: exported functions that take and return
//! 32-bit words, and a linear memory that is read and written by offset.
//!
//! A sandbox is either a module instance in the `wasmtime` engine, of which
//! nothing is known but what it answers, or the reference guest of this
//! library, whose every answer is specified.
//!
//! Either way the sandbox keeps a record of every exchange: what was asked
//! of the guest and what it answered. The record is ghost; what the host
//! does with the answers is stated over it, for every guest.
use crate::engine::{call_export, read_memory, write_memory, WasmGuest};
use crate::greeter::{
    answer, c_format_result, rust_format_result, wasm_memory_c_format_hello_world,
    wasm_memory_rust_format_hello_world,
};
use crate::memory::{wasm_allocate, wasm_deallocate, zeros, GuestInstance, GuestState};
use crate::processor::{process_result, wasm_memory_process_data_arrow};
use vstd::prelude::*;

verus! {

/// Why a call into the guest came to nothing.
#[derive(Clone, Copy, Debug, PartialEq, Eq, Structural)]
pub enum CallError {
    /// The engine reported a fault: no such export, a trap, or an access
    /// outside linear memory. The instance is not to be used again.
    Trap,
    /// The guest's allocator answered `0`.
    OutOfMemory,
    /// The adapter answered `0`: there is no result.
    NoResult,
    /// The input cannot be sent: text with a zero byte in it, or a payload
    /// too long for a 32-bit length.
    InvalidInput,
    /// The result cannot be decoded: bytes that are not UTF-8 text, or not a
    /// stream of batches.
    InvalidResult,
}

/// The functions that a guest module exports.
#[derive(Clone, Copy, Debug, PartialEq, Eq, Structural)]
pub enum Export {
    Answer,
    Allocate,
    Deallocate,
    CFormatHelloWorld,
    RustFormatHelloWorld,
    ProcessDataArrow,
}

impl Export {
    /// The name under which the module exports the function.
    pub open spec fn spec_name(self) -> Seq<char> {
        match self {
            Export::Answer => "answer"@,
            Export::Allocate => "wasm_allocate"@,
            Export::Deallocate => "wasm_deallocate"@,
            Export::CFormatHelloWorld => "wasm_memory_c_format_hello_world"@,
            Export::RustFormatHelloWorld => "wasm_memory_rust_format_hello_world"@,
            Export::ProcessDataArrow => "wasm_memory_process_data_arrow"@,
        }
    }

    /// The number of words that the function takes.
    pub open spec fn spec_arity(self) -> nat {
        match self {
            Export::Answer => 0,
            Export::Allocate => 1,
            Export::Deallocate => 1,
            Export::CFormatHelloWorld => 1,
            Export::RustFormatHelloWorld => 2,
            Export::ProcessDataArrow => 4,
        }
    }

    /// The name under which the module exports the function.
    pub fn name(&self) -> (name: &'static str)
        ensures
            name@ == self.spec_name(),
    {
        match self {
            Export::Answer => "answer",
            Export::Allocate => "wasm_allocate",
            Export::Deallocate => "wasm_deallocate",
            Export::CFormatHelloWorld => "wasm_memory_c_format_hello_world",
            Export::RustFormatHelloWorld => "wasm_memory_rust_format_hello_world",
            Export::ProcessDataArrow => "wasm_memory_process_data_arrow",
        }
    }

    /// The number of words that the function takes.
    pub fn arity(&self) -> (n: usize)
        ensures
            n == self.spec_arity(),
    {
        match self {
            Export::Answer => 0,
            Export::Allocate => 1,
            Export::Deallocate => 1,
            Export::CFormatHelloWorld => 1,
            Export::RustFormatHelloWorld => 2,
            Export::ProcessDataArrow => 4,
        }
    }
}

/// A signed 32-bit result as the word that crosses the boundary.
pub open spec fn word_of(value: i32) -> u32 {
    if value >= 0 {
        value as u32
    } else {
        (value + 0x1_0000_0000) as u32
    }
}

/// The word that crosses the boundary as the signed 32-bit value it stands
/// for.
pub open spec fn value_of(word: u32) -> i32 {
    if word < 0x8000_0000 {
        word as i32
    } else {
        (word - 0x1_0000_0000) as i32
    }
}

/// A signed 32-bit result as the word that crosses the boundary.
pub fn to_word(value: i32) -> (word: u32)
    ensures
        word == word_of(value),
{
    if value >= 0 {
        value as u32
    } else {
        (value as i64 + 0x1_0000_0000) as u32
    }
}

/// The word that crosses the boundary as a signed 32-bit value.
pub fn to_value(word: u32) -> (value: i32)
    ensures
        value == value_of(word),
{
    if word < 0x8000_0000 {
        word as i32
    } else {
        (word as i64 - 0x1_0000_0000) as i32
    }
}

/// What the reference guest leaves and answers when `export` is called with
/// `args`, or `None` where the number of arguments is wrong, which the engine
/// reports as a fault.
pub open spec fn reference_invoke(guest: GuestState, export: Export, args: Seq<u32>) -> Option<
    (GuestState, u32),
> {
    if args.len() != export.spec_arity() {
        None
    } else {
        Some(
            match export {
                Export::Answer => (guest, 42u32),
                Export::Allocate => guest.after_allocate(zeros(args[0] as nat)),
                Export::Deallocate => {
                    let (next, status) = guest.after_deallocate(args[0]);
                    (next, word_of(status))
                },
                Export::CFormatHelloWorld => c_format_result(guest, args[0]),
                Export::RustFormatHelloWorld => rust_format_result(guest, args[0], args[1]),
                Export::ProcessDataArrow => process_result(
                    guest,
                    args[0],
                    args[1],
                    args[2],
                    args[3],
                ),
            },
        )
    }
}

/// One thing that the host asked of the guest, and what the guest answered.
pub enum Exchange {
    /// An exported function was called.
    Invoke { export: Export, args: Seq<u32>, answer: Result<u32, CallError> },
    /// Linear memory was read.
    Read { offset: u32, len: u32, found: Result<Seq<u8>, CallError> },
    /// Linear memory was written.
    Write { offset: u32, bytes: Seq<u8>, done: Result<(), CallError> },
}

/// `later` holds all of `earlier`, in order, at its start.
pub open spec fn extends(earlier: Seq<Exchange>, later: Seq<Exchange>) -> bool {
    earlier.len() <= later.len() && later.subrange(0, earlier.len() as int) == earlier
}

/// What the guest answered to the call of `export` with `args` that stands at
/// `at` in `log`; `None` where something else stands there.
pub open spec fn invoke_at(log: Seq<Exchange>, at: int, export: Export, args: Seq<u32>) -> Option<
    Result<u32, CallError>,
> {
    if 0 <= at < log.len() {
        match log[at] {
            Exchange::Invoke { export: called, args: given, answer } => if called == export
                && given == args {
                Some(answer)
            } else {
                None
            },
            _ => None,
        }
    } else {
        None
    }
}

/// What the guest answered to the read of `len` bytes from `offset` that
/// stands at `at` in `log`; `None` where something else stands there.
pub open spec fn read_at(log: Seq<Exchange>, at: int, offset: u32, len: u32) -> Option<
    Result<Seq<u8>, CallError>,
> {
    if 0 <= at < log.len() {
        match log[at] {
            Exchange::Read { offset: from, len: count, found } => if from == offset && count
                == len {
                Some(found)
            } else {
                None
            },
            _ => None,
        }
    } else {
        None
    }
}

/// What the guest answered to the write of `bytes` from `offset` that stands
/// at `at` in `log`; `None` where something else stands there.
pub open spec fn write_at(log: Seq<Exchange>, at: int, offset: u32, bytes: Seq<u8>) -> Option<
    Result<(), CallError>,
> {
    if 0 <= at < log.len() {
        match log[at] {
            Exchange::Write { offset: to, bytes: written, done } => if to == offset && written
                == bytes {
                Some(done)
            } else {
                None
            },
            _ => None,
        }
    } else {
        None
    }
}

/// The bytes of a read as a value of the model.
pub open spec fn read_answer(r: Result<Vec<u8>, CallError>) -> Result<Seq<u8>, CallError> {
    match r {
        Ok(bytes) => Ok(bytes@),
        Err(e) => Err(e),
    }
}

/// A log that extends `log` has at each place of `log` what `log` has there.
pub proof fn lemma_extends(log: Seq<Exchange>, later: Seq<Exchange>, at: int)
    requires
        extends(log, later),
        0 <= at < log.len(),
    ensures
        later[at] == log[at],
{
    assert(later.subrange(0, log.len() as int)[at] == later[at]);
}

/// To extend is transitive.
pub proof fn lemma_extends_twice(first: Seq<Exchange>, second: Seq<Exchange>, third: Seq<Exchange>)
    requires
        extends(first, second),
        extends(second, third),
    ensures
        extends(first, third),
{
    assert forall|i: int| 0 <= i < first.len() implies third.subrange(0, first.len() as int)[i]
        == first[i] by {
        lemma_extends(second, third, i);
        lemma_extends(first, second, i);
    }
    assert(third.subrange(0, first.len() as int) =~= first);
}

/// The guest behind a sandbox.
pub enum Guest {
    /// The reference guest: the modules of this library on a modelled linear
    /// memory.
    Reference(GuestInstance),
    /// A module instance in the engine.
    Wasm(WasmGuest),
}

/// A guest that a host can call, with the record of what was asked of it and
/// what it answered.
pub struct Sandbox {
    guest: Guest,
    log: Ghost<Seq<Exchange>>,
}

impl Sandbox {
    /// The state of the reference guest, where the sandbox is one.
    pub closed spec fn model(&self) -> Option<GuestState> {
        match self.guest {
            Guest::Reference(guest) => Some(guest@),
            Guest::Wasm(_) => None,
        }
    }

    /// Everything that was asked of the guest through this sandbox, with the
    /// answers, in order.
    pub closed spec fn log(&self) -> Seq<Exchange> {
        self.log@
    }

    /// The reference guest's state is well-formed.
    pub open spec fn wf(&self) -> bool {
        match self.model() {
            Some(guest) => guest.wf(),
            None => true,
        }
    }

    /// A sandbox that holds a new reference guest.
    pub fn reference() -> (sandbox: Sandbox)
        ensures
            sandbox.wf(),
            sandbox.model() == Some(GuestState::fresh(u32::MAX)),
            sandbox.log() == Seq::<Exchange>::empty(),
    {
        Sandbox { guest: Guest::Reference(GuestInstance::new()), log: Ghost(Seq::empty()) }
    }

    /// A sandbox that holds `guest`.
    pub fn on(guest: Guest) -> (sandbox: Sandbox)
        requires
            guest matches Guest::Reference(instance) ==> instance@.wf(),
        ensures
            sandbox.wf(),
            sandbox.log() == Seq::<Exchange>::empty(),
            sandbox.model() == (match guest {
                Guest::Reference(instance) => Some(instance@),
                Guest::Wasm(_) => None,
            }),
    {
        Sandbox { guest, log: Ghost(Seq::empty()) }
    }

    /// The guest behind the sandbox.
    pub fn guest(&self) -> (guest: &Guest)
        ensures
            self.model() == (match *guest {
                Guest::Reference(instance) => Some(instance@),
                Guest::Wasm(_) => None,
            }),
    {
        &self.guest
    }

    /// Calls `export` with `args`. An engine fault is `CallError::Trap`.
    pub fn invoke(&mut self, export: Export, args: &Vec<u32>) -> (r: Result<u32, CallError>)
        requires
            old(self).wf(),
        ensures
            final(self).wf(),
            final(self).model() is Some <==> old(self).model() is Some,
            final(self).log() == old(self).log().push(
                Exchange::Invoke { export, args: args@, answer: r },
            ),
            r is Err ==> r == Err::<u32, CallError>(CallError::Trap),
            old(self).model() matches Some(guest) ==> match reference_invoke(guest, export, args@) {
                Some((next, word)) => r == Ok::<u32, CallError>(word) && final(self).model()
                    == Some(next),
                None => r is Err && final(self).model() == Some(guest),
            },
    {
        let r: Result<u32, CallError> = match &mut self.guest {
            Guest::Reference(guest) => {
                if args.len() != export.arity() {
                    Err(CallError::Trap)
                } else {
                    match export {
                        Export::Answer => Ok(to_word(answer())),
                        Export::Allocate => Ok(wasm_allocate(guest, args[0])),
                        Export::Deallocate => Ok(to_word(wasm_deallocate(guest, args[0]))),
                        Export::CFormatHelloWorld => Ok(
                            wasm_memory_c_format_hello_world(guest, args[0]),
                        ),
                        Export::RustFormatHelloWorld => Ok(
                            wasm_memory_rust_format_hello_world(guest, args[0], args[1]),
                        ),
                        Export::ProcessDataArrow => Ok(
                            wasm_memory_process_data_arrow(
                                guest,
                                args[0],
                                args[1],
                                args[2],
                                args[3],
                            ),
                        ),
                    }
                }
            },
            Guest::Wasm(guest) => match call_export(guest, export.name(), args) {
                Ok(word) => Ok(word),
                Err(_) => Err(CallError::Trap),
            },
        };
        self.log = Ghost(self.log@.push(Exchange::Invoke { export, args: args@, answer: r }));
        r
    }

    /// Reads `len` bytes of linear memory from `offset` on. A range that
    /// leaves linear memory is `CallError::Trap`.
    pub fn read(&mut self, offset: u32, len: u32) -> (r: Result<Vec<u8>, CallError>)
        requires
            old(self).wf(),
        ensures
            final(self).wf(),
            final(self).model() == old(self).model(),
            final(self).log() == old(self).log().push(
                Exchange::Read { offset, len, found: read_answer(r) },
            ),
            r is Err ==> r == Err::<Vec<u8>, CallError>(CallError::Trap),
            r is Ok ==> r->Ok_0@.len() == len,
            old(self).model() matches Some(guest) ==> (r is Ok <==> guest.in_bounds(
                offset,
                len as nat,
            )) && (r is Ok ==> r->Ok_0@ == guest.read(offset, len as nat)),
    {
        let r: Result<Vec<u8>, CallError> = match &mut self.guest {
            Guest::Reference(guest) => match guest.read(offset, len) {
                Some(bytes) => Ok(bytes),
                None => Err(CallError::Trap),
            },
            Guest::Wasm(guest) => match read_memory(guest, offset, len) {
                Ok(bytes) => Ok(bytes),
                Err(_) => Err(CallError::Trap),
            },
        };
        self.log = Ghost(self.log@.push(Exchange::Read { offset, len, found: read_answer(r) }));
        r
    }

    /// Writes `bytes` to linear memory from `offset` on. A range that leaves
    /// linear memory is `CallError::Trap`, and nothing is written.
    pub fn write(&mut self, offset: u32, bytes: &[u8]) -> (r: Result<(), CallError>)
        requires
            old(self).wf(),
        ensures
            final(self).wf(),
            final(self).model() is Some <==> old(self).model() is Some,
            final(self).log() == old(self).log().push(
                Exchange::Write { offset, bytes: bytes@, done: r },
            ),
            r is Err ==> r == Err::<(), CallError>(CallError::Trap),
            old(self).model() matches Some(guest) ==> (r is Ok <==> guest.in_bounds(
                offset,
                bytes@.len(),
            )) && final(self).model() == Some(
                if guest.in_bounds(offset, bytes@.len()) {
                    guest.write(offset, bytes@)
                } else {
                    guest
                },
            ),
    {
        let r: Result<(), CallError> = match &mut self.guest {
            Guest::Reference(guest) => {
                if guest.write(offset, bytes) {
                    Ok(())
                } else {
                    Err(CallError::Trap)
                }
            },
            Guest::Wasm(guest) => match write_memory(guest, offset, bytes) {
                Ok(_) => Ok(()),
                Err(_) => Err(CallError::Trap),
            },
        };
        self.log = Ghost(self.log@.push(Exchange::Write { offset, bytes: bytes@, done: r }));
        r
    }
}

} // verus!
