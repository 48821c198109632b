//! The host's calls, one for each export of the guest modules: each sends
//! its inputs, invokes the export, decodes the answer, and releases what the
//! call touched.
//!
//! The `call_*` functions work on any sandbox, and state over its record of
//! exchanges how the call went. The `wrapper_*` functions make the same calls
//! on a fresh instance of a module in the engine; the instance does not
//! outlive the call, so they state that there is a record by which the call
//! went as it did.
use crate::codec::{decode_stream, decoded, encoded};
use crate::engine::{engine_is_async, instantiate, runs_async};
use crate::greeter::{c_format_result, rust_format_result};
use crate::memory::GuestState;
use crate::payloads::{
    create_arrow_example_data, create_arrow_example_meta_data, example_command_view,
    example_data_view,
};
use crate::processor::process_result;
use crate::sandbox::{
    extends, invoke_at, lemma_extends, lemma_extends_twice, to_value, value_of, CallError,
    Exchange, Export, Guest, Sandbox,
};
use crate::session::{
    call_end, close_run, complete, complete_run, outcome_of, released, released_all, send,
    send_run, sent, CallSession, Completed, MarshaledValue, Outcome,
};
use crate::tabular::{batch_views, Batch, BatchView};
use crate::text::{relaxed_text, string_from_utf8, string_from_utf8_lossy};
use crate::wire::{c_string, encode_nul_terminated, find_nul, has_no_nul};
use vstd::prelude::*;
use vstd::string::StrSliceExecFns;
use vstd::utf8::{decode_utf8, encode_utf8, valid_utf8};
use wasmtime::{Engine, Module};

verus! {

/// The nul-terminated call on the reference guest: what it leaves, and how
/// it ends.
pub open spec fn c_call(guest: GuestState, name: Seq<u8>) -> (GuestState, Outcome) {
    if !has_no_nul(name) {
        (guest, Err(CallError::InvalidInput))
    } else {
        let (loaded, input) = sent(guest, c_string(name));
        match input {
            Err(e) => (loaded, Err(e)),
            Ok(handle) => {
                let (answered, reply) = c_format_result(loaded, handle);
                call_end(
                    answered,
                    seq![handle],
                    MarshaledValue::NulTerminatedBytes { offset: reply },
                )
            },
        }
    }
}

/// The length-prefixed call on the reference guest: what it leaves, and how
/// it ends.
pub open spec fn rust_call(guest: GuestState, name: Seq<u8>) -> (GuestState, Outcome) {
    let (loaded, input) = sent(guest, name);
    match input {
        Err(e) => (loaded, Err(e)),
        Ok(handle) => {
            let (answered, reply) = rust_format_result(loaded, handle, name.len() as u32);
            call_end(answered, seq![handle], MarshaledValue::PackedMultiValue { offset: reply })
        },
    }
}

/// The tabular call on the reference guest: what it leaves, and how it ends.
pub open spec fn arrow_call(guest: GuestState, command: Seq<u8>, data: Seq<u8>) -> (
    GuestState,
    Outcome,
) {
    if command.len() > u32::MAX || data.len() > u32::MAX {
        (guest, Err(CallError::InvalidInput))
    } else {
        let (first, command_input) = sent(guest, command);
        match command_input {
            Err(e) => (first, Err(e)),
            Ok(command_handle) => {
                let (second, data_input) = sent(first, data);
                match data_input {
                    Err(e) => if e == CallError::Trap {
                        (second, Err(e))
                    } else {
                        (released((second, 0), command_handle).0, Err(e))
                    },
                    Ok(data_handle) => {
                        let (answered, reply) = process_result(
                            second,
                            command_handle,
                            command.len() as u32,
                            data_handle,
                            data.len() as u32,
                        );
                        call_end(
                            answered,
                            seq![command_handle, data_handle],
                            MarshaledValue::PackedMultiValue { offset: reply },
                        )
                    },
                }
            },
        }
    }
}

/// How a call goes on once its inputs are sent, read off the record from
/// `at` on: the export is invoked with `args`, and the call is completed
/// with the word that it answers, seen in the given shape.
pub open spec fn invoke_run(
    export: Export,
    args: Seq<u32>,
    inputs: Seq<u32>,
    packed: bool,
    log: Seq<Exchange>,
    at: int,
) -> Option<(Outcome, int)> {
    match invoke_at(log, at, export, args) {
        None => None,
        Some(Err(e)) => Some((Err(e), at + 1)),
        Some(Ok(reply)) => complete_run(inputs, shape(packed, reply), log, at + 1),
    }
}

/// How the nul-terminated call goes, read off the record from `at` on.
pub open spec fn c_run(name: Seq<u8>, log: Seq<Exchange>, at: int) -> Option<(Outcome, int)> {
    if !has_no_nul(name) {
        Some((Err(CallError::InvalidInput), at))
    } else {
        match send_run(c_string(name), log, at) {
            None => None,
            Some((Err(e), end)) => Some((Err(e), end)),
            Some((Ok(handle), sent_at)) => invoke_run(
                Export::CFormatHelloWorld,
                seq![handle],
                seq![handle],
                false,
                log,
                sent_at,
            ),
        }
    }
}

/// How the length-prefixed call goes, read off the record from `at` on.
pub open spec fn rust_run(name: Seq<u8>, log: Seq<Exchange>, at: int) -> Option<(Outcome, int)> {
    match send_run(name, log, at) {
        None => None,
        Some((Err(e), end)) => Some((Err(e), end)),
        Some((Ok(handle), sent_at)) => invoke_run(
            Export::RustFormatHelloWorld,
            seq![handle, name.len() as u32],
            seq![handle],
            true,
            log,
            sent_at,
        ),
    }
}

/// How the tabular call goes, read off the record from `at` on. Where the
/// guest has no room for the second payload, the first is released again.
pub open spec fn arrow_run(command: Seq<u8>, data: Seq<u8>, log: Seq<Exchange>, at: int) -> Option<
    (Outcome, int),
> {
    if command.len() > u32::MAX || data.len() > u32::MAX {
        Some((Err(CallError::InvalidInput), at))
    } else {
        match send_run(command, log, at) {
            None => None,
            Some((Err(e), end)) => Some((Err(e), end)),
            Some((Ok(command_handle), first)) => match send_run(data, log, first) {
                None => None,
                Some((Err(e), second)) => if e == CallError::Trap {
                    Some((Err(e), second))
                } else {
                    match close_run(seq![command_handle], 0, log, second, 0) {
                        None => None,
                        Some((Err(fault), end)) => Some((Err(fault), end)),
                        Some((Ok(_), end)) => Some((Err(e), end)),
                    }
                },
                Some((Ok(data_handle), second)) => invoke_run(
                    Export::ProcessDataArrow,
                    seq![command_handle, command.len() as u32, data_handle, data.len() as u32],
                    seq![command_handle, data_handle],
                    true,
                    log,
                    second,
                ),
            },
        }
    }
}

/// The text that the nul-terminated call brings back, where its bytes are
/// UTF-8.
pub open spec fn strict_text(outcome: Outcome) -> Result<(Seq<char>, nat), CallError> {
    match outcome {
        Ok((bytes, failures)) => if valid_utf8(bytes) {
            Ok((decode_utf8(bytes), failures))
        } else {
            Err(CallError::InvalidResult)
        },
        Err(e) => Err(e),
    }
}

/// The text that the length-prefixed call brings back: what its bytes decode
/// to, with a replacement character for each malformed part.
pub open spec fn lossy_outcome(outcome: Outcome) -> Result<(Seq<char>, nat), CallError> {
    match outcome {
        Ok((bytes, failures)) => Ok((relaxed_text(bytes), failures)),
        Err(e) => Err(e),
    }
}

/// The nul-terminated call went as the record from `at` to `end` tells, and
/// `r` is the text that its outcome stands for.
pub open spec fn c_text_ran(
    name: Seq<u8>,
    log: Seq<Exchange>,
    at: int,
    end: int,
    r: Result<(Seq<char>, nat), CallError>,
) -> bool {
    &&& c_run(name, log, at) is Some
    &&& c_run(name, log, at).unwrap().1 == end
    &&& strict_text(c_run(name, log, at).unwrap().0) == r
}

/// The length-prefixed call went as the record from `at` to `end` tells, and
/// `r` is the text that its outcome stands for.
pub open spec fn rust_text_ran(
    name: Seq<u8>,
    log: Seq<Exchange>,
    at: int,
    end: int,
    r: Result<(Seq<char>, nat), CallError>,
) -> bool {
    &&& rust_run(name, log, at) is Some
    &&& rust_run(name, log, at).unwrap().1 == end
    &&& lossy_outcome(rust_run(name, log, at).unwrap().0) == r
}

/// There is a record of exchanges with the guest by which the
/// nul-terminated call for `name` goes from its start to its end and brings
/// `r`.
pub open spec fn c_text_possible(name: Seq<u8>, r: Result<(Seq<char>, nat), CallError>) -> bool {
    exists|log: Seq<Exchange>| #[trigger] c_text_ran(name, log, 0, log.len() as int, r)
}

/// There is a record of exchanges with the guest by which the
/// length-prefixed call for `name` goes from its start to its end and brings
/// `r`.
pub open spec fn rust_text_possible(name: Seq<u8>, r: Result<(Seq<char>, nat), CallError>) -> bool {
    exists|log: Seq<Exchange>| #[trigger] rust_text_ran(name, log, 0, log.len() as int, r)
}

/// The batches that the outcome of a tabular call stands for.
pub open spec fn batches_of(outcome: Outcome) -> Result<(Seq<BatchView>, nat), CallError> {
    match outcome {
        Ok((bytes, failures)) => match decoded(bytes) {
            Some(views) => Ok((views, failures)),
            None => Err(CallError::InvalidResult),
        },
        Err(e) => Err(e),
    }
}

/// The tabular call went as the record from `at` to `end` tells, and `r` is
/// what its outcome decodes to.
pub open spec fn arrow_ran(
    command: Seq<u8>,
    data: Seq<u8>,
    log: Seq<Exchange>,
    at: int,
    end: int,
    r: Result<(Seq<BatchView>, nat), CallError>,
) -> bool {
    &&& arrow_run(command, data, log, at) is Some
    &&& arrow_run(command, data, log, at).unwrap().1 == end
    &&& batches_of(arrow_run(command, data, log, at).unwrap().0) == r
}

/// There is a record of exchanges with the guest by which the tabular call
/// goes from its start to its end and brings `r`.
pub open spec fn arrow_possible(
    command: Seq<u8>,
    data: Seq<u8>,
    r: Result<(Seq<BatchView>, nat), CallError>,
) -> bool {
    exists|log: Seq<Exchange>| #[trigger] arrow_ran(command, data, log, 0, log.len() as int, r)
}

/// The outcome of a call for batches as a value of the model.
pub open spec fn batches_outcome_of(r: Result<Completed<Vec<Batch>>, CallError>) -> Result<
    (Seq<BatchView>, nat),
    CallError,
> {
    match r {
        Ok(done) => Ok((batch_views(done.value@), done.cleanup_failures as nat)),
        Err(e) => Err(e),
    }
}

/// The record of a call that ended with a fault at its first step, the
/// allocation of `size` bytes.
pub open spec fn faulted_at_once(size: u32) -> Seq<Exchange> {
    seq![
        Exchange::Invoke {
            export: Export::Allocate,
            args: seq![size],
            answer: Err(CallError::Trap),
        },
    ]
}

/// The outcome of a call for text as a value of the model.
pub open spec fn text_outcome_of(r: Result<Completed<String>, CallError>) -> Result<
    (Seq<char>, nat),
    CallError,
> {
    match r {
        Ok(done) => Ok((done.value@, done.cleanup_failures as nat)),
        Err(e) => Err(e),
    }
}

/// Calls the scalar export and gives its value.
pub fn call_answer(sandbox: &mut Sandbox) -> (r: Result<i32, CallError>)
    requires
        old(sandbox).wf(),
    ensures
        final(sandbox).wf(),
        final(sandbox).model() is Some <==> old(sandbox).model() is Some,
        r is Err ==> r == Err::<i32, CallError>(CallError::Trap),
        final(sandbox).log().len() == old(sandbox).log().len() + 1,
        final(sandbox).log().drop_last() == old(sandbox).log(),
        match invoke_at(
            final(sandbox).log(),
            old(sandbox).log().len() as int,
            Export::Answer,
            Seq::empty(),
        ) {
            Some(Ok(word)) => r == Ok::<i32, CallError>(value_of(word)),
            Some(Err(e)) => r == Err::<i32, CallError>(e),
            None => false,
        },
        old(sandbox).model() is Some ==> r == Ok::<i32, CallError>(42) && final(sandbox).model()
            == old(sandbox).model(),
{
    let args: Vec<u32> = Vec::new();
    assert(args@ =~= Seq::<u32>::empty());
    let ghost before = sandbox.log();
    let answer: Result<u32, CallError> = sandbox.invoke(Export::Answer, &args);
    assert(sandbox.log().drop_last() =~= before);
    match answer {
        Ok(word) => Ok(to_value(word)),
        Err(e) => Err(e),
    }
}

/// Invokes `export` with `args` and completes the call with the word that it
/// answers: as the offset of a packed pair where `packed` is set, else as
/// the offset of nul-terminated text.
fn finish(
    sandbox: &mut Sandbox,
    export: Export,
    args: &Vec<u32>,
    session: CallSession,
    packed: bool,
) -> (r: Result<Completed<Vec<u8>>, CallError>)
    requires
        old(sandbox).wf(),
    ensures
        final(sandbox).wf(),
        final(sandbox).model() is Some <==> old(sandbox).model() is Some,
        r is Err ==> r->Err_0 == CallError::Trap || r->Err_0 == CallError::NoResult,
        r is Ok ==> r->Ok_0.cleanup_failures <= session@.len() + (if packed {
            2nat
        } else {
            1nat
        }),
        r is Ok && !packed ==> has_no_nul(r->Ok_0.value@),
        extends(old(sandbox).log(), final(sandbox).log()),
        forall|later: Seq<Exchange>| #[trigger]
            extends(final(sandbox).log(), later) ==> invoke_run(
                export,
                args@,
                session@,
                packed,
                later,
                old(sandbox).log().len() as int,
            ) == Some((outcome_of(r), final(sandbox).log().len() as int)),
        old(sandbox).model() matches Some(guest) ==> match crate::sandbox::reference_invoke(
            guest,
            export,
            args@,
        ) {
            Some((answered, reply)) => outcome_of(r) == call_end(
                answered,
                session@,
                shape(packed, reply),
            ).1 && final(sandbox).model() == Some(
                call_end(answered, session@, shape(packed, reply)).0,
            ),
            None => r is Err && r->Err_0 == CallError::Trap && final(sandbox).model() == Some(
                guest,
            ),
        },
{
    let ghost before = sandbox.log();
    let ghost at = before.len() as int;
    let answer: Result<u32, CallError> = sandbox.invoke(export, args);
    let ghost asked = sandbox.log();
    assert(asked.subrange(0, at) =~= before);
    let reply: u32 = match answer {
        Ok(word) => word,
        Err(e) => {
            proof {
                assert forall|later: Seq<Exchange>| #[trigger] extends(asked, later) implies invoke_at(
                    later,
                    at,
                    export,
                    args@,
                ) == Some(answer) by {
                    lemma_extends(asked, later, at);
                }
            }
            return Err(e);
        },
    };
    let value: MarshaledValue = if packed {
        MarshaledValue::PackedMultiValue { offset: reply }
    } else {
        MarshaledValue::NulTerminatedBytes { offset: reply }
    };
    let r = complete(sandbox, session, value);
    proof {
        let now = sandbox.log();
        lemma_extends_twice(before, asked, now);
        assert forall|later: Seq<Exchange>| #[trigger] extends(now, later) implies invoke_at(
            later,
            at,
            export,
            args@,
        ) == Some(answer) by {
            lemma_extends_twice(asked, now, later);
            lemma_extends(asked, later, at);
        }
    }
    r
}

/// The shape in which a call sees the word that its export answers.
pub open spec fn shape(packed: bool, reply: u32) -> MarshaledValue {
    if packed {
        MarshaledValue::PackedMultiValue { offset: reply }
    } else {
        MarshaledValue::NulTerminatedBytes { offset: reply }
    }
}

/// Sends `name` as nul-terminated text to the nul-terminated greeter and
/// gives the text that it answers, read up to its terminator.
pub fn call_c_bytes(sandbox: &mut Sandbox, name: &[u8]) -> (r: Result<
    Completed<Vec<u8>>,
    CallError,
>)
    requires
        old(sandbox).wf(),
    ensures
        final(sandbox).wf(),
        final(sandbox).model() is Some <==> old(sandbox).model() is Some,
        r == Err::<Completed<Vec<u8>>, CallError>(CallError::InvalidInput) <==> !has_no_nul(name@)
            || name@.len() >= u32::MAX,
        r is Ok ==> has_no_nul(r->Ok_0.value@) && r->Ok_0.cleanup_failures <= 2,
        extends(old(sandbox).log(), final(sandbox).log()),
        forall|later: Seq<Exchange>| #[trigger]
            extends(final(sandbox).log(), later) ==> c_run(
                name@,
                later,
                old(sandbox).log().len() as int,
            ) == Some((outcome_of(r), final(sandbox).log().len() as int)),
        old(sandbox).model() matches Some(guest) ==> outcome_of(r) == c_call(guest, name@).1
            && final(sandbox).model() == Some(c_call(guest, name@).0),
{
    let ghost before = sandbox.log();
    assert(before.subrange(0, before.len() as int) =~= before);
    if find_nul(name).is_some() {
        return Err(CallError::InvalidInput);
    }
    let input: Vec<u8> = encode_nul_terminated(name);
    let handle: u32 = match send(sandbox, input.as_slice()) {
        Ok(handle) => handle,
        Err(e) => { return Err(e); },
    };
    let mut session: CallSession = CallSession::new();
    session.track(handle);
    assert(session@ =~= seq![handle]);
    let mut args: Vec<u32> = Vec::new();
    args.push(handle);
    assert(args@ =~= seq![handle]);
    let ghost sent_at = sandbox.log();
    let r = finish(sandbox, Export::CFormatHelloWorld, &args, session, false);
    proof {
        let now = sandbox.log();
        lemma_extends_twice(before, sent_at, now);
        assert forall|later: Seq<Exchange>| #[trigger] extends(now, later) implies send_run(
            c_string(name@),
            later,
            before.len() as int,
        ) == Some((Ok::<u32, CallError>(handle), sent_at.len() as int)) by {
            lemma_extends_twice(sent_at, now, later);
        }
    }
    r
}

/// Sends `name` with its length to the length-prefixed greeter and gives the
/// bytes that the packed pair of its answer points at.
pub fn call_rust_bytes(sandbox: &mut Sandbox, name: &[u8]) -> (r: Result<
    Completed<Vec<u8>>,
    CallError,
>)
    requires
        old(sandbox).wf(),
    ensures
        final(sandbox).wf(),
        final(sandbox).model() is Some <==> old(sandbox).model() is Some,
        r == Err::<Completed<Vec<u8>>, CallError>(CallError::InvalidInput) <==> name@.len()
            > u32::MAX,
        r is Ok ==> r->Ok_0.cleanup_failures <= 3,
        extends(old(sandbox).log(), final(sandbox).log()),
        forall|later: Seq<Exchange>| #[trigger]
            extends(final(sandbox).log(), later) ==> rust_run(
                name@,
                later,
                old(sandbox).log().len() as int,
            ) == Some((outcome_of(r), final(sandbox).log().len() as int)),
        old(sandbox).model() matches Some(guest) ==> outcome_of(r) == rust_call(guest, name@).1
            && final(sandbox).model() == Some(rust_call(guest, name@).0),
{
    let ghost before = sandbox.log();
    let handle: u32 = match send(sandbox, name) {
        Ok(handle) => handle,
        Err(e) => { return Err(e); },
    };
    let mut session: CallSession = CallSession::new();
    session.track(handle);
    assert(session@ =~= seq![handle]);
    let mut args: Vec<u32> = Vec::new();
    args.push(handle);
    args.push(name.len() as u32);
    assert(args@ =~= seq![handle, name@.len() as u32]);
    let ghost sent_at = sandbox.log();
    let r = finish(sandbox, Export::RustFormatHelloWorld, &args, session, true);
    proof {
        let now = sandbox.log();
        lemma_extends_twice(before, sent_at, now);
        assert forall|later: Seq<Exchange>| #[trigger] extends(now, later) implies send_run(
            name@,
            later,
            before.len() as int,
        ) == Some((Ok::<u32, CallError>(handle), sent_at.len() as int)) by {
            lemma_extends_twice(sent_at, now, later);
        }
    }
    r
}

/// Sends a command payload and a data payload, each with its length, to the
/// tabular adapter and gives the bytes that the packed pair of its answer
/// points at. Where the guest has no room for the second payload, the first
/// is released again; after a fault the guest is not called again.
pub fn call_process_data_arrow(sandbox: &mut Sandbox, command: &[u8], data: &[u8]) -> (r: Result<
    Completed<Vec<u8>>,
    CallError,
>)
    requires
        old(sandbox).wf(),
    ensures
        final(sandbox).wf(),
        final(sandbox).model() is Some <==> old(sandbox).model() is Some,
        r == Err::<Completed<Vec<u8>>, CallError>(CallError::InvalidInput) <==> command@.len()
            > u32::MAX || data@.len() > u32::MAX,
        r is Ok ==> r->Ok_0.cleanup_failures <= 4,
        extends(old(sandbox).log(), final(sandbox).log()),
        forall|later: Seq<Exchange>| #[trigger]
            extends(final(sandbox).log(), later) ==> arrow_run(
                command@,
                data@,
                later,
                old(sandbox).log().len() as int,
            ) == Some((outcome_of(r), final(sandbox).log().len() as int)),
        old(sandbox).model() matches Some(guest) ==> outcome_of(r) == arrow_call(
            guest,
            command@,
            data@,
        ).1 && final(sandbox).model() == Some(arrow_call(guest, command@, data@).0),
{
    let ghost before = sandbox.log();
    assert(before.subrange(0, before.len() as int) =~= before);
    if command.len() > u32::MAX as usize || data.len() > u32::MAX as usize {
        return Err(CallError::InvalidInput);
    }
    let command_handle: u32 = match send(sandbox, command) {
        Ok(handle) => handle,
        Err(e) => { return Err(e); },
    };
    let ghost first = sandbox.log();
    let mut session: CallSession = CallSession::new();
    session.track(command_handle);
    let sent_data: Result<u32, CallError> = send(sandbox, data);
    let ghost second = sandbox.log();
    proof {
        lemma_extends_twice(before, first, second);
        assert forall|later: Seq<Exchange>| #[trigger] extends(second, later) implies send_run(
            command@,
            later,
            before.len() as int,
        ) == Some((Ok::<u32, CallError>(command_handle), first.len() as int)) by {
            lemma_extends_twice(first, second, later);
        }
    }
    let data_handle: u32 = match sent_data {
        Ok(handle) => handle,
        Err(CallError::Trap) => { return Err(CallError::Trap); },
        Err(e) => {
            proof {
                assert(session@ =~= seq![command_handle]);
                assert(session@.drop_last() =~= Seq::<u32>::empty());
                if sandbox.model() is Some {
                    let loaded = sandbox.model()->0;
                    assert(released_all((loaded, 0), session@.drop_last()) == (loaded, 0nat));
                    assert(released_all((loaded, 0), session@) == released(
                        (loaded, 0nat),
                        command_handle,
                    ));
                }
            }
            let closed: Result<usize, CallError> = session.close(sandbox);
            proof {
                let now = sandbox.log();
                lemma_extends_twice(before, second, now);
                assert forall|later: Seq<Exchange>| #[trigger] extends(now, later) implies send_run(
                    command@,
                    later,
                    before.len() as int,
                ) == Some((Ok::<u32, CallError>(command_handle), first.len() as int))
                    && send_run(data@, later, first.len() as int) == Some(
                    (Err::<u32, CallError>(e), second.len() as int),
                ) by {
                    lemma_extends_twice(second, now, later);
                }
            }
            return match closed {
                Ok(_) => Err(e),
                Err(fault) => Err(fault),
            };
        },
    };
    session.track(data_handle);
    assert(session@ =~= seq![command_handle, data_handle]);
    let mut args: Vec<u32> = Vec::new();
    args.push(command_handle);
    args.push(command.len() as u32);
    args.push(data_handle);
    args.push(data.len() as u32);
    assert(args@ =~= seq![
        command_handle,
        command@.len() as u32,
        data_handle,
        data@.len() as u32,
    ]);
    let r = finish(sandbox, Export::ProcessDataArrow, &args, session, true);
    proof {
        let now = sandbox.log();
        lemma_extends_twice(before, second, now);
        assert forall|later: Seq<Exchange>| #[trigger] extends(now, later) implies send_run(
            command@,
            later,
            before.len() as int,
        ) == Some((Ok::<u32, CallError>(command_handle), first.len() as int)) && send_run(
            data@,
            later,
            first.len() as int,
        ) == Some((Ok::<u32, CallError>(data_handle), second.len() as int)) by {
            lemma_extends_twice(second, now, later);
        }
    }
    r
}

/// Greets `name` through the nul-terminated greeter.
pub fn call_c_format_hello_world(sandbox: &mut Sandbox, name: &str) -> (r: Result<
    Completed<String>,
    CallError,
>)
    requires
        old(sandbox).wf(),
    ensures
        final(sandbox).wf(),
        final(sandbox).model() is Some <==> old(sandbox).model() is Some,
        r == Err::<Completed<String>, CallError>(CallError::InvalidInput) <==> !has_no_nul(
            encode_utf8(name@),
        ) || encode_utf8(name@).len() >= u32::MAX,
        extends(old(sandbox).log(), final(sandbox).log()),
        forall|later: Seq<Exchange>| #[trigger]
            extends(final(sandbox).log(), later) ==> c_text_ran(
                encode_utf8(name@),
                later,
                old(sandbox).log().len() as int,
                final(sandbox).log().len() as int,
                text_outcome_of(r),
            ),
        old(sandbox).model() matches Some(guest) ==> text_outcome_of(r) == strict_text(
            c_call(guest, encode_utf8(name@)).1,
        ) && final(sandbox).model() == Some(c_call(guest, encode_utf8(name@)).0),
{
    let bytes: Vec<u8> = name.as_bytes_vec();
    match call_c_bytes(sandbox, bytes.as_slice()) {
        Ok(done) => {
            let failures: usize = done.cleanup_failures;
            let ghost reply = done.value@;
            match string_from_utf8(done.value) {
                Some(text) => {
                    proof {
                        vstd::utf8::encode_utf8_decode_utf8(text@);
                    }
                    Ok(Completed { value: text, cleanup_failures: failures })
                },
                None => Err(CallError::InvalidResult),
            }
        },
        Err(e) => Err(e),
    }
}

/// Greets `name` through the length-prefixed greeter.
pub fn call_rust_format_hello_world(sandbox: &mut Sandbox, name: &str) -> (r: Result<
    Completed<String>,
    CallError,
>)
    requires
        old(sandbox).wf(),
    ensures
        final(sandbox).wf(),
        final(sandbox).model() is Some <==> old(sandbox).model() is Some,
        r == Err::<Completed<String>, CallError>(CallError::InvalidInput) <==> encode_utf8(
            name@,
        ).len() > u32::MAX,
        extends(old(sandbox).log(), final(sandbox).log()),
        forall|later: Seq<Exchange>| #[trigger]
            extends(final(sandbox).log(), later) ==> rust_text_ran(
                encode_utf8(name@),
                later,
                old(sandbox).log().len() as int,
                final(sandbox).log().len() as int,
                text_outcome_of(r),
            ),
        old(sandbox).model() matches Some(guest) ==> text_outcome_of(r) == lossy_outcome(
            rust_call(guest, encode_utf8(name@)).1,
        ) && final(sandbox).model() == Some(rust_call(guest, encode_utf8(name@)).0),
{
    let bytes: Vec<u8> = name.as_bytes_vec();
    match call_rust_bytes(sandbox, bytes.as_slice()) {
        Ok(done) => {
            let text: String = string_from_utf8_lossy(done.value.as_slice());
            Ok(Completed { value: text, cleanup_failures: done.cleanup_failures })
        },
        Err(e) => Err(e),
    }
}

/// A sandbox on a fresh instance of `module` in the engine, which gets
/// `arguments` as its program arguments. A module that the engine cannot
/// instantiate is `CallError::Trap`, and so is an engine that is configured
/// for asynchronous calls, which is not asked to instantiate anything.
pub fn connect(engine: &Engine, module: &Module, arguments: &Vec<String>) -> (r: Result<
    Sandbox,
    CallError,
>)
    ensures
        r is Err ==> r->Err_0 == CallError::Trap,
        r is Ok ==> r->Ok_0.wf() && r->Ok_0.model() is None && r->Ok_0.log()
            == Seq::<Exchange>::empty(),
        runs_async(*engine) ==> r is Err,
{
    if engine_is_async(engine) {
        return Err(CallError::Trap);
    }
    match instantiate(engine, module, arguments) {
        Ok(guest) => Ok(Sandbox::on(Guest::Wasm(guest))),
        Err(_) => Err(CallError::Trap),
    }
}

/// Calls the scalar export of a fresh instance of `module`.
pub fn wrapper_answer(engine: &Engine, module: &Module, arguments: &Vec<String>) -> (r: Result<
    i32,
    CallError,
>)
    ensures
        r is Err ==> r == Err::<i32, CallError>(CallError::Trap),
{
    let mut sandbox: Sandbox = match connect(engine, module, arguments) {
        Ok(sandbox) => sandbox,
        Err(e) => { return Err(e); },
    };
    call_answer(&mut sandbox)
}

/// Greets `func_name` through the nul-terminated greeter of a fresh instance
/// of `module`.
pub fn wrapper_wasm_c_format_hello_world(
    engine: &Engine,
    module: &Module,
    arguments: &Vec<String>,
    func_name: &str,
) -> (r: Result<Completed<String>, CallError>)
    ensures
        r == Err::<Completed<String>, CallError>(CallError::InvalidInput) <==> !has_no_nul(
            encode_utf8(func_name@),
        ) || encode_utf8(func_name@).len() >= u32::MAX,
        r is Ok ==> has_no_nul(encode_utf8(r->Ok_0.value@)) && r->Ok_0.cleanup_failures <= 2,
        c_text_possible(encode_utf8(func_name@), text_outcome_of(r)),
{
    let bytes: Vec<u8> = func_name.as_bytes_vec();
    let ghost none = Seq::<Exchange>::empty();
    if find_nul(bytes.as_slice()).is_some() || bytes.len() >= u32::MAX as usize {
        assert(c_text_ran(
            bytes@,
            none,
            0,
            none.len() as int,
            Err::<(Seq<char>, nat), CallError>(CallError::InvalidInput),
        ));
        return Err(CallError::InvalidInput);
    }
    let mut sandbox: Sandbox = match connect(engine, module, arguments) {
        Ok(sandbox) => sandbox,
        Err(e) => {
            proof {
                let fault = faulted_at_once((bytes@.len() + 1) as u32);
                assert(c_text_ran(
                    bytes@,
                    fault,
                    0,
                    fault.len() as int,
                    Err::<(Seq<char>, nat), CallError>(CallError::Trap),
                ));
            }
            return Err(e);
        },
    };
    let called = call_c_bytes(&mut sandbox, bytes.as_slice());
    let ghost record = sandbox.log();
    assert(record.subrange(0, record.len() as int) =~= record);
    assert(extends(record, record));
    let r: Result<Completed<String>, CallError> = match called {
        Ok(done) => {
            let failures: usize = done.cleanup_failures;
            match string_from_utf8(done.value) {
                Some(text) => {
                    proof {
                        vstd::utf8::encode_utf8_decode_utf8(text@);
                    }
                    Ok(Completed { value: text, cleanup_failures: failures })
                },
                None => Err(CallError::InvalidResult),
            }
        },
        Err(e) => Err(e),
    };
    assert(c_text_ran(bytes@, record, 0, record.len() as int, text_outcome_of(r)));
    r
}

/// Greets `func_name` through the length-prefixed greeter of a fresh
/// instance of `module`.
pub fn wrapper_wasm_rust_format_hello_world(
    engine: &Engine,
    module: &Module,
    arguments: &Vec<String>,
    func_name: String,
) -> (r: Result<Completed<String>, CallError>)
    ensures
        r == Err::<Completed<String>, CallError>(CallError::InvalidInput) <==> encode_utf8(
            func_name@,
        ).len() > u32::MAX,
        r is Ok ==> r->Ok_0.cleanup_failures <= 3,
        rust_text_possible(encode_utf8(func_name@), text_outcome_of(r)),
{
    let bytes: Vec<u8> = func_name.as_str().as_bytes_vec();
    let ghost none = Seq::<Exchange>::empty();
    if bytes.len() > u32::MAX as usize {
        assert(rust_text_ran(
            bytes@,
            none,
            0,
            none.len() as int,
            Err::<(Seq<char>, nat), CallError>(CallError::InvalidInput),
        ));
        return Err(CallError::InvalidInput);
    }
    let mut sandbox: Sandbox = match connect(engine, module, arguments) {
        Ok(sandbox) => sandbox,
        Err(e) => {
            proof {
                let fault = faulted_at_once(bytes@.len() as u32);
                assert(rust_text_ran(
                    bytes@,
                    fault,
                    0,
                    fault.len() as int,
                    Err::<(Seq<char>, nat), CallError>(CallError::Trap),
                ));
            }
            return Err(e);
        },
    };
    let called = call_rust_bytes(&mut sandbox, bytes.as_slice());
    let ghost record = sandbox.log();
    assert(record.subrange(0, record.len() as int) =~= record);
    assert(extends(record, record));
    let r: Result<Completed<String>, CallError> = match called {
        Ok(done) => {
            let text: String = string_from_utf8_lossy(done.value.as_slice());
            Ok(Completed { value: text, cleanup_failures: done.cleanup_failures })
        },
        Err(e) => Err(e),
    };
    assert(rust_text_ran(bytes@, record, 0, record.len() as int, text_outcome_of(r)));
    r
}

/// What the tabular call brought back, decoded; `InvalidResult` where the
/// bytes are no stream of batches.
pub fn decode_reply(done: Completed<Vec<u8>>) -> (r: Result<Completed<Vec<Batch>>, CallError>)
    ensures
        match decoded(done.value@) {
            Some(views) => r is Ok && batch_views(r->Ok_0.value@) == views
                && r->Ok_0.cleanup_failures == done.cleanup_failures,
            None => r == Err::<Completed<Vec<Batch>>, CallError>(CallError::InvalidResult),
        },
{
    match decode_stream(done.value.as_slice()) {
        Some(batches) => Ok(Completed { value: batches, cleanup_failures: done.cleanup_failures }),
        None => Err(CallError::InvalidResult),
    }
}

/// Whether `payload` is an encoded batch that a 32-bit length can declare.
pub open spec fn sendable(payload: Option<Seq<u8>>) -> bool {
    payload is Some && payload.unwrap().len() <= u32::MAX
}

/// Sends the example command and the example record to the tabular adapter
/// of a fresh instance of `module`, and gives the batches of its answer.
pub fn wrapper_wasm_process_data_arrow(
    engine: &Engine,
    module: &Module,
    arguments: &Vec<String>,
) -> (r: Result<Completed<Vec<Batch>>, CallError>)
    ensures
        r == Err::<Completed<Vec<Batch>>, CallError>(CallError::InvalidInput) <==> !sendable(
            encoded(example_command_view()),
        ) || !sendable(encoded(example_data_view())),
        r is Ok ==> r->Ok_0.cleanup_failures <= 4,
        sendable(encoded(example_command_view())) && sendable(encoded(example_data_view()))
            ==> arrow_possible(
            encoded(example_command_view()).unwrap(),
            encoded(example_data_view()).unwrap(),
            batches_outcome_of(r),
        ),
{
    let command: Vec<u8> = match create_arrow_example_meta_data() {
        Some(bytes) => bytes,
        None => { return Err(CallError::InvalidInput); },
    };
    let data: Vec<u8> = match create_arrow_example_data() {
        Some(bytes) => bytes,
        None => { return Err(CallError::InvalidInput); },
    };
    if command.len() > u32::MAX as usize || data.len() > u32::MAX as usize {
        return Err(CallError::InvalidInput);
    }
    let mut sandbox: Sandbox = match connect(engine, module, arguments) {
        Ok(sandbox) => sandbox,
        Err(e) => {
            proof {
                let fault = faulted_at_once(command@.len() as u32);
                assert(arrow_ran(
                    command@,
                    data@,
                    fault,
                    0,
                    fault.len() as int,
                    Err::<(Seq<BatchView>, nat), CallError>(CallError::Trap),
                ));
            }
            return Err(e);
        },
    };
    let called = call_process_data_arrow(&mut sandbox, command.as_slice(), data.as_slice());
    let ghost record = sandbox.log();
    assert(record.subrange(0, record.len() as int) =~= record);
    assert(extends(record, record));
    let r: Result<Completed<Vec<Batch>>, CallError> = match called {
        Ok(done) => decode_reply(done),
        Err(e) => Err(e),
    };
    assert(arrow_ran(command@, data@, record, 0, record.len() as int, batches_outcome_of(r)));
    r
}

} // verus!
