//! The steps of one call into a guest, as the host takes them: allocate a
//! guest buffer for each input and write the input, decode what the returned
//! word points at, and release every buffer that the call touched.
//!
//! A call goes through its steps in one order: it allocates and writes
//! (`send`), invokes, decodes (`resolve`), and releases (`CallSession::close`).
//! An engine fault at any step ends the call at once. The sentinel `0` ends
//! it without a read of guest memory, after the inputs are released. A
//! session is used up by `complete` and by `close`, so nothing can reach the
//! guest through it once the call has ended.
//!
//! Each function here works on any sandbox, and states over the sandbox's
//! record of exchanges what it asked of the guest and what it made of each
//! answer: the `*_run` functions read a call off the record. Of the
//! reference guest each function states the outcome exactly as well.
use crate::memory::{zeros, GuestState};
use crate::sandbox::{
    extends, invoke_at, lemma_extends, lemma_extends_twice, read_answer, read_at, to_value,
    value_of, write_at, CallError, Exchange, Export, Sandbox,
};
use crate::wire::{
    has_no_nul, lemma_first_nul_is, lemma_first_nul_none, text_at, unpack_metadata, unpacked,
    METADATA_SIZE,
};
use vstd::bytes::{spec_u32_to_le_bytes, u32_to_le_bytes};
use vstd::prelude::*;

verus! {

/// What a call brought back, and how many of the buffers it touched the
/// guest would not release. A buffer that is not released does not undo the
/// result.
#[derive(Debug)]
pub struct Completed<T> {
    pub value: T,
    pub cleanup_failures: usize,
}

/// How a call on the reference guest ends: the bytes that came back and the
/// count of failed releases, or the reason for which nothing came back.
pub type Outcome = Result<(Seq<u8>, nat), CallError>;

/// The outcome of a call as a value of the model.
pub open spec fn outcome_of(r: Result<Completed<Vec<u8>>, CallError>) -> Outcome {
    match r {
        Ok(done) => Ok((done.value@, done.cleanup_failures as nat)),
        Err(e) => Err(e),
    }
}

/// How a value crosses the boundary when one returned word has to stand for
/// it.
#[derive(Clone, Copy, Debug, PartialEq, Eq, Structural)]
pub enum MarshaledValue {
    /// The word is the value.
    Scalar(u32),
    /// The word is the offset of bytes that end before the first zero byte.
    NulTerminatedBytes { offset: u32 },
    /// Offset and length are both given.
    LengthPrefixedBytes { offset: u32, length: u32 },
    /// The word is the offset of a packed pair of offset and length, which in
    /// turn says where the bytes are.
    PackedMultiValue { offset: u32 },
}

impl MarshaledValue {
    /// The value points at offset `0`: there is no result.
    pub open spec fn spec_is_sentinel(self) -> bool {
        match self {
            MarshaledValue::Scalar(_) => false,
            MarshaledValue::NulTerminatedBytes { offset } => offset == 0,
            MarshaledValue::LengthPrefixedBytes { offset, length } => offset == 0,
            MarshaledValue::PackedMultiValue { offset } => offset == 0,
        }
    }

    /// The number of guest buffers that hold the value.
    pub open spec fn buffers(self) -> nat {
        match self {
            MarshaledValue::Scalar(_) => 0,
            MarshaledValue::NulTerminatedBytes { offset } => 1,
            MarshaledValue::LengthPrefixedBytes { offset, length } => 1,
            MarshaledValue::PackedMultiValue { offset } => 2,
        }
    }

    /// Whether the value points at offset `0`, which no result does.
    pub fn is_sentinel(&self) -> (sentinel: bool)
        ensures
            sentinel == self.spec_is_sentinel(),
    {
        match self {
            MarshaledValue::Scalar(_) => false,
            MarshaledValue::NulTerminatedBytes { offset } => *offset == 0,
            MarshaledValue::LengthPrefixedBytes { offset, length } => *offset == 0,
            MarshaledValue::PackedMultiValue { offset } => *offset == 0,
        }
    }
}

/// What sending `payload` to the reference guest leaves and gives: a zeroed
/// buffer of the payload's size is allocated, and the payload written to it.
pub open spec fn sent(guest: GuestState, payload: Seq<u8>) -> (GuestState, Result<u32, CallError>) {
    if payload.len() > u32::MAX {
        (guest, Err(CallError::InvalidInput))
    } else {
        let (next, handle) = guest.after_allocate(zeros(payload.len()));
        if handle == 0 {
            (next, Err(CallError::OutOfMemory))
        } else if !next.in_bounds(handle, payload.len()) {
            (next, Err(CallError::Trap))
        } else {
            (next.write(handle, payload), Ok(handle))
        }
    }
}

/// What releasing `handle` leaves, and the count of failures so far.
pub open spec fn released(state: (GuestState, nat), handle: u32) -> (GuestState, nat) {
    let (next, status) = state.0.after_deallocate(handle);
    (
        next,
        if status == 0 {
            state.1
        } else {
            state.1 + 1
        },
    )
}

/// What releasing each of `handles` in turn leaves, and the count of
/// failures.
pub open spec fn released_all(state: (GuestState, nat), handles: Seq<u32>) -> (GuestState, nat)
    decreases handles.len(),
{
    if handles.len() == 0 {
        state
    } else {
        released(released_all(state, handles.drop_last()), handles.last())
    }
}

/// What the packed pair at `handle` points at in the reference guest: the
/// offset and the bytes, or `None` where a read leaves linear memory.
pub open spec fn packed_at(guest: GuestState, handle: u32) -> Option<(u32, Seq<u8>)> {
    if guest.in_bounds(handle, METADATA_SIZE as nat) {
        let pair = unpacked(guest.read(handle, METADATA_SIZE as nat))->0;
        if guest.in_bounds(pair.0, pair.1 as nat) {
            Some((pair.0, guest.read(pair.0, pair.1 as nat)))
        } else {
            None
        }
    } else {
        None
    }
}

/// The bytes that `value` stands for in the reference guest, and the handles
/// of the buffers that hold them; `None` where a read leaves linear memory.
pub open spec fn resolved(guest: GuestState, value: MarshaledValue) -> Option<(Seq<u8>, Seq<u32>)> {
    match value {
        MarshaledValue::Scalar(word) => Some((spec_u32_to_le_bytes(word), Seq::empty())),
        MarshaledValue::NulTerminatedBytes { offset } => match text_at(guest.memory, offset) {
            Some(text) => Some((text, seq![offset])),
            None => None,
        },
        MarshaledValue::LengthPrefixedBytes { offset, length } => if guest.in_bounds(
            offset,
            length as nat,
        ) {
            Some((guest.read(offset, length as nat), seq![offset]))
        } else {
            None
        },
        MarshaledValue::PackedMultiValue { offset } => match packed_at(guest, offset) {
            Some((ptr, data)) => Some((data, seq![offset, ptr])),
            None => None,
        },
    }
}

/// How a call ends on the reference guest once the module has answered.
/// Where the answer is the sentinel, the `inputs` are released and there is
/// no result, without a read of guest memory. Where a read leaves linear
/// memory, the call stops there. Else the result is read, and the inputs and
/// the buffers of the result are released.
pub open spec fn call_end(answered: GuestState, inputs: Seq<u32>, value: MarshaledValue) -> (
    GuestState,
    Outcome,
) {
    if value.spec_is_sentinel() {
        (released_all((answered, 0), inputs).0, Err(CallError::NoResult))
    } else {
        match resolved(answered, value) {
            None => (answered, Err(CallError::Trap)),
            Some((bytes, held)) => {
                let end = released_all((answered, 0), inputs + held);
                (end.0, Ok((bytes, end.1)))
            },
        }
    }
}

/// What the allocator's answer means to the host: a handle of `0` is no
/// buffer.
pub open spec fn allocation_of(answer: Result<u32, CallError>) -> Result<u32, CallError> {
    match answer {
        Ok(handle) => if handle == 0 {
            Err(CallError::OutOfMemory)
        } else {
            Ok(handle)
        },
        Err(e) => Err(e),
    }
}

/// What the answer to a release means to the host: the word `0` is success,
/// every other word a release that the guest refused, which is counted and
/// no more.
pub open spec fn release_of(answer: Result<u32, CallError>) -> Result<bool, CallError> {
    match answer {
        Ok(word) => Ok(word == 0),
        Err(e) => Err(e),
    }
}

/// The status that the answer to a release stands for.
pub open spec fn status_of(answer: Result<u32, CallError>) -> Result<i32, CallError> {
    match answer {
        Ok(word) => Ok(value_of(word)),
        Err(e) => Err(e),
    }
}

/// How `send` goes, read off the record from `at` on: the allocation of a
/// buffer of the payload's size, then, where there is a handle, the write of
/// exactly the payload at that handle. Gives the result and the place in the
/// record where it ends; `None` where the record holds something else.
pub open spec fn send_run(payload: Seq<u8>, log: Seq<Exchange>, at: int) -> Option<
    (Result<u32, CallError>, int),
> {
    if payload.len() > u32::MAX {
        Some((Err(CallError::InvalidInput), at))
    } else {
        match invoke_at(log, at, Export::Allocate, seq![payload.len() as u32]) {
            None => None,
            Some(answer) => match allocation_of(answer) {
                Err(e) => Some((Err(e), at + 1)),
                Ok(handle) => match write_at(log, at + 1, handle, payload) {
                    None => None,
                    Some(Ok(_)) => Some((Ok(handle), at + 2)),
                    Some(Err(e)) => Some((Err(e), at + 2)),
                },
            },
        }
    }
}

/// How `release` goes, read off the record at `at`.
pub open spec fn release_run(handle: u32, log: Seq<Exchange>, at: int) -> Option<
    (Result<bool, CallError>, int),
> {
    match invoke_at(log, at, Export::Deallocate, seq![handle]) {
        None => None,
        Some(answer) => Some((release_of(answer), at + 1)),
    }
}

/// How the scan for text goes, read off the record from `at` on, with `text`
/// found so far: one byte is read at a time, from `start` on, up to the first
/// zero byte. A fault ends it, and so does the end of the address space.
pub open spec fn scan_run(start: u32, log: Seq<Exchange>, at: int, text: Seq<u8>) -> Option<
    (Result<Seq<u8>, CallError>, int),
>
    decreases u32::MAX + 1 - (start + text.len()),
{
    let cursor = start + text.len();
    if cursor > u32::MAX {
        Some((Err(CallError::Trap), at))
    } else {
        match read_at(log, at, cursor as u32, 1) {
            None => None,
            Some(Err(e)) => Some((Err(e), at + 1)),
            Some(Ok(bytes)) => if bytes.len() != 1 {
                None
            } else if bytes[0] == 0 {
                Some((Ok(text), at + 1))
            } else {
                scan_run(start, log, at + 1, text.push(bytes[0]))
            },
        }
    }
}

/// How the read of a packed pair goes, read off the record from `at` on:
/// both words at once, then the bytes that the pair points at.
pub open spec fn read_packed_run(handle: u32, log: Seq<Exchange>, at: int) -> Option<
    (Result<(u32, Seq<u8>), CallError>, int),
> {
    match read_at(log, at, handle, METADATA_SIZE) {
        None => None,
        Some(Err(e)) => Some((Err(e), at + 1)),
        Some(Ok(metadata)) => match unpacked(metadata) {
            None => Some((Err(CallError::Trap), at + 1)),
            Some((ptr, len)) => match read_at(log, at + 1, ptr, len) {
                None => None,
                Some(Err(e)) => Some((Err(e), at + 2)),
                Some(Ok(data)) => Some((Ok((ptr, data)), at + 2)),
            },
        },
    }
}

/// How `resolve` goes, read off the record from `at` on. Gives the bytes
/// and the buffers that hold them.
pub open spec fn resolve_run(value: MarshaledValue, log: Seq<Exchange>, at: int) -> Option<
    (Result<(Seq<u8>, Seq<u32>), CallError>, int),
> {
    match value {
        MarshaledValue::Scalar(word) => Some(
            (Ok((spec_u32_to_le_bytes(word), Seq::empty())), at),
        ),
        MarshaledValue::NulTerminatedBytes { offset } => match scan_run(
            offset,
            log,
            at,
            Seq::empty(),
        ) {
            None => None,
            Some((Err(e), end)) => Some((Err(e), end)),
            Some((Ok(text), end)) => Some((Ok((text, seq![offset])), end)),
        },
        MarshaledValue::LengthPrefixedBytes { offset, length } => match read_at(
            log,
            at,
            offset,
            length,
        ) {
            None => None,
            Some(Err(e)) => Some((Err(e), at + 1)),
            Some(Ok(bytes)) => Some((Ok((bytes, seq![offset])), at + 1)),
        },
        MarshaledValue::PackedMultiValue { offset } => match read_packed_run(offset, log, at) {
            None => None,
            Some((Err(e), end)) => Some((Err(e), end)),
            Some((Ok((ptr, data)), end)) => Some((Ok((data, seq![offset, ptr])), end)),
        },
    }
}

/// How `close` goes, read off the record from `at` on, for the buffers from
/// the one at `next` on and with `failures` counted so far: each buffer is
/// released in turn; a release that the guest refuses is counted and the
/// next one is made all the same; only a fault ends the releases.
pub open spec fn close_run(
    buffers: Seq<u32>,
    next: int,
    log: Seq<Exchange>,
    at: int,
    failures: nat,
) -> Option<(Result<nat, CallError>, int)>
    decreases buffers.len() - next,
{
    if next < 0 || next >= buffers.len() {
        Some((Ok(failures), at))
    } else {
        match release_run(buffers[next], log, at) {
            None => None,
            Some((Err(e), end)) => Some((Err(e), end)),
            Some((Ok(freed), end)) => close_run(
                buffers,
                next + 1,
                log,
                end,
                if freed {
                    failures
                } else {
                    failures + 1
                },
            ),
        }
    }
}

/// How `complete` goes, read off the record from `at` on. Where the answer
/// is the sentinel, the inputs are released and there is no result. Else
/// the result is read; then the inputs and the result's buffers are
/// released, and the result stands whatever the guest says to the releases,
/// short of a fault.
pub open spec fn complete_run(
    inputs: Seq<u32>,
    value: MarshaledValue,
    log: Seq<Exchange>,
    at: int,
) -> Option<(Outcome, int)> {
    if value.spec_is_sentinel() {
        match close_run(inputs, 0, log, at, 0) {
            None => None,
            Some((Err(e), end)) => Some((Err(e), end)),
            Some((Ok(_), end)) => Some((Err(CallError::NoResult), end)),
        }
    } else {
        match resolve_run(value, log, at) {
            None => None,
            Some((Err(e), end)) => Some((Err(e), end)),
            Some((Ok((bytes, held)), middle)) => match close_run(
                inputs + held,
                0,
                log,
                middle,
                0,
            ) {
                None => None,
                Some((Err(e), end)) => Some((Err(e), end)),
                Some((Ok(failures), end)) => Some((Ok((bytes, failures)), end)),
            },
        }
    }
}

/// What `read_packed` gives as a value of the model.
pub open spec fn packed_answer(r: Result<(u32, Vec<u8>), CallError>) -> Result<
    (u32, Seq<u8>),
    CallError,
> {
    match r {
        Ok((ptr, data)) => Ok((ptr, data@)),
        Err(e) => Err(e),
    }
}

/// What `resolve` gives as a value of the model: the bytes, with the
/// buffers by which the session grew.
pub open spec fn resolved_answer(r: Result<Vec<u8>, CallError>, before: Seq<u32>, after: Seq<u32>)
    -> Result<(Seq<u8>, Seq<u32>), CallError> {
    match r {
        Ok(bytes) => Ok((bytes@, after.subrange(before.len() as int, after.len() as int))),
        Err(e) => Err(e),
    }
}

/// What `close` gives as a value of the model.
pub open spec fn count_answer(r: Result<usize, CallError>) -> Result<nat, CallError> {
    match r {
        Ok(failures) => Ok(failures as nat),
        Err(e) => Err(e),
    }
}

/// What the allocator's answer means to the host.
pub fn judge_allocation(answer: Result<u32, CallError>) -> (r: Result<u32, CallError>)
    ensures
        r == allocation_of(answer),
{
    match answer {
        Ok(handle) => if handle == 0 {
            Err(CallError::OutOfMemory)
        } else {
            Ok(handle)
        },
        Err(e) => Err(e),
    }
}

/// What the answer to a release means to the host.
pub fn judge_release(answer: Result<u32, CallError>) -> (r: Result<bool, CallError>)
    ensures
        r == release_of(answer),
{
    match answer {
        Ok(word) => Ok(word == 0),
        Err(e) => Err(e),
    }
}

/// Asks the guest for a buffer of `size` bytes. The handle may be `0`.
pub fn wrapper_wasm_allocate(sandbox: &mut Sandbox, size: u32) -> (r: Result<u32, CallError>)
    requires
        old(sandbox).wf(),
    ensures
        final(sandbox).wf(),
        final(sandbox).model() is Some <==> old(sandbox).model() is Some,
        r is Err ==> r == Err::<u32, CallError>(CallError::Trap),
        final(sandbox).log() == old(sandbox).log().push(
            Exchange::Invoke { export: Export::Allocate, args: seq![size], answer: r },
        ),
        old(sandbox).model() matches Some(guest) ==> r == Ok::<u32, CallError>(
            guest.after_allocate(zeros(size as nat)).1,
        ) && final(sandbox).model() == Some(guest.after_allocate(zeros(size as nat)).0),
{
    let mut args: Vec<u32> = Vec::new();
    args.push(size);
    assert(args@ =~= seq![size]);
    sandbox.invoke(Export::Allocate, &args)
}

/// Asks the guest to release `ptr`, and gives the status that it reports:
/// `0` for success.
pub fn wrapper_wasm_deallocate(sandbox: &mut Sandbox, ptr: u32) -> (r: Result<i32, CallError>)
    requires
        old(sandbox).wf(),
    ensures
        final(sandbox).wf(),
        final(sandbox).model() is Some <==> old(sandbox).model() is Some,
        r is Err ==> r == Err::<i32, CallError>(CallError::Trap),
        final(sandbox).log().len() == old(sandbox).log().len() + 1,
        final(sandbox).log().drop_last() == old(sandbox).log(),
        invoke_at(
            final(sandbox).log(),
            old(sandbox).log().len() as int,
            Export::Deallocate,
            seq![ptr],
        ) is Some,
        r == status_of(
            invoke_at(
                final(sandbox).log(),
                old(sandbox).log().len() as int,
                Export::Deallocate,
                seq![ptr],
            ).unwrap(),
        ),
        old(sandbox).model() matches Some(guest) ==> r == Ok::<i32, CallError>(
            guest.after_deallocate(ptr).1,
        ) && final(sandbox).model() == Some(guest.after_deallocate(ptr).0),
{
    let mut args: Vec<u32> = Vec::new();
    args.push(ptr);
    assert(args@ =~= seq![ptr]);
    let ghost before = sandbox.log();
    let answer: Result<u32, CallError> = sandbox.invoke(Export::Deallocate, &args);
    assert(sandbox.log().drop_last() =~= before);
    match answer {
        Ok(word) => Ok(to_value(word)),
        Err(e) => Err(e),
    }
}

/// Allocates a guest buffer of the payload's size and writes the payload to
/// it.
pub fn send(sandbox: &mut Sandbox, payload: &[u8]) -> (r: Result<u32, CallError>)
    requires
        old(sandbox).wf(),
    ensures
        final(sandbox).wf(),
        final(sandbox).model() is Some <==> old(sandbox).model() is Some,
        r is Ok ==> r->Ok_0 != 0,
        r == Err::<u32, CallError>(CallError::InvalidInput) <==> payload@.len() > u32::MAX,
        r is Err ==> r->Err_0 == CallError::InvalidInput || r->Err_0 == CallError::OutOfMemory
            || r->Err_0 == CallError::Trap,
        extends(old(sandbox).log(), final(sandbox).log()),
        forall|later: Seq<Exchange>| #[trigger]
            extends(final(sandbox).log(), later) ==> send_run(
                payload@,
                later,
                old(sandbox).log().len() as int,
            ) == Some((r, final(sandbox).log().len() as int)),
        old(sandbox).model() matches Some(guest) ==> r == sent(guest, payload@).1 && final(sandbox).model() == Some(sent(guest, payload@).0),
{
    let ghost before = sandbox.log();
    let ghost at = before.len() as int;
    if payload.len() > u32::MAX as usize {
        assert(before.subrange(0, at) =~= before);
        return Err(CallError::InvalidInput);
    }
    let answer: Result<u32, CallError> = wrapper_wasm_allocate(sandbox, payload.len() as u32);
    let ghost asked = sandbox.log();
    assert(asked.subrange(0, at) =~= before);
    let handle: u32 = match judge_allocation(answer) {
        Ok(handle) => handle,
        Err(e) => {
            proof {
                assert forall|later: Seq<Exchange>| #[trigger] extends(asked, later) implies send_run(
                    payload@,
                    later,
                    at,
                ) == Some((Err::<u32, CallError>(e), asked.len() as int)) by {
                    lemma_extends(asked, later, at);
                }
            }
            return Err(e);
        },
    };
    let r: Result<u32, CallError> = match sandbox.write(handle, payload) {
        Ok(_) => Ok(handle),
        Err(e) => Err(e),
    };
    proof {
        let written = sandbox.log();
        assert(written.subrange(0, at) =~= before);
        assert forall|later: Seq<Exchange>| #[trigger] extends(written, later) implies send_run(
            payload@,
            later,
            at,
        ) == Some((r, written.len() as int)) by {
            lemma_extends(written, later, at);
            lemma_extends(written, later, at + 1);
        }
    }
    r
}

/// Releases `handle`, and tells whether the guest reported success.
pub fn release(sandbox: &mut Sandbox, handle: u32) -> (r: Result<bool, CallError>)
    requires
        old(sandbox).wf(),
    ensures
        final(sandbox).wf(),
        final(sandbox).model() is Some <==> old(sandbox).model() is Some,
        r is Err ==> r == Err::<bool, CallError>(CallError::Trap),
        final(sandbox).log().len() == old(sandbox).log().len() + 1,
        extends(old(sandbox).log(), final(sandbox).log()),
        forall|later: Seq<Exchange>| #[trigger]
            extends(final(sandbox).log(), later) ==> release_run(
                handle,
                later,
                old(sandbox).log().len() as int,
            ) == Some((r, final(sandbox).log().len() as int)),
        old(sandbox).model() matches Some(guest) ==> r == Ok::<bool, CallError>(
            guest.after_deallocate(handle).1 == 0,
        ) && final(sandbox).model() == Some(guest.after_deallocate(handle).0),
{
    let ghost before = sandbox.log();
    let ghost at = before.len() as int;
    let mut args: Vec<u32> = Vec::new();
    args.push(handle);
    assert(args@ =~= seq![handle]);
    let answer: Result<u32, CallError> = sandbox.invoke(Export::Deallocate, &args);
    let r: Result<bool, CallError> = judge_release(answer);
    proof {
        let asked = sandbox.log();
        assert(asked.subrange(0, at) =~= before);
        assert forall|later: Seq<Exchange>| #[trigger] extends(asked, later) implies release_run(
            handle,
            later,
            at,
        ) == Some((r, asked.len() as int)) by {
            lemma_extends(asked, later, at);
        }
    }
    r
}

/// Reads the text at `start`: byte by byte up to the first zero byte, which
/// is left out.
pub fn read_text(sandbox: &mut Sandbox, start: u32) -> (r: Result<Vec<u8>, CallError>)
    requires
        old(sandbox).wf(),
    ensures
        final(sandbox).wf(),
        final(sandbox).model() == old(sandbox).model(),
        r is Err ==> r == Err::<Vec<u8>, CallError>(CallError::Trap),
        r is Ok ==> has_no_nul(r->Ok_0@),
        extends(old(sandbox).log(), final(sandbox).log()),
        forall|later: Seq<Exchange>| #[trigger]
            extends(final(sandbox).log(), later) ==> scan_run(
                start,
                later,
                old(sandbox).log().len() as int,
                Seq::empty(),
            ) == Some((read_answer(r), final(sandbox).log().len() as int)),
        old(sandbox).model() matches Some(guest) ==> match text_at(guest.memory, start) {
            Some(text) => r is Ok && r->Ok_0@ == text,
            None => r is Err,
        },
{
    let mut text: Vec<u8> = Vec::new();
    let mut cursor: u32 = start;
    let ghost first = sandbox.log();
    let ghost at = first.len() as int;
    assert(first.subrange(0, at) =~= first);
    loop
        invariant
            sandbox.wf(),
            sandbox.model() == old(sandbox).model(),
            first == old(sandbox).log(),
            at == first.len(),
            extends(first, sandbox.log()),
            forall|later: Seq<Exchange>| #[trigger]
                extends(sandbox.log(), later) ==> scan_run(start, later, at, Seq::empty())
                    == scan_run(start, later, sandbox.log().len() as int, text@),
            start <= cursor,
            text@.len() == cursor - start,
            has_no_nul(text@),
            sandbox.model() matches Some(guest) ==> if cursor <= guest.memory.len() {
                text@ == guest.memory.subrange(start as int, cursor as int)
            } else {
                cursor == start
            },
        decreases u32::MAX - cursor,
    {
        let ghost before = sandbox.model();
        let ghost asked = sandbox.log();
        let ghost here = asked.len() as int;
        let found: Result<Vec<u8>, CallError> = sandbox.read(cursor, 1);
        proof {
            let now = sandbox.log();
            assert(now.subrange(0, here) =~= asked);
            lemma_extends_twice(first, asked, now);
            assert forall|later: Seq<Exchange>| #[trigger] extends(now, later) implies scan_run(
                start,
                later,
                at,
                Seq::empty(),
            ) == scan_run(start, later, here, text@) && read_at(later, here, cursor, 1) == Some(
                read_answer(found),
            ) by {
                lemma_extends_twice(asked, now, later);
                lemma_extends(now, later, here);
            }
        }
        let byte: u8 = match found {
            Ok(bytes) => bytes[0],
            Err(e) => {
                proof {
                    if before is Some {
                        let memory = before->0.memory;
                        if start <= memory.len() {
                            let tail = memory.subrange(start as int, memory.len() as int);
                            assert(cursor == memory.len());
                            assert(tail =~= text@);
                            lemma_first_nul_none(tail);
                        }
                    }
                }
                return Err(e);
            },
        };
        if byte == 0 {
            proof {
                if before is Some {
                    let memory = before->0.memory;
                    let tail = memory.subrange(start as int, memory.len() as int);
                    assert(before->0.read(cursor, 1)[0] == memory[cursor as int]);
                    assert(tail.subrange(0, cursor - start) =~= text@);
                    lemma_first_nul_is(tail, cursor - start);
                }
            }
            return Ok(text);
        }
        if cursor == u32::MAX {
            proof {
                let now = sandbox.log();
                assert forall|later: Seq<Exchange>| #[trigger] extends(now, later) implies scan_run(
                    start,
                    later,
                    at,
                    Seq::empty(),
                ) == Some((Err::<Seq<u8>, CallError>(CallError::Trap), now.len() as int)) by {
                    assert(scan_run(start, later, here, text@) == scan_run(
                        start,
                        later,
                        here + 1,
                        text@.push(byte),
                    ));
                }
            }
            return Err(CallError::Trap);
        }
        proof {
            if before is Some {
                let memory = before->0.memory;
                assert(before->0.read(cursor, 1)[0] == memory[cursor as int]);
                assert(text@.push(byte) =~= memory.subrange(start as int, cursor + 1));
            }
            let now = sandbox.log();
            assert forall|later: Seq<Exchange>| #[trigger] extends(now, later) implies scan_run(
                start,
                later,
                at,
                Seq::empty(),
            ) == scan_run(start, later, now.len() as int, text@.push(byte)) by {
                assert(scan_run(start, later, here, text@) == scan_run(
                    start,
                    later,
                    here + 1,
                    text@.push(byte),
                ));
            }
        }
        text.push(byte);
        cursor = cursor + 1;
    }
}

/// Reads the packed pair at `handle`, both words at once, then the bytes
/// that it points at. Gives the offset of those bytes with them.
pub fn read_packed(sandbox: &mut Sandbox, handle: u32) -> (r: Result<(u32, Vec<u8>), CallError>)
    requires
        old(sandbox).wf(),
    ensures
        final(sandbox).wf(),
        final(sandbox).model() == old(sandbox).model(),
        r is Err ==> r == Err::<(u32, Vec<u8>), CallError>(CallError::Trap),
        extends(old(sandbox).log(), final(sandbox).log()),
        forall|later: Seq<Exchange>| #[trigger]
            extends(final(sandbox).log(), later) ==> read_packed_run(
                handle,
                later,
                old(sandbox).log().len() as int,
            ) == Some((packed_answer(r), final(sandbox).log().len() as int)),
        old(sandbox).model() matches Some(guest) ==> match packed_at(guest, handle) {
            Some((ptr, data)) => r is Ok && r->Ok_0.0 == ptr && r->Ok_0.1@ == data,
            None => r is Err,
        },
{
    let ghost before = sandbox.log();
    let ghost at = before.len() as int;
    let found: Result<Vec<u8>, CallError> = sandbox.read(handle, METADATA_SIZE);
    let ghost asked = sandbox.log();
    assert(asked.subrange(0, at) =~= before);
    let pair: Result<(u32, u32), CallError> = match found {
        Ok(metadata) => match unpack_metadata(metadata.as_slice()) {
            Some(pair) => Ok(pair),
            None => Err(CallError::Trap),
        },
        Err(e) => Err(e),
    };
    let (ptr, len): (u32, u32) = match pair {
        Ok(pair) => pair,
        Err(e) => {
            proof {
                assert forall|later: Seq<Exchange>| #[trigger]
                    extends(asked, later) implies read_packed_run(handle, later, at) == Some(
                    (Err::<(u32, Seq<u8>), CallError>(e), asked.len() as int),
                ) by {
                    lemma_extends(asked, later, at);
                }
            }
            return Err(e);
        },
    };
    let r: Result<(u32, Vec<u8>), CallError> = match sandbox.read(ptr, len) {
        Ok(data) => Ok((ptr, data)),
        Err(e) => Err(e),
    };
    proof {
        let now = sandbox.log();
        assert(now.subrange(0, asked.len() as int) =~= asked);
        lemma_extends_twice(before, asked, now);
        assert forall|later: Seq<Exchange>| #[trigger] extends(now, later) implies read_packed_run(
            handle,
            later,
            at,
        ) == Some((packed_answer(r), now.len() as int)) by {
            lemma_extends(now, later, at);
            lemma_extends(now, later, at + 1);
        }
    }
    r
}

/// The guest buffers that one call is responsible for: the inputs that it
/// wrote and the buffers that hold its result, in the order in which it took
/// them on. All of them are released when the session is closed.
pub struct CallSession {
    pub buffers: Vec<u32>,
}

impl View for CallSession {
    type V = Seq<u32>;

    open spec fn view(&self) -> Seq<u32> {
        self.buffers@
    }
}

impl CallSession {
    /// A session that is responsible for no buffer yet.
    pub fn new() -> (session: CallSession)
        ensures
            session@ == Seq::<u32>::empty(),
    {
        CallSession { buffers: Vec::new() }
    }

    /// Makes the session responsible for `handle`.
    pub fn track(&mut self, handle: u32)
        ensures
            final(self)@ == old(self)@.push(handle),
    {
        self.buffers.push(handle);
    }

    /// Releases every buffer of the session, in order, and gives the number
    /// of releases that the guest reported as failed.
    pub fn close(self, sandbox: &mut Sandbox) -> (r: Result<usize, CallError>)
        requires
            old(sandbox).wf(),
        ensures
            final(sandbox).wf(),
            final(sandbox).model() is Some <==> old(sandbox).model() is Some,
            r is Err ==> r == Err::<usize, CallError>(CallError::Trap),
            r is Ok ==> r->Ok_0 <= self@.len(),
            extends(old(sandbox).log(), final(sandbox).log()),
            forall|later: Seq<Exchange>| #[trigger]
                extends(final(sandbox).log(), later) ==> close_run(
                    self@,
                    0,
                    later,
                    old(sandbox).log().len() as int,
                    0,
                ) == Some((count_answer(r), final(sandbox).log().len() as int)),
            old(sandbox).model() matches Some(guest) ==> r is Ok && r->Ok_0 == released_all(
                (guest, 0),
                self@,
            ).1 && final(sandbox).model() == Some(released_all((guest, 0), self@).0),
    {
        let mut failures: usize = 0;
        let mut i: usize = 0;
        let ghost first = sandbox.log();
        let ghost at = first.len() as int;
        assert(first.subrange(0, at) =~= first);
        while i < self.buffers.len()
            invariant
                i <= self@.len(),
                failures <= i,
                first == old(sandbox).log(),
                at == first.len(),
                extends(first, sandbox.log()),
                forall|later: Seq<Exchange>| #[trigger]
                    extends(sandbox.log(), later) ==> close_run(self@, 0, later, at, 0)
                        == close_run(
                        self@,
                        i as int,
                        later,
                        sandbox.log().len() as int,
                        failures as nat,
                    ),
                sandbox.wf(),
                sandbox.model() is Some <==> old(sandbox).model() is Some,
                old(sandbox).model() matches Some(guest) ==> sandbox.model() == Some(
                    released_all((guest, 0), self@.subrange(0, i as int)).0,
                ) && failures == released_all((guest, 0), self@.subrange(0, i as int)).1,
            decreases self@.len() - i,
        {
            proof {
                let next = self@.subrange(0, i + 1);
                assert(next.drop_last() =~= self@.subrange(0, i as int));
                assert(next.last() == self@[i as int]);
            }
            let ghost asked = sandbox.log();
            let ghost here = asked.len() as int;
            let ghost counted = failures as nat;
            let released: Result<bool, CallError> = release(sandbox, self.buffers[i]);
            proof {
                let now = sandbox.log();
                lemma_extends_twice(first, asked, now);
                assert forall|later: Seq<Exchange>| #[trigger] extends(now, later) implies close_run(
                    self@,
                    0,
                    later,
                    at,
                    0,
                ) == close_run(self@, i as int, later, here, counted) && release_run(
                    self@[i as int],
                    later,
                    here,
                ) == Some((released, now.len() as int)) by {
                    lemma_extends_twice(asked, now, later);
                }
            }
            match released {
                Ok(freed) => {
                    if !freed {
                        failures += 1;
                    }
                },
                Err(e) => { return Err(e); },
            }
            i += 1;
        }
        assert(self@.subrange(0, i as int) =~= self@);
        Ok(failures)
    }
}

/// Reads the bytes that `value` stands for, and makes `session` responsible
/// for the buffers that hold them.
pub fn resolve(sandbox: &mut Sandbox, value: MarshaledValue, session: &mut CallSession) -> (r:
    Result<Vec<u8>, CallError>)
    requires
        old(sandbox).wf(),
    ensures
        final(sandbox).wf(),
        final(sandbox).model() == old(sandbox).model(),
        r is Err ==> r == Err::<Vec<u8>, CallError>(CallError::Trap) && final(session)@ == old(
            session,
        )@,
        r is Ok ==> final(session)@.len() == old(session)@.len() + value.buffers(),
        r is Ok && value is NulTerminatedBytes ==> has_no_nul(r->Ok_0@),
        r is Ok && value is LengthPrefixedBytes ==> r->Ok_0@.len() == value->length,
        old(session)@.len() <= final(session)@.len(),
        final(session)@.subrange(0, old(session)@.len() as int) == old(session)@,
        extends(old(sandbox).log(), final(sandbox).log()),
        forall|later: Seq<Exchange>| #[trigger]
            extends(final(sandbox).log(), later) ==> resolve_run(
                value,
                later,
                old(sandbox).log().len() as int,
            ) == Some(
                (
                    resolved_answer(r, old(session)@, final(session)@),
                    final(sandbox).log().len() as int,
                ),
            ),
        old(sandbox).model() matches Some(guest) ==> match resolved(guest, value) {
            Some((bytes, held)) => r is Ok && r->Ok_0@ == bytes && final(session)@ == old(
                session,
            )@ + held,
            None => r is Err,
        },
{
    let ghost before = sandbox.log();
    let ghost at = before.len() as int;
    let ghost held = session@;
    assert(held.subrange(0, held.len() as int) =~= held);
    assert(before.subrange(0, at) =~= before);
    match value {
        MarshaledValue::Scalar(word) => {
            assert(session@ + Seq::<u32>::empty() =~= session@);
            assert(held.subrange(held.len() as int, held.len() as int) =~= Seq::<u32>::empty());
            Ok(u32_to_le_bytes(word))
        },
        MarshaledValue::NulTerminatedBytes { offset } => {
            let text: Vec<u8> = match read_text(sandbox, offset) {
                Ok(text) => text,
                Err(e) => { return Err(e); },
            };
            session.track(offset);
            assert(old(session)@.push(offset) =~= old(session)@ + seq![offset]);
            assert(session@.subrange(0, held.len() as int) =~= held);
            assert(session@.subrange(held.len() as int, session@.len() as int) =~= seq![offset]);
            Ok(text)
        },
        MarshaledValue::LengthPrefixedBytes { offset, length } => {
            let found: Result<Vec<u8>, CallError> = sandbox.read(offset, length);
            proof {
                let now = sandbox.log();
                assert(now.subrange(0, at) =~= before);
                assert forall|later: Seq<Exchange>| #[trigger] extends(now, later) implies read_at(
                    later,
                    at,
                    offset,
                    length,
                ) == Some(read_answer(found)) by {
                    lemma_extends(now, later, at);
                }
            }
            let bytes: Vec<u8> = match found {
                Ok(bytes) => bytes,
                Err(e) => { return Err(e); },
            };
            session.track(offset);
            assert(old(session)@.push(offset) =~= old(session)@ + seq![offset]);
            assert(session@.subrange(0, held.len() as int) =~= held);
            assert(session@.subrange(held.len() as int, session@.len() as int) =~= seq![offset]);
            Ok(bytes)
        },
        MarshaledValue::PackedMultiValue { offset } => {
            let (ptr, data): (u32, Vec<u8>) = match read_packed(sandbox, offset) {
                Ok(found) => found,
                Err(e) => { return Err(e); },
            };
            session.track(offset);
            session.track(ptr);
            assert(old(session)@.push(offset).push(ptr) =~= old(session)@ + seq![offset, ptr]);
            assert(session@.subrange(0, held.len() as int) =~= held);
            assert(session@.subrange(held.len() as int, session@.len() as int) =~= seq![
                offset,
                ptr,
            ]);
            Ok(data)
        },
    }
}

/// Ends a call whose inputs `session` holds and whose module answered
/// `value`: decodes the result and closes the session; or, where `value` is
/// the sentinel, closes the session and reports that there is no result,
/// without a read of guest memory.
pub fn complete(sandbox: &mut Sandbox, session: CallSession, value: MarshaledValue) -> (r: Result<
    Completed<Vec<u8>>,
    CallError,
>)
    requires
        old(sandbox).wf(),
    ensures
        final(sandbox).wf(),
        final(sandbox).model() is Some <==> old(sandbox).model() is Some,
        r is Err ==> r->Err_0 == CallError::Trap || r->Err_0 == CallError::NoResult,
        value.spec_is_sentinel() ==> r is Err,
        r is Ok ==> r->Ok_0.cleanup_failures <= session@.len() + value.buffers(),
        r is Ok && value is NulTerminatedBytes ==> has_no_nul(r->Ok_0.value@),
        extends(old(sandbox).log(), final(sandbox).log()),
        forall|later: Seq<Exchange>| #[trigger]
            extends(final(sandbox).log(), later) ==> complete_run(
                session@,
                value,
                later,
                old(sandbox).log().len() as int,
            ) == Some((outcome_of(r), final(sandbox).log().len() as int)),
        old(sandbox).model() matches Some(guest) ==> outcome_of(r) == call_end(
            guest,
            session@,
            value,
        ).1 && final(sandbox).model() == Some(call_end(guest, session@, value).0),
{
    let ghost before = sandbox.log();
    let ghost inputs = session@;
    if value.is_sentinel() {
        return match session.close(sandbox) {
            Ok(_) => Err(CallError::NoResult),
            Err(e) => Err(e),
        };
    }
    let mut session = session;
    let bytes: Vec<u8> = match resolve(sandbox, value, &mut session) {
        Ok(bytes) => bytes,
        Err(e) => { return Err(e); },
    };
    let ghost read = sandbox.log();
    let ghost all = session@;
    let ghost held = all.subrange(inputs.len() as int, all.len() as int);
    assert(all =~= inputs + held);
    let closed: Result<usize, CallError> = session.close(sandbox);
    proof {
        let now = sandbox.log();
        lemma_extends_twice(before, read, now);
        assert forall|later: Seq<Exchange>| #[trigger] extends(now, later) implies resolve_run(
            value,
            later,
            before.len() as int,
        ) == Some((Ok::<(Seq<u8>, Seq<u32>), CallError>((bytes@, held)), read.len() as int)) by {
            lemma_extends_twice(read, now, later);
        }
    }
    match closed {
        Ok(failures) => Ok(Completed { value: bytes, cleanup_failures: failures }),
        Err(e) => Err(e),
    }
}

} // verus!
