//! What holds of the allocation table and of the adapters on every state and
//! on every input.
use crate::adapter::{can_publish, declared_payload, published, published_handle};
use crate::greeter::{
    c_format_result, c_greeting_reply, greeting, greeting_bytes, rust_format_result,
    rust_greeting_reply,
};
use crate::host::{c_call, lossy_outcome, rust_call, strict_text};
use crate::session::{
    call_end, close_run, complete_run, packed_at, released, released_all, resolve_run, resolved,
    send_run, sent, MarshaledValue,
};
use crate::memory::{span, zeros, GuestState};
use crate::codec::decoded;
use crate::processor::{
    accepts_command, accepts_data, command_accepted, data_accepted, process_result,
};
use crate::tabular::{BatchView, ContentView, LeafView};
use crate::sandbox::{invoke_at, write_at, CallError, Exchange, Export};
use crate::text::lemma_encode_utf8_concat;
use crate::wire::{
    c_string, has_no_nul, is_c_string, lemma_first_nul_of_c_string, lemma_unpack_packed, packed,
    text_at, METADATA_SIZE,
};
use vstd::prelude::*;
use vstd::utf8::{decode_utf8, encode_utf8, is_ascii_chars, valid_utf8};

verus! {

/// An allocation keeps the state well-formed, hands out a handle that is not
/// `0` and was not live before, and leaves every other buffer as it was.
pub proof fn lemma_allocate(guest: GuestState, bytes: Seq<u8>)
    requires
        guest.wf(),
        guest.can_allocate(bytes.len()),
    ensures
        guest.allocate(bytes).wf(),
        guest.next_handle() != 0,
        guest.next_handle() == guest.memory.len(),
        !guest.is_live(guest.next_handle()),
        guest.allocate(bytes).is_live(guest.next_handle()),
        guest.allocate(bytes).contents(guest.next_handle()) == bytes,
        guest.allocate(bytes).memory.len() == guest.memory.len() + span(bytes.len()),
        guest.allocate(bytes).memory.subrange(0, guest.memory.len() as int) == guest.memory,
        forall|h: u32| #[trigger]
            guest.is_live(h) ==> guest.allocate(bytes).is_live(h) && guest.allocate(
                bytes,
            ).contents(h) == guest.contents(h),
{
    let next = guest.allocate(bytes);
    let handle = guest.next_handle();
    if guest.is_live(handle) {
        assert(handle + span(guest.areas[handle] as nat) <= guest.memory.len());
    }
    assert(next.contents(handle) =~= bytes);
    assert(next.memory.subrange(0, guest.memory.len() as int) =~= guest.memory);
    assert forall|h: u32| #[trigger] guest.is_live(h) implies next.is_live(h) && next.contents(h)
        == guest.contents(h) by {
        assert(guest.areas.contains_key(h));
        assert(next.contents(h) =~= guest.contents(h));
    }
    assert forall|h: u32| #[trigger] next.areas.contains_key(h) implies h != 0 && h + span(
        next.areas[h] as nat,
    ) <= next.memory.len() by {
        if h != handle {
            assert(guest.areas.contains_key(h));
        }
    }
    assert forall|a: u32, b: u32|
        #![trigger next.areas.contains_key(a), next.areas.contains_key(b)]
        next.areas.contains_key(a) && next.areas.contains_key(b) && a != b implies a + span(
        next.areas[a] as nat,
    ) <= b || b + span(next.areas[b] as nat) <= a by {
        if a != handle {
            assert(guest.areas.contains_key(a));
        }
        if b != handle {
            assert(guest.areas.contains_key(b));
        }
    }
}

/// A release keeps the state well-formed and leaves every other buffer as it
/// was, its bytes too. Once no buffer is live, linear memory is back at its
/// reserved first byte.
pub proof fn lemma_deallocate(guest: GuestState, handle: u32)
    requires
        guest.wf(),
    ensures
        guest.deallocate(handle).wf(),
        !guest.deallocate(handle).is_live(handle),
        guest.deallocate(handle).areas == guest.areas.remove(handle),
        forall|h: u32|
            h != handle ==> (#[trigger] guest.deallocate(handle).is_live(h) <==> guest.is_live(h)),
        forall|h: u32|
            h != handle && #[trigger] guest.is_live(h) ==> guest.deallocate(handle).contents(h)
                == guest.contents(h),
        (forall|h: u32| !guest.deallocate(handle).is_live(h)) ==> guest.deallocate(
            handle,
        ).memory.len() == 1,
{
    let next = guest.deallocate(handle);
    if next.areas.dom() =~= Set::<u32>::empty() {
        assert forall|h: u32| !next.areas.contains_key(h) by {
            assert(!Set::<u32>::empty().contains(h));
        }
    } else {
        assert(next.memory == guest.memory);
    }
    if forall|h: u32| !next.is_live(h) {
        assert forall|h: u32| !next.areas.dom().contains(h) by {
            assert(!next.is_live(h));
        }
        assert(next.areas.dom() =~= Set::<u32>::empty());
    }
    assert forall|h: u32| h != handle && #[trigger] guest.is_live(h) implies next.contents(h)
        == guest.contents(h) by {
        assert(next.areas.dom().contains(h));
        assert(next.memory == guest.memory);
    }
    assert forall|h: u32| #[trigger] next.areas.contains_key(h) implies h != 0 && h + span(
        next.areas[h] as nat,
    ) <= next.memory.len() by {
        assert(guest.areas.contains_key(h));
    }
    assert forall|a: u32, b: u32|
        #![trigger next.areas.contains_key(a), next.areas.contains_key(b)]
        next.areas.contains_key(a) && next.areas.contains_key(b) && a != b implies a + span(
        next.areas[a] as nat,
    ) <= b || b + span(next.areas[b] as nat) <= a by {
        assert(guest.areas.contains_key(a));
        assert(guest.areas.contains_key(b));
    }
}

/// A write keeps the state well-formed, leaves the table as it was, and puts
/// the bytes where they are read again.
pub proof fn lemma_write(guest: GuestState, offset: u32, bytes: Seq<u8>)
    requires
        guest.wf(),
        guest.in_bounds(offset, bytes.len()),
    ensures
        guest.write(offset, bytes).wf(),
        guest.write(offset, bytes).areas == guest.areas,
        guest.write(offset, bytes).memory.len() == guest.memory.len(),
        guest.write(offset, bytes).read(offset, bytes.len()) == bytes,
{
    let next = guest.write(offset, bytes);
    assert(next.read(offset, bytes.len()) =~= bytes);
}

/// Releasing what an allocation returned succeeds exactly once: the first
/// release reports success, the second reports that the handle is not
/// allocated and changes nothing.
pub proof fn lemma_release_succeeds_once(guest: GuestState, bytes: Seq<u8>)
    requires
        guest.wf(),
        guest.can_allocate(bytes.len()),
    ensures
        ({
            let (allocated, handle) = guest.after_allocate(bytes);
            let (once, first) = allocated.after_deallocate(handle);
            let (twice, second) = once.after_deallocate(handle);
            &&& handle != 0
            &&& first == 0
            &&& second == -1
            &&& twice == once
            &&& once.areas == guest.areas
        }),
{
    lemma_allocate(guest, bytes);
    let (allocated, handle) = guest.after_allocate(bytes);
    lemma_deallocate(allocated, handle);
    assert(allocated.deallocate(handle).areas =~= guest.areas);
}

/// Memory is given back: on an instance with no live buffer, a buffer that
/// is allocated and released leaves linear memory at its reserved first
/// byte, so that an instance which allocates and releases in turn never runs
/// out of room.
pub proof fn lemma_memory_is_reclaimed(guest: GuestState, bytes: Seq<u8>)
    requires
        guest.wf(),
        forall|h: u32| !guest.is_live(h),
        guest.can_allocate(bytes.len()),
    ensures
        ({
            let (allocated, handle) = guest.after_allocate(bytes);
            let (freed, status) = allocated.after_deallocate(handle);
            &&& status == 0
            &&& freed.wf()
            &&& freed.memory.len() == 1
            &&& forall|h: u32| !freed.is_live(h)
            &&& freed.can_allocate(bytes.len()) == (1 + span(bytes.len()) <= guest.limit)
        }),
{
    lemma_allocate(guest, bytes);
    let (allocated, handle) = guest.after_allocate(bytes);
    lemma_deallocate(allocated, handle);
    let freed = allocated.deallocate(handle);
    assert forall|h: u32| !freed.is_live(h) by {
        if h != handle {
            assert(!guest.is_live(h));
        }
    }
}

/// One step in the life of a guest instance.
pub enum GuestOp {
    /// A buffer with these bytes is allocated.
    Allocate(Seq<u8>),
    /// This handle is released.
    Deallocate(u32),
    /// These bytes are written from this offset on.
    Write(u32, Seq<u8>),
}

/// The state after one step.
pub open spec fn step(guest: GuestState, op: GuestOp) -> GuestState {
    match op {
        GuestOp::Allocate(bytes) => guest.after_allocate(bytes).0,
        GuestOp::Deallocate(handle) => guest.after_deallocate(handle).0,
        GuestOp::Write(offset, bytes) => if guest.in_bounds(offset, bytes.len()) {
            guest.write(offset, bytes)
        } else {
            guest
        },
    }
}

/// The state of an instance with memory limit `limit` after `ops`.
pub open spec fn after(limit: u32, ops: Seq<GuestOp>) -> GuestState
    decreases ops.len(),
{
    if ops.len() == 0 {
        GuestState::fresh(limit)
    } else {
        step(after(limit, ops.drop_last()), ops.last())
    }
}

/// The handles that the allocations among `ops` returned.
pub open spec fn handed_out(limit: u32, ops: Seq<GuestOp>) -> Set<u32>
    decreases ops.len(),
{
    if ops.len() == 0 {
        Set::empty()
    } else {
        let before = after(limit, ops.drop_last());
        let earlier = handed_out(limit, ops.drop_last());
        match ops.last() {
            GuestOp::Allocate(bytes) => if before.can_allocate(bytes.len()) {
                earlier.insert(before.next_handle())
            } else {
                earlier
            },
            _ => earlier,
        }
    }
}

/// Whatever happened to an instance, its state is well-formed, and a handle
/// that no allocation returned validates to `0`.
pub proof fn lemma_unissued_handle_is_invalid(limit: u32, ops: Seq<GuestOp>, handle: u32)
    ensures
        after(limit, ops).wf(),
        !handed_out(limit, ops).contains(handle) ==> after(limit, ops).validate(handle) == 0
            && !after(limit, ops).is_live(handle),
    decreases ops.len(),
{
    if ops.len() == 0 {
        assert(GuestState::fresh(limit).memory.len() == 1);
    } else {
        let before = after(limit, ops.drop_last());
        lemma_unissued_handle_is_invalid(limit, ops.drop_last(), handle);
        match ops.last() {
            GuestOp::Allocate(bytes) => {
                if before.can_allocate(bytes.len()) {
                    lemma_allocate(before, bytes);
                }
            },
            GuestOp::Deallocate(released) => {
                lemma_deallocate(before, released);
            },
            GuestOp::Write(offset, bytes) => {
                if before.in_bounds(offset, bytes.len()) {
                    lemma_write(before, offset, bytes);
                }
            },
        }
    }
}

/// A handle that is not live validates to `0`, and so does a handle above
/// every address that the instance has handed out.
pub proof fn lemma_validate_of_unknown_handle(guest: GuestState, handle: u32)
    requires
        guest.wf(),
    ensures
        !guest.is_live(handle) ==> guest.validate(handle) == 0,
        handle >= guest.memory.len() ==> guest.validate(handle) == 0,
        handle == 0 ==> guest.validate(handle) == 0,
{
    if guest.is_live(handle) {
        assert(guest.areas.contains_key(handle));
    }
}

/// A handle that is not live is of no use to any adapter or release: each
/// answers its failure value and changes nothing.
pub proof fn lemma_dead_handle_is_rejected(guest: GuestState, handle: u32, length: u32)
    requires
        !guest.is_live(handle),
    ensures
        guest.after_deallocate(handle) == (guest, -1i32),
        c_format_result(guest, handle) == (guest, 0u32),
        rust_format_result(guest, handle, length) == (guest, 0u32),
        forall|other: u32, size: u32|
            #[trigger] process_result(guest, handle, length, other, size) == (guest, 0u32),
        forall|other: u32, size: u32|
            #[trigger] process_result(guest, other, size, handle, length) == (guest, 0u32),
{
}

/// A release that the guest refuses does not undo the result: what a call
/// brings back is what the answer stood for when it was read, whichever of
/// the call's buffers are still live.
pub proof fn lemma_result_survives_cleanup(
    guest: GuestState,
    inputs: Seq<u32>,
    others: Seq<u32>,
    value: MarshaledValue,
)
    requires
        !value.spec_is_sentinel(),
        resolved(guest, value) is Some,
    ensures
        ({
            let expected = resolved(guest, value).unwrap();
            let one = call_end(guest, inputs, value);
            let other = call_end(guest, others, value);
            &&& one.1 matches Ok(brought) && brought.0 == expected.0
            &&& other.1 matches Ok(brought) && brought.0 == expected.0
        }),
{
}

/// On every guest, a release that the guest refuses is counted and no more:
/// the next release is made all the same, and the count goes up by one.
pub proof fn lemma_refused_release_is_counted(
    buffers: Seq<u32>,
    next: int,
    log: Seq<Exchange>,
    at: int,
    failures: nat,
    word: u32,
)
    requires
        0 <= next < buffers.len(),
        invoke_at(log, at, Export::Deallocate, seq![buffers[next]]) == Some(
            Ok::<u32, CallError>(word),
        ),
    ensures
        close_run(buffers, next, log, at, failures) == close_run(
            buffers,
            next + 1,
            log,
            at + 1,
            if word == 0 {
                failures
            } else {
                failures + 1
            },
        ),
{
}

/// On every guest, once the result of a call is read, it stands: whatever
/// the guest says to the releases, short of a fault, the call brings back
/// the bytes that were read, with the count of the releases it refused.
pub proof fn lemma_result_stands(
    inputs: Seq<u32>,
    value: MarshaledValue,
    log: Seq<Exchange>,
    at: int,
    bytes: Seq<u8>,
    held: Seq<u32>,
    read_end: int,
    failures: nat,
    end: int,
)
    requires
        !value.spec_is_sentinel(),
        resolve_run(value, log, at) == Some(
            (Ok::<(Seq<u8>, Seq<u32>), CallError>((bytes, held)), read_end),
        ),
        close_run(inputs + held, 0, log, read_end, 0) == Some(
            (Ok::<nat, CallError>(failures), end),
        ),
    ensures
        complete_run(inputs, value, log, at) == Some(
            (Ok::<(Seq<u8>, nat), CallError>((bytes, failures)), end),
        ),
{
}

/// On every guest, the sentinel ends a call without a read of guest memory:
/// the only exchanges are the releases of the inputs.
pub proof fn lemma_sentinel_reads_nothing(
    inputs: Seq<u32>,
    value: MarshaledValue,
    log: Seq<Exchange>,
    at: int,
)
    requires
        value.spec_is_sentinel(),
    ensures
        complete_run(inputs, value, log, at) == (match close_run(inputs, 0, log, at, 0) {
            None => None,
            Some((Err(e), end)) => Some((Err::<(Seq<u8>, nat), CallError>(e), end)),
            Some((Ok(_), end)) => Some(
                (Err::<(Seq<u8>, nat), CallError>(CallError::NoResult), end),
            ),
        }),
{
}

/// On every guest, what `send` writes is the payload itself, at the handle
/// that the allocator gave.
pub proof fn lemma_send_writes_the_payload(
    payload: Seq<u8>,
    log: Seq<Exchange>,
    at: int,
    handle: u32,
    end: int,
)
    requires
        send_run(payload, log, at) == Some((Ok::<u32, CallError>(handle), end)),
    ensures
        handle != 0,
        end == at + 2,
        invoke_at(log, at, Export::Allocate, seq![payload.len() as u32]) == Some(
            Ok::<u32, CallError>(handle),
        ),
        write_at(log, at + 1, handle, payload) is Some,
        write_at(log, at + 1, handle, payload).unwrap() is Ok,
{
}

/// A batch with a wrong field name, a wrong field type or a wrong number of
/// rows is not what the tabular module expects as a command.
pub proof fn lemma_command_mismatch(batch: BatchView)
    ensures
        batch.rows != 1 ==> !accepts_command(batch),
        batch.fields.len() < 2 ==> !accepts_command(batch),
        batch.fields.len() >= 2 && batch.fields[0].name != "command"@ ==> !accepts_command(batch),
        batch.fields.len() >= 2 && batch.fields[1].name != "config"@ ==> !accepts_command(batch),
        batch.fields.len() >= 2 && !(batch.fields[0].content matches ContentView::Leaf(
            LeafView::Utf8(_),
        )) ==> !accepts_command(batch),
        batch.fields.len() >= 2 && !(batch.fields[1].content is Group) ==> !accepts_command(batch),
{
}

/// A batch with a wrong field name, a wrong field type or a wrong number of
/// rows is not what the tabular module expects as data.
pub proof fn lemma_data_mismatch(batch: BatchView, at: int, name: Seq<char>)
    requires
        0 <= at < 5,
        name == seq!["id"@, "content"@, "title"@, "date"@, "score"@][at],
    ensures
        batch.rows != 1 ==> !accepts_data(batch),
        batch.fields.len() < 5 ==> !accepts_data(batch),
        batch.fields.len() >= 5 && batch.fields[at].name != name ==> !accepts_data(batch),
        batch.fields.len() >= 5 && batch.fields[at].content is Group ==> !accepts_data(batch),
        batch.fields.len() >= 5 && batch.fields[at].content == ContentView::Leaf(
            LeafView::Unsupported,
        ) ==> !accepts_data(batch),
{
}

/// Where either payload holds a batch that the tabular module does not
/// expect, or does not decode, the adapter answers `0` and changes nothing.
pub proof fn lemma_rejected_payload_gives_sentinel(
    guest: GuestState,
    command: u32,
    command_size: u32,
    data: u32,
    data_size: u32,
)
    requires
        declared_payload(guest, command, command_size) is Some && declared_payload(
            guest,
            data,
            data_size,
        ) is Some ==> !command_accepted(declared_payload(guest, command, command_size).unwrap())
            || !data_accepted(declared_payload(guest, data, data_size).unwrap()),
    ensures
        process_result(guest, command, command_size, data, data_size) == (guest, 0u32),
{
}

/// A stream in which one batch is not what the module expects is not
/// accepted, whatever its other batches hold.
pub proof fn lemma_one_bad_batch_rejects_the_stream(bytes: Seq<u8>, at: int)
    requires
        decoded(bytes) is Some ==> 0 <= at < decoded(bytes).unwrap().len(),
    ensures
        decoded(bytes) is Some && !accepts_command(decoded(bytes).unwrap()[at])
            ==> !command_accepted(bytes),
        decoded(bytes) is Some && !accepts_data(decoded(bytes).unwrap()[at])
            ==> !data_accepted(bytes),
{
}

/// Where the declared length is not the recorded size of a live buffer, the
/// adapters that take a declared length answer `0` and change nothing.
pub proof fn lemma_wrong_length_is_rejected(
    guest: GuestState,
    handle: u32,
    declared: u32,
    other: u32,
    other_size: u32,
)
    requires
        guest.is_live(handle) ==> guest.areas[handle] != declared,
    ensures
        rust_format_result(guest, handle, declared) == (guest, 0u32),
        process_result(guest, handle, declared, other, other_size) == (guest, 0u32),
        process_result(guest, other, other_size, handle, declared) == (guest, 0u32),
{
}

/// The bytes of a greeting are the bytes of its opening, of the name, and of
/// its closing mark; none of them is zero unless one of the name's is.
pub proof fn lemma_greeting_bytes(name: Seq<char>)
    ensures
        encode_utf8(greeting(name)) == encode_utf8("Hello World, "@) + encode_utf8(name)
            + encode_utf8("!"@),
        valid_utf8(encode_utf8(greeting(name))),
        decode_utf8(encode_utf8(greeting(name))) == greeting(name),
        greeting_bytes(encode_utf8(name)) == encode_utf8(greeting(name)),
        encode_utf8(greeting(name)).len() == encode_utf8(name).len() + 14,
        has_no_nul(encode_utf8(name)) ==> has_no_nul(encode_utf8(greeting(name))),
{
    let opening = "Hello World, "@;
    let closing = "!"@;
    reveal_strlit("Hello World, ");
    reveal_strlit("!");
    lemma_encode_utf8_concat(opening + name, closing);
    lemma_encode_utf8_concat(opening, name);
    vstd::utf8::encode_utf8_valid_utf8(greeting(name));
    vstd::utf8::encode_utf8_decode_utf8(greeting(name));
    vstd::utf8::encode_utf8_decode_utf8(name);
    assert(is_ascii_chars(opening));
    assert(is_ascii_chars(closing));
    vstd::utf8::is_ascii_chars_encode_utf8(opening);
    vstd::utf8::is_ascii_chars_encode_utf8(closing);
    let head = encode_utf8(opening);
    let tail = encode_utf8(closing);
    assert(head.len() == 13);
    assert(tail.len() == 1);
    assert forall|i: int| 0 <= i < head.len() implies #[trigger] head[i] != 0 by {
        assert(opening[i] as u8 == head[i]);
    }
    assert(closing[0] as u8 == tail[0]);
    if has_no_nul(encode_utf8(name)) {
        let middle = encode_utf8(name);
        let all = head + middle + tail;
        assert forall|i: int| 0 <= i < all.len() implies #[trigger] all[i] != 0 by {
            if i < head.len() {
                assert(all[i] == head[i]);
            } else if i < head.len() + middle.len() {
                assert(all[i] == middle[i - head.len()]);
            } else {
                assert(all[i] == tail[i - head.len() - middle.len()]);
            }
        }
    }
}

/// What sending a payload to a guest with room for it leaves: a new live
/// buffer that holds the payload, after every address that was in use.
pub proof fn lemma_sent(guest: GuestState, payload: Seq<u8>)
    requires
        guest.wf(),
        guest.can_allocate(payload.len()),
    ensures
        ({
            let (loaded, input) = sent(guest, payload);
            let handle = guest.next_handle();
            &&& input == Ok::<u32, CallError>(handle)
            &&& handle != 0
            &&& !guest.is_live(handle)
            &&& loaded.wf()
            &&& loaded.limit == guest.limit
            &&& loaded.areas == guest.areas.insert(handle, payload.len() as u32)
            &&& loaded.memory.len() == guest.memory.len() + span(payload.len())
            &&& loaded.contents(handle) == payload
        }),
{
    let blank = zeros(payload.len());
    lemma_allocate(guest, blank);
    let allocated = guest.allocate(blank);
    let handle = guest.next_handle();
    assert(allocated.in_bounds(handle, payload.len()));
    lemma_write(allocated, handle, payload);
    let loaded = allocated.write(handle, payload);
    assert(loaded.contents(handle) =~= loaded.read(handle, payload.len()));
}

/// For every text without a zero byte among its bytes, the nul-terminated
/// call on a reference guest with room for the input and the answer brings
/// back the greeting for that text; every release succeeds, and the table is
/// as it was before the call.
#[verifier::rlimit(60)]
pub proof fn lemma_c_round_trip(guest: GuestState, name: Seq<char>)
    requires
        guest.wf(),
        has_no_nul(encode_utf8(name)),
        guest.memory.len() + (encode_utf8(name).len() + 1) + (encode_utf8(greeting(name)).len()
            + 1) <= guest.limit,
    ensures
        strict_text(c_call(guest, encode_utf8(name)).1) == Ok::<(Seq<char>, nat), CallError>(
            (greeting(name), 0nat),
        ),
        c_call(guest, encode_utf8(name)).0.wf(),
        c_call(guest, encode_utf8(name)).0.areas == guest.areas,
{
    let bytes = encode_utf8(name);
    let input = c_string(bytes);
    lemma_greeting_bytes(name);
    vstd::utf8::encode_utf8_valid_utf8(name);
    lemma_sent(guest, input);
    let (loaded, sent_input) = sent(guest, input);
    let handle = guest.next_handle();
    assert(input.drop_last() =~= bytes);
    assert(is_c_string(loaded.contents(handle)));
    let greeted = encode_utf8(greeting(name));
    let reply_bytes = c_string(greeted);
    assert(c_greeting_reply(loaded, handle) == Some(reply_bytes));
    assert(loaded.can_allocate(reply_bytes.len()));
    lemma_allocate(loaded, reply_bytes);
    let (answered, reply) = c_format_result(loaded, handle);
    assert(reply == loaded.next_handle());
    assert(answered == loaded.allocate(reply_bytes));
    assert(answered.memory.subrange(reply as int, answered.memory.len() as int) =~= reply_bytes);
    lemma_first_nul_of_c_string(greeted);
    assert(answered.memory.subrange(reply as int, reply + greeted.len()) =~= greeted);
    assert(text_at(answered.memory, reply) == Some(greeted));
    lemma_released_both(answered, handle, reply);
    assert(seq![handle] + seq![reply] =~= seq![handle, reply]);
    let twice = answered.deallocate(handle).deallocate(reply);
    assert(twice.areas =~= guest.areas);
}

/// For every text, the empty one too, the length-prefixed call on a
/// reference guest with room for the input, the answer and the packed pair
/// brings back the greeting for that text; every release succeeds, and the
/// table is as it was before the call.
pub proof fn lemma_rust_round_trip(guest: GuestState, name: Seq<char>)
    requires
        guest.wf(),
        guest.memory.len() + span(encode_utf8(name).len()) + encode_utf8(greeting(name)).len()
            + METADATA_SIZE <= guest.limit,
    ensures
        lossy_outcome(rust_call(guest, encode_utf8(name)).1) == Ok::<(Seq<char>, nat), CallError>(
            (greeting(name), 0nat),
        ),
        rust_call(guest, encode_utf8(name)).0.wf(),
        rust_call(guest, encode_utf8(name)).0.areas == guest.areas,
{
    let bytes = encode_utf8(name);
    lemma_greeting_bytes(name);
    vstd::utf8::encode_utf8_valid_utf8(name);
    lemma_sent(guest, bytes);
    let (loaded, sent_input) = sent(guest, bytes);
    let handle = guest.next_handle();
    let greeted = encode_utf8(greeting(name));
    assert(declared_payload(loaded, handle, bytes.len() as u32) == Some(bytes));
    assert(rust_greeting_reply(loaded, handle, bytes.len() as u32) == Some(greeted));
    assert(can_publish(loaded, greeted.len()));
    lemma_published(loaded, greeted);
    let (answered, reply) = rust_format_result(loaded, handle, bytes.len() as u32);
    let data = loaded.next_handle();
    assert(answered == published(loaded, greeted));
    assert(reply == published_handle(loaded, greeted));
    assert(packed_at(answered, reply) == Some((data, greeted)));
    let held = seq![handle, reply];
    lemma_released_both(answered, handle, reply);
    let second = answered.deallocate(handle).deallocate(reply);
    lemma_released_push(answered, held, data);
    lemma_deallocate(second, data);
    assert(seq![handle] + seq![reply, data] =~= held.push(data));
    let third = second.deallocate(data);
    assert(third.areas =~= guest.areas);
}

/// Releasing one more handle after a list of them is releasing the list and
/// then the handle.
pub proof fn lemma_released_push(guest: GuestState, handles: Seq<u32>, handle: u32)
    ensures
        released_all((guest, 0), handles.push(handle)) == released(
            released_all((guest, 0), handles),
            handle,
        ),
{
    assert(handles.push(handle).drop_last() =~= handles);
}

/// Releasing two live buffers in turn succeeds twice and leaves a
/// well-formed state without them.
pub proof fn lemma_released_both(guest: GuestState, first: u32, second: u32)
    requires
        guest.wf(),
        guest.is_live(first),
        guest.is_live(second),
        first != second,
    ensures
        released_all((guest, 0), seq![first, second]) == (
            guest.deallocate(first).deallocate(second),
            0nat,
        ),
        guest.deallocate(first).deallocate(second).wf(),
{
    let none = Seq::<u32>::empty();
    assert(seq![first] =~= none.push(first));
    assert(seq![first, second] =~= seq![first].push(second));
    lemma_released_push(guest, none, first);
    lemma_released_push(guest, seq![first], second);
    lemma_deallocate(guest, first);
    lemma_deallocate(guest.deallocate(first), second);
}

/// What publishing a result on a guest with room for it leaves: the result
/// in one new live buffer, and in a second one the packed pair that points
/// at it; both are read back as they were written.
pub proof fn lemma_published(guest: GuestState, data: Seq<u8>)
    requires
        guest.wf(),
        can_publish(guest, data.len()),
    ensures
        ({
            let after = published(guest, data);
            let first = guest.next_handle();
            let second = published_handle(guest, data);
            &&& after.wf()
            &&& first != 0 && second != 0 && first != second
            &&& !guest.is_live(first) && !guest.is_live(second)
            &&& after.areas == guest.areas.insert(first, data.len() as u32).insert(
                second,
                METADATA_SIZE,
            )
            &&& packed_at(after, second) == Some((first, data))
        }),
{
    lemma_allocate(guest, data);
    let middle = guest.allocate(data);
    let first = guest.next_handle();
    let pair = packed(first, data.len() as u32);
    lemma_unpack_packed(first, data.len() as u32);
    lemma_allocate(middle, pair);
    let after = middle.allocate(pair);
    let second = middle.next_handle();
    assert(after.read(second, METADATA_SIZE as nat) =~= after.contents(second));
    assert(after.contents(first) == middle.contents(first));
    assert(after.read(first, data.len()) =~= after.contents(first));
    if guest.is_live(second) {
        assert(guest.areas.contains_key(second));
    }
}

} // verus!
