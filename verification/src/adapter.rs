//! What the guest's adapters share: taking in a payload whose length the host
//! declared, and handing out a result as a packed pair of offset and length.
use crate::memory::{allocate, span, GuestInstance, GuestState};
use crate::wire::{pack_metadata, packed, METADATA_SIZE};
use vstd::prelude::*;

verus! {

/// The payload at `handle`, provided that `handle` is live and that its
/// recorded size is exactly the length that the host declared.
pub open spec fn declared_payload(guest: GuestState, handle: u32, declared: u32) -> Option<Seq<u8>> {
    if guest.is_live(handle) && guest.areas[handle] == declared {
        Some(guest.contents(handle))
    } else {
        None
    }
}

/// Whether a result of `len` bytes and its packed pair both fit below the
/// limit.
pub open spec fn can_publish(guest: GuestState, len: nat) -> bool {
    guest.memory.len() + span(len) + METADATA_SIZE <= guest.limit
}

/// The handle of the packed pair once `data` is published.
pub open spec fn published_handle(guest: GuestState, data: Seq<u8>) -> u32 {
    guest.allocate(data).next_handle()
}

/// The state after `data` was placed in a new buffer and the packed pair of
/// that buffer's handle and length in a second one.
pub open spec fn published(guest: GuestState, data: Seq<u8>) -> GuestState {
    guest.allocate(data).allocate(packed(guest.next_handle(), data.len() as u32))
}

/// What publishing `data` leaves and returns: the new state and the handle
/// of the packed pair, or the state as it was and `0` where the two buffers
/// do not both fit.
pub open spec fn after_publish(guest: GuestState, data: Seq<u8>) -> (GuestState, u32) {
    if can_publish(guest, data.len()) {
        (published(guest, data), published_handle(guest, data))
    } else {
        (guest, 0u32)
    }
}

/// What an adapter leaves and returns that publishes `reply` where there is
/// one and answers `0` where there is none.
pub open spec fn after_reply(guest: GuestState, reply: Option<Seq<u8>>) -> (GuestState, u32) {
    match reply {
        Some(data) => after_publish(guest, data),
        None => (guest, 0u32),
    }
}

/// Copies the payload at `handle` out of linear memory, or gives `None` where
/// `handle` is not live or its recorded size differs from `declared`.
pub fn fetch_declared(guest: &GuestInstance, handle: u32, declared: u32) -> (payload: Option<
    Vec<u8>,
>)
    requires
        guest@.wf(),
    ensures
        payload is Some <==> declared_payload(guest@, handle, declared) is Some,
        payload is Some ==> payload->0@ == declared_payload(guest@, handle, declared)->0,
{
    match guest.buffer(handle) {
        Some(record) => {
            if record.size != declared {
                return None;
            }
            proof {
                assert(guest@.areas.contains_key(handle));
                assert(guest@.in_bounds(handle, declared as nat));
            }
            guest.read(handle, declared)
        },
        None => None,
    }
}

/// Publishes `data`: one buffer for the bytes, one for the packed pair, whose
/// handle is returned. Where the two do not both fit, returns `0` and changes
/// nothing.
pub fn publish(guest: &mut GuestInstance, data: Vec<u8>) -> (handle: u32)
    requires
        old(guest)@.wf(),
    ensures
        final(guest)@.wf(),
        (final(guest)@, handle) == after_publish(old(guest)@, data@),
        handle != 0 <==> can_publish(old(guest)@, data@.len()),
{
    let len: usize = data.len();
    if !guest.fits_both(len, METADATA_SIZE as usize) {
        return 0;
    }
    let data_handle: u32 = allocate(guest, len, data);
    let metadata: Vec<u8> = pack_metadata(data_handle, len as u32);
    allocate(guest, METADATA_SIZE as usize, metadata)
}

} // verus!
