//! One guest instance: a flat linear memory and the table of the buffers that
//! are live in it.
//!
//! A handle is the address of a buffer's first byte. Address `0` is never
//! handed out, so `0` can serve as the "no result" sentinel everywhere.
use std::collections::HashMap;
use vstd::prelude::*;

verus! {

broadcast use vstd::std_specs::hash::group_hash_axioms;

/// Bytes of linear memory that a buffer of `size` bytes occupies. An empty
/// buffer still takes one byte, so that no two live buffers share a handle.
pub open spec fn span(size: nat) -> nat {
    if size == 0 {
        1
    } else {
        size
    }
}

/// `size` zero bytes.
pub open spec fn zeros(size: nat) -> Seq<u8> {
    Seq::new(size, |i: int| 0u8)
}

/// The mathematical state of a guest instance.
pub struct GuestState {
    /// Linear memory; an address is an index into it.
    pub memory: Seq<u8>,
    /// The allocation table: handle to recorded size.
    pub areas: Map<u32, u32>,
    /// Largest size, in bytes, that linear memory may grow to.
    pub limit: u32,
}

impl GuestState {
    /// A new instance: one reserved byte at address `0`, no live buffer.
    pub open spec fn fresh(limit: u32) -> GuestState {
        GuestState { memory: seq![0u8], areas: Map::empty(), limit }
    }

    /// Every live buffer has a non-zero handle and lies inside linear memory,
    /// and no two live buffers overlap.
    pub open spec fn wf(self) -> bool {
        &&& 1 <= self.memory.len() <= u32::MAX
        &&& self.areas.dom().finite()
        &&& forall|h: u32| #[trigger]
            self.areas.contains_key(h) ==> h != 0 && h + span(self.areas[h] as nat)
                <= self.memory.len()
        &&& forall|a: u32, b: u32|
            #![trigger self.areas.contains_key(a), self.areas.contains_key(b)]
            self.areas.contains_key(a) && self.areas.contains_key(b) && a != b ==> a + span(
                self.areas[a] as nat,
            ) <= b || b + span(self.areas[b] as nat) <= a
    }

    /// Whether `handle` names a live buffer.
    pub open spec fn is_live(self, handle: u32) -> bool {
        self.areas.contains_key(handle)
    }

    /// The recorded size of `handle`, or `0` if it names no live buffer.
    pub open spec fn validate(self, handle: u32) -> nat {
        if self.areas.contains_key(handle) {
            self.areas[handle] as nat
        } else {
            0
        }
    }

    /// The bytes of the live buffer `handle`.
    pub open spec fn contents(self, handle: u32) -> Seq<u8>
        recommends
            self.is_live(handle),
    {
        self.memory.subrange(handle as int, handle + self.areas[handle])
    }

    /// Whether a buffer of `size` bytes still fits below the limit.
    pub open spec fn can_allocate(self, size: nat) -> bool {
        self.memory.len() + span(size) <= self.limit
    }

    /// The handle that the next successful allocation returns.
    pub open spec fn next_handle(self) -> u32 {
        self.memory.len() as u32
    }

    /// The state after a buffer holding `bytes` was placed at `next_handle()`.
    pub open spec fn allocate(self, bytes: Seq<u8>) -> GuestState {
        GuestState {
            memory: if bytes.len() == 0 {
                self.memory.push(0u8)
            } else {
                self.memory + bytes
            },
            areas: self.areas.insert(self.next_handle(), bytes.len() as u32),
            limit: self.limit,
        }
    }

    /// What an allocation of `bytes` leaves and returns: the new state and the
    /// handle, or the state as it was and `0` where the limit leaves no room.
    pub open spec fn after_allocate(self, bytes: Seq<u8>) -> (GuestState, u32) {
        if self.can_allocate(bytes.len()) {
            (self.allocate(bytes), self.next_handle())
        } else {
            (self, 0u32)
        }
    }

    /// What releasing `handle` leaves and reports: success where it was live,
    /// else the state as it was and the "not allocated" code.
    pub open spec fn after_deallocate(self, handle: u32) -> (GuestState, i32) {
        if self.is_live(handle) {
            (self.deallocate(handle), MemoryAreasReturnCode::Success.spec_code())
        } else {
            (self, MemoryAreasReturnCode::ErrorMemoryNotAllocated.spec_code())
        }
    }

    /// The state after `handle` left the table. Where no buffer is live any
    /// more, linear memory is given back down to its reserved first byte, so
    /// that the addresses are handed out again; else it keeps its bytes.
    pub open spec fn deallocate(self, handle: u32) -> GuestState {
        let areas = self.areas.remove(handle);
        GuestState {
            memory: if areas.dom() =~= Set::<u32>::empty() {
                self.memory.subrange(0, 1)
            } else {
                self.memory
            },
            areas,
            limit: self.limit,
        }
    }

    /// Whether the `len` bytes from `offset` on lie inside linear memory.
    pub open spec fn in_bounds(self, offset: u32, len: nat) -> bool {
        offset + len <= self.memory.len()
    }

    /// The `len` bytes from `offset` on.
    pub open spec fn read(self, offset: u32, len: nat) -> Seq<u8>
        recommends
            self.in_bounds(offset, len),
    {
        self.memory.subrange(offset as int, offset + len)
    }

    /// The state after `bytes` were stored from `offset` on.
    pub open spec fn write(self, offset: u32, bytes: Seq<u8>) -> GuestState
        recommends
            self.in_bounds(offset, bytes.len()),
    {
        GuestState {
            memory: Seq::new(
                self.memory.len(),
                |i: int|
                    if offset <= i < offset + bytes.len() {
                        bytes[i - offset]
                    } else {
                        self.memory[i]
                    },
            ),
            areas: self.areas,
            limit: self.limit,
        }
    }
}

/// A live buffer as the table records it.
#[derive(Clone, Copy, Debug, PartialEq, Eq, Structural)]
pub struct GuestBuffer {
    pub handle: u32,
    pub size: u32,
}

/// What releasing a buffer reports.
#[derive(Clone, Copy, Debug, PartialEq, Eq, Structural)]
pub enum MemoryAreasReturnCode {
    Success,
    ErrorMemoryNotAllocated,
}

impl MemoryAreasReturnCode {
    /// The number that crosses the boundary for this outcome.
    pub open spec fn spec_code(self) -> i32 {
        match self {
            MemoryAreasReturnCode::Success => 0i32,
            MemoryAreasReturnCode::ErrorMemoryNotAllocated => -1i32,
        }
    }

    /// The number that crosses the boundary for this outcome.
    #[verifier::when_used_as_spec(spec_code)]
    pub fn code(self) -> (c: i32)
        ensures
            c == self.spec_code(),
    {
        match self {
            MemoryAreasReturnCode::Success => 0,
            MemoryAreasReturnCode::ErrorMemoryNotAllocated => -1,
        }
    }
}

/// A guest instance: linear memory, the allocation table, and the memory limit
/// that the host granted.
pub struct GuestInstance {
    memory: Vec<u8>,
    areas: HashMap<u32, u32>,
    limit: u32,
}

impl View for GuestInstance {
    type V = GuestState;

    closed spec fn view(&self) -> GuestState {
        GuestState { memory: self.memory@, areas: self.areas@, limit: self.limit }
    }
}

impl GuestInstance {
    /// An instance that may use the whole 32-bit address space.
    pub fn new() -> (guest: GuestInstance)
        ensures
            guest@ == GuestState::fresh(u32::MAX),
            guest@.wf(),
    {
        GuestInstance::with_memory_limit(u32::MAX)
    }

    /// An instance whose linear memory may grow to `limit` bytes.
    pub fn with_memory_limit(limit: u32) -> (guest: GuestInstance)
        ensures
            guest@ == GuestState::fresh(limit),
            guest@.wf(),
    {
        let mut memory: Vec<u8> = Vec::new();
        memory.push(0u8);
        let guest = GuestInstance { memory, areas: HashMap::new(), limit };
        assert(guest@.memory =~= seq![0u8]);
        guest
    }

    /// Current size of linear memory in bytes.
    pub fn memory_size(&self) -> (n: u32)
        requires
            self@.wf(),
        ensures
            n == self@.memory.len(),
    {
        self.memory.len() as u32
    }

    /// The table's record of `handle`, if it is live.
    pub fn buffer(&self, handle: u32) -> (r: Option<GuestBuffer>)
        ensures
            r is Some <==> self@.is_live(handle),
            r is Some ==> r->0 == (GuestBuffer { handle, size: self@.areas[handle] }),
    {
        match self.areas.get(&handle) {
            Some(size) => Some(GuestBuffer { handle, size: *size }),
            None => None,
        }
    }

    /// Whether a buffer of `size` bytes still fits below the limit.
    pub fn fits(&self, size: usize) -> (ok: bool)
        requires
            self@.wf(),
        ensures
            ok == self@.can_allocate(size as nat),
    {
        let used: usize = self.memory.len();
        let limit: usize = self.limit as usize;
        if limit <= used {
            return false;
        }
        let room: usize = limit - used;
        if size == 0 {
            true
        } else {
            size <= room
        }
    }

    /// Whether two buffers, of `first` and of `second` bytes, both still fit.
    pub fn fits_both(&self, first: usize, second: usize) -> (ok: bool)
        requires
            self@.wf(),
        ensures
            ok == (self@.memory.len() + span(first as nat) + span(second as nat) <= self@.limit),
    {
        let used: usize = self.memory.len();
        let limit: usize = self.limit as usize;
        if limit <= used {
            return false;
        }
        let room: usize = limit - used;
        let head: usize = if first == 0 {
            1
        } else {
            first
        };
        if head >= room {
            return false;
        }
        let tail: usize = if second == 0 {
            1
        } else {
            second
        };
        tail <= room - head
    }

    /// Copies `len` bytes out of linear memory, or reports `None` where the
    /// range leaves it.
    pub fn read(&self, offset: u32, len: u32) -> (r: Option<Vec<u8>>)
        ensures
            r is Some <==> self@.in_bounds(offset, len as nat),
            r is Some ==> r->0@ == self@.read(offset, len as nat),
    {
        let total: usize = self.memory.len();
        if offset as usize > total || len as usize > total - offset as usize {
            return None;
        }
        let piece = vstd::slice::slice_subrange(
            self.memory.as_slice(),
            offset as usize,
            offset as usize + len as usize,
        );
        Some(vstd::slice::slice_to_vec(piece))
    }

    /// Stores `bytes` from `offset` on; reports `false`, and changes nothing,
    /// where the range leaves linear memory.
    pub fn write(&mut self, offset: u32, bytes: &[u8]) -> (ok: bool)
        ensures
            ok == old(self)@.in_bounds(offset, bytes@.len()),
            ok ==> final(self)@ == old(self)@.write(offset, bytes@),
            !ok ==> final(self)@ == old(self)@,
            old(self)@.wf() ==> final(self)@.wf(),
    {
        let total: usize = self.memory.len();
        if offset as usize > total || bytes.len() > total - offset as usize {
            return false;
        }
        let base: usize = offset as usize;
        let mut i: usize = 0;
        while i < bytes.len()
            invariant
                i <= bytes@.len(),
                base + bytes@.len() <= total,
                self.memory@.len() == total,
                old(self).memory@.len() == total,
                self.areas == old(self).areas,
                self.limit == old(self).limit,
                forall|k: int|
                    0 <= k < self.memory@.len() ==> self.memory@[k] == if base <= k < base + i {
                        bytes@[k - base]
                    } else {
                        old(self).memory@[k]
                    },
            decreases bytes@.len() - i,
        {
            self.memory[base + i] = bytes[i];
            i += 1;
        }
        assert(self.memory@ =~= old(self)@.write(offset, bytes@).memory);
        true
    }
}

/// The recorded size of `ptr`, or `0` if `ptr` names no live buffer.
pub fn validate_pointer(guest: &GuestInstance, ptr: u32) -> (size: usize)
    ensures
        size == guest@.validate(ptr),
{
    match guest.areas.get(&ptr) {
        Some(size) => *size as usize,
        None => 0,
    }
}

/// Places `alloc_box` in linear memory as a new live buffer and returns its
/// handle, or returns `0`, and changes nothing, where the limit leaves no room.
pub fn allocate(guest: &mut GuestInstance, size: usize, alloc_box: Vec<u8>) -> (handle: u32)
    requires
        old(guest)@.wf(),
        size == alloc_box@.len(),
    ensures
        final(guest)@.wf(),
        (final(guest)@, handle) == old(guest)@.after_allocate(alloc_box@),
        handle != 0 <==> old(guest)@.can_allocate(size as nat),
{
    if !guest.fits(size) {
        return 0;
    }
    let handle: u32 = guest.memory.len() as u32;
    let mut bytes = alloc_box;
    if size == 0 {
        guest.memory.push(0u8);
    } else {
        guest.memory.append(&mut bytes);
    }
    guest.areas.insert(handle, size as u32);
    assert(final(guest)@.areas =~= old(guest)@.allocate(alloc_box@).areas);
    handle
}

/// Reserves `size` zeroed bytes as a new live buffer and returns its handle,
/// or `0` where linear memory is exhausted.
pub fn wasm_allocate(guest: &mut GuestInstance, size: u32) -> (handle: u32)
    requires
        old(guest)@.wf(),
    ensures
        final(guest)@.wf(),
        (final(guest)@, handle) == old(guest)@.after_allocate(zeros(size as nat)),
        handle != 0 <==> old(guest)@.can_allocate(size as nat),
{
    if !guest.fits(size as usize) {
        return 0;
    }
    let mut zeroed: Vec<u8> = Vec::new();
    zeroed.resize(size as usize, 0u8);
    assert(zeroed@ =~= zeros(size as nat));
    allocate(guest, size as usize, zeroed)
}

/// Removes `ptr` from the table and frees its bytes: `0` where it was live,
/// `-1`, with nothing changed, where it was not. The bytes of freed buffers
/// are handed out again once no buffer is live.
pub fn wasm_deallocate(guest: &mut GuestInstance, ptr: u32) -> (status: i32)
    requires
        old(guest)@.wf(),
    ensures
        final(guest)@.wf(),
        (final(guest)@, status) == old(guest)@.after_deallocate(ptr),
{
    match guest.areas.remove(&ptr) {
        Some(_) => {
            if guest.areas.is_empty() {
                guest.memory.truncate(1);
                assert(guest.areas@.dom() =~= Set::<u32>::empty());
            } else {
                assert(!(guest.areas@.dom() =~= Set::<u32>::empty()));
            }
            MemoryAreasReturnCode::Success.code()
        },
        None => {
            assert(final(guest)@.areas =~= old(guest)@.areas);
            MemoryAreasReturnCode::ErrorMemoryNotAllocated.code()
        },
    }
}

} // verus!
