//! The byte conventions by which a value that is more than one number crosses
//! the boundary: nul-terminated text, and the packed pair of offset and length.
use vstd::bytes::{
    lemma_auto_spec_u32_to_from_le_bytes, spec_u32_from_le_bytes, spec_u32_to_le_bytes,
    u32_from_le_bytes, u32_to_le_bytes,
};
use vstd::prelude::*;
use vstd::slice::slice_subrange;

verus! {

/// Size in bytes of the packed pair of offset and length: two 32-bit words.
pub const METADATA_SIZE: u32 = 8;

/// No byte of `text` is zero.
pub open spec fn has_no_nul(text: Seq<u8>) -> bool {
    forall|i: int| 0 <= i < text.len() ==> #[trigger] text[i] != 0
}

/// `text` followed by the terminating zero byte.
pub open spec fn c_string(text: Seq<u8>) -> Seq<u8> {
    text.push(0u8)
}

/// `bytes` is text without a zero byte, followed by one zero byte.
pub open spec fn is_c_string(bytes: Seq<u8>) -> bool {
    &&& bytes.len() >= 1
    &&& bytes.last() == 0
    &&& has_no_nul(bytes.drop_last())
}

/// Where the first zero byte of `bytes` stands, if it holds one.
pub open spec fn first_nul(bytes: Seq<u8>) -> Option<int> {
    if exists|i: int| 0 <= i < bytes.len() && bytes[i] == 0 {
        Some(choose|i: int| 0 <= i < bytes.len() && bytes[i] == 0 && has_no_nul(bytes.subrange(0, i)))
    } else {
        None
    }
}

/// The text that a scan from `start` finds in `memory`: the bytes up to the
/// first zero byte, or `None` where the scan leaves `memory` before it meets
/// one.
pub open spec fn text_at(memory: Seq<u8>, start: u32) -> Option<Seq<u8>> {
    if start <= memory.len() {
        match first_nul(memory.subrange(start as int, memory.len() as int)) {
            Some(len) => Some(memory.subrange(start as int, start + len)),
            None => None,
        }
    } else {
        None
    }
}

/// The packed pair: `ptr`, then `len`, each as four little-endian bytes.
pub open spec fn packed(ptr: u32, len: u32) -> Seq<u8> {
    spec_u32_to_le_bytes(ptr) + spec_u32_to_le_bytes(len)
}

/// The pair that `bytes` packs, provided that `bytes` has the size of one.
pub open spec fn unpacked(bytes: Seq<u8>) -> Option<(u32, u32)> {
    if bytes.len() == METADATA_SIZE {
        Some(
            (
                spec_u32_from_le_bytes(bytes.subrange(0, 4)),
                spec_u32_from_le_bytes(bytes.subrange(4, 8)),
            ),
        )
    } else {
        None
    }
}

/// Unpacking a packed pair gives the pair back.
pub proof fn lemma_unpack_packed(ptr: u32, len: u32)
    ensures
        packed(ptr, len).len() == METADATA_SIZE,
        unpacked(packed(ptr, len)) == Some((ptr, len)),
{
    lemma_auto_spec_u32_to_from_le_bytes();
    let bytes = packed(ptr, len);
    assert(bytes.subrange(0, 4) =~= spec_u32_to_le_bytes(ptr));
    assert(bytes.subrange(4, 8) =~= spec_u32_to_le_bytes(len));
}

/// A zero byte with no zero byte before it is the first one.
pub proof fn lemma_first_nul_is(bytes: Seq<u8>, at: int)
    requires
        0 <= at < bytes.len(),
        bytes[at] == 0,
        has_no_nul(bytes.subrange(0, at)),
    ensures
        first_nul(bytes) == Some(at),
{
    let found = first_nul(bytes)->0;
    assert(0 <= found < bytes.len() && bytes[found] == 0 && has_no_nul(bytes.subrange(0, found)));
    if found < at {
        assert(bytes.subrange(0, at)[found] == bytes[found]);
    }
    if at < found {
        assert(bytes.subrange(0, found)[at] == bytes[at]);
    }
}

/// Where no byte is zero, there is no first zero byte.
pub proof fn lemma_first_nul_none(bytes: Seq<u8>)
    requires
        has_no_nul(bytes),
    ensures
        first_nul(bytes) is None,
{
}

/// The first zero byte of a nul-terminated text is its last byte.
pub proof fn lemma_first_nul_of_c_string(text: Seq<u8>)
    requires
        has_no_nul(text),
    ensures
        first_nul(c_string(text)) == Some(text.len() as int),
{
    let bytes = c_string(text);
    assert(bytes.subrange(0, text.len() as int) =~= text);
    lemma_first_nul_is(bytes, text.len() as int);
}

/// Appends the terminating zero byte to `text`.
pub fn encode_nul_terminated(text: &[u8]) -> (bytes: Vec<u8>)
    ensures
        bytes@ == c_string(text@),
{
    let mut bytes: Vec<u8> = vstd::slice::slice_to_vec(text);
    bytes.push(0u8);
    bytes
}

/// Index of the first zero byte of `bytes`, if it holds one.
pub fn find_nul(bytes: &[u8]) -> (found: Option<usize>)
    ensures
        match found {
            Some(i) => i < bytes@.len() && bytes@[i as int] == 0 && has_no_nul(
                bytes@.subrange(0, i as int),
            ),
            None => has_no_nul(bytes@),
        },
{
    let mut i: usize = 0;
    while i < bytes.len()
        invariant
            i <= bytes@.len(),
            has_no_nul(bytes@.subrange(0, i as int)),
        decreases bytes@.len() - i,
    {
        if bytes[i] == 0 {
            return Some(i);
        }
        proof {
            let seen = bytes@.subrange(0, i as int);
            let next = bytes@.subrange(0, i + 1);
            assert forall|k: int| 0 <= k < next.len() implies #[trigger] next[k] != 0 by {
                if k < i {
                    assert(seen[k] != 0);
                }
            }
        }
        i += 1;
    }
    assert(bytes@.subrange(0, i as int) =~= bytes@);
    None
}

/// The text of `bytes` where `bytes` is nul-terminated text, else `None`.
pub fn decode_nul_terminated(bytes: &[u8]) -> (text: Option<Vec<u8>>)
    ensures
        text is Some <==> is_c_string(bytes@),
        text is Some ==> text->0@ == bytes@.drop_last(),
{
    match find_nul(bytes) {
        Some(i) => {
            if i == bytes.len() - 1 {
                assert(bytes@.subrange(0, i as int) =~= bytes@.drop_last());
                Some(vstd::slice::slice_to_vec(slice_subrange(bytes, 0, i)))
            } else {
                assert(bytes@.drop_last()[i as int] == 0);
                None
            }
        },
        None => {
            assert(bytes@.len() >= 1 ==> bytes@.last() != 0);
            None
        },
    }
}

/// Packs `ptr` and `len` as two little-endian words.
pub fn pack_metadata(ptr: u32, len: u32) -> (bytes: Vec<u8>)
    ensures
        bytes@ == packed(ptr, len),
        bytes@.len() == METADATA_SIZE,
{
    let mut bytes: Vec<u8> = u32_to_le_bytes(ptr);
    let mut tail: Vec<u8> = u32_to_le_bytes(len);
    bytes.append(&mut tail);
    bytes
}

/// Reads the packed pair out of `bytes`, which must have exactly its size.
pub fn unpack_metadata(bytes: &[u8]) -> (pair: Option<(u32, u32)>)
    ensures
        pair == unpacked(bytes@),
{
    if bytes.len() != 8 {
        return None;
    }
    let ptr: u32 = u32_from_le_bytes(slice_subrange(bytes, 0, 4));
    let len: u32 = u32_from_le_bytes(slice_subrange(bytes, 4, 8));
    Some((ptr, len))
}

} // verus!
