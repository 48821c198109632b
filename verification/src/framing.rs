//! The check that a byte stream is sound before the stream reader gets it.
//!
//! The reader trusts what a message declares of its body. So the library
//! walks the messages first, as the reader will, and takes a stream only
//! where every record batch declares buffers inside its body, no nulls, no
//! compression and plausible lengths, where no message is a dictionary, and
//! where every column is of a kind that the model describes.
use crate::arrow_batch::{
    batch_layout, batch_layout_of, declared_fields, declared_kind, declared_len,
    declared_members, ipc_schema, member_views, message_header, message_header_of,
    stream_schema, ArrowFields, BatchLayout, BatchLayoutView, Kind,
};
use crate::tabular::{ColumnView, ContentView, FieldView, LeafView};
use vstd::bytes::{spec_u32_from_le_bytes, u32_from_le_bytes};
use vstd::prelude::*;
use vstd::slice::slice_subrange;

verus! {

/// The header type of a schema message.
pub const HEADER_SCHEMA: u8 = 1;

/// The header type of a dictionary batch message.
pub const HEADER_DICTIONARY_BATCH: u8 = 2;

/// The header type of a record batch message.
pub const HEADER_RECORD_BATCH: u8 = 3;

/// The word that may stand before the length of a message's metadata.
pub const CONTINUATION: u32 = 0xffff_ffff;

/// The greatest length that a message may declare for its metadata, for its
/// rows or for a column.
pub const MAX_DECLARED: i64 = 0x7fff_ffff;

/// The little-endian word at `pos`.
pub open spec fn word_at(bytes: Seq<u8>, pos: int) -> u32 {
    spec_u32_from_le_bytes(bytes.subrange(pos, pos + 4))
}

/// A column's node declares a plausible length and no null.
pub open spec fn node_sound(node: (i64, i64)) -> bool {
    0 <= node.0 <= MAX_DECLARED && node.1 == 0
}

/// A buffer lies inside a body of `body` bytes.
pub open spec fn buffer_sound(buffer: (i64, i64), body: int) -> bool {
    0 <= buffer.0 && 0 <= buffer.1 && buffer.0 + buffer.1 <= body
}

/// A buffer of `len` bytes holds whole cells of `width` bytes each.
pub open spec fn whole_cells(len: i64, width: u8) -> bool {
    &&& width == 4 ==> len % 4 == 0
    &&& width == 8 ==> len % 8 == 0
}

/// The widths of the cells in the buffers of one scalar column, in the order
/// in which a message lists them: the validity bits, then for text the
/// offsets and the bytes, for every other kind the values.
pub open spec fn leaf_widths(leaf: LeafView) -> Seq<u8> {
    match leaf {
        LeafView::Utf8(_) => seq![1u8, 4u8, 1u8],
        LeafView::Unsupported => Seq::empty(),
        _ => seq![1u8, 8u8],
    }
}

/// The widths of the cells in the buffers of a composite's members.
pub open spec fn member_widths(members: Seq<ColumnView>) -> Seq<u8>
    decreases members.len(),
{
    if members.len() == 0 {
        Seq::empty()
    } else {
        member_widths(members.drop_last()) + leaf_widths(members.last().leaf)
    }
}

/// The widths of the cells in the buffers of one field.
pub open spec fn field_widths(field: FieldView) -> Seq<u8> {
    match field.content {
        ContentView::Leaf(leaf) => leaf_widths(leaf),
        ContentView::Group(members) => seq![1u8] + member_widths(members),
    }
}

/// The widths of the cells in the buffers of a record batch with these
/// fields.
pub open spec fn schema_widths(fields: Seq<FieldView>) -> Seq<u8>
    decreases fields.len(),
{
    if fields.len() == 0 {
        Seq::empty()
    } else {
        schema_widths(fields.drop_last()) + field_widths(fields.last())
    }
}

/// A record batch declares nothing that leaves its body of `body` bytes, and
/// each of its buffers holds whole cells of the width that the schema gives.
pub open spec fn layout_sound(layout: BatchLayoutView, body: int, widths: Seq<u8>) -> bool {
    &&& !layout.compressed
    &&& 0 <= layout.rows <= MAX_DECLARED
    &&& forall|k: int| 0 <= k < layout.nodes.len() ==> node_sound(#[trigger] layout.nodes[k])
    &&& forall|k: int|
        0 <= k < layout.buffers.len() ==> buffer_sound(#[trigger] layout.buffers[k], body)
    &&& forall|k: int|
        0 <= k < layout.buffers.len() && k < widths.len() ==> whole_cells(
            (#[trigger] layout.buffers[k]).1,
            widths[k],
        )
}

/// The messages from `pos` on are sound. The walk ends, as the reader's
/// does, at the end of the bytes, at a length of zero, and at the first
/// message that the reader answers with an error.
pub open spec fn frames_sound(bytes: Seq<u8>, pos: int, first: bool, widths: Seq<u8>) -> bool
    decreases bytes.len() - pos,
{
    if pos < 0 || bytes.len() - pos < 4 {
        true
    } else {
        let at = if word_at(bytes, pos) == CONTINUATION {
            pos + 4
        } else {
            pos
        };
        if bytes.len() - at < 4 {
            true
        } else {
            let meta_len = word_at(bytes, at);
            let start = at + 4;
            if meta_len == 0 || meta_len > MAX_DECLARED || start + meta_len > bytes.len() {
                true
            } else {
                let meta = bytes.subrange(start, start + meta_len);
                match message_header_of(meta) {
                    None => true,
                    Some((kind, body)) => {
                        let next = start + meta_len + body;
                        if body < 0 || next > bytes.len() {
                            true
                        } else if first {
                            kind == HEADER_SCHEMA ==> frames_sound(bytes, next, false, widths)
                        } else if kind == HEADER_RECORD_BATCH {
                            (match batch_layout_of(meta) {
                                Some(layout) => layout_sound(layout, body as int, widths),
                                None => false,
                            }) && frames_sound(bytes, next, false, widths)
                        } else {
                            kind != HEADER_DICTIONARY_BATCH
                        }
                    },
                }
            }
        }
    }
}

/// The field is a scalar column of a described kind, or a composite of such
/// columns.
pub open spec fn field_described(field: FieldView) -> bool {
    match field.content {
        ContentView::Leaf(leaf) => !(leaf is Unsupported),
        ContentView::Group(members) => forall|j: int|
            0 <= j < members.len() ==> !((#[trigger] members[j]).leaf is Unsupported),
    }
}

/// Every field is a scalar column of a described kind, or a composite of
/// such columns.
pub open spec fn schema_described(fields: Seq<FieldView>) -> bool {
    forall|i: int| 0 <= i < fields.len() ==> field_described(#[trigger] fields[i])
}

/// The stream can be handed to the reader: where it has a schema, every
/// column is of a described kind, and its messages are sound.
pub open spec fn stream_is_sound(bytes: Seq<u8>) -> bool {
    match ipc_schema(bytes) {
        Some(fields) => schema_described(fields) && frames_sound(
            bytes,
            0,
            true,
            schema_widths(fields),
        ),
        None => true,
    }
}

/// The leaf of the declared field `i`, where that field is a scalar column.
pub open spec fn declared_leaf(fields: ArrowFields, i: int) -> LeafView {
    match declared_fields(fields)[i].content {
        ContentView::Leaf(leaf) => leaf,
        ContentView::Group(_) => LeafView::Unsupported,
    }
}

/// Whether the declared field `i`, which is no composite, is of a described
/// kind; its cell widths are put behind `widths`.
fn leaf_described(batch: &ArrowFields, i: usize, widths: &mut Vec<u8>) -> (ok: bool)
    requires
        i < declared_fields(*batch).len(),
        declared_fields(*batch)[i as int].content is Leaf,
    ensures
        ok == !(declared_leaf(*batch, i as int) is Unsupported),
        final(widths)@ == old(widths)@ + leaf_widths(declared_leaf(*batch, i as int)),
{
    match declared_kind(batch, i) {
        Kind::Other => {
            assert(widths@ + Seq::<u8>::empty() =~= widths@);
            false
        },
        Kind::Utf8 => {
            widths.push(1);
            widths.push(4);
            widths.push(1);
            assert(widths@ =~= old(widths)@ + seq![1u8, 4u8, 1u8]);
            true
        },
        _ => {
            widths.push(1);
            widths.push(8);
            assert(widths@ =~= old(widths)@ + seq![1u8, 8u8]);
            true
        },
    }
}

/// The cell widths of the buffers that the declared fields `batch` call for,
/// where every one of them is of a described kind; else `None`.
fn check_schema(batch: &ArrowFields) -> (widths: Option<Vec<u8>>)
    ensures
        widths is Some <==> schema_described(declared_fields(*batch)),
        widths is Some ==> widths->0@ == schema_widths(declared_fields(*batch)),
{
    let count: usize = declared_len(batch);
    let mut widths: Vec<u8> = Vec::new();
    let mut i: usize = 0;
    while i < count
        invariant
            i <= count,
            count == declared_fields(*batch).len(),
            schema_described(declared_fields(*batch).subrange(0, i as int)),
            widths@ == schema_widths(declared_fields(*batch).subrange(0, i as int)),
        decreases count - i,
    {
        let ghost fields = declared_fields(*batch);
        let ghost before = widths@;
        let ok: bool = match declared_members(batch, i) {
            Some(children) => {
                let members: usize = declared_len(&children);
                let ghost inner = declared_fields(children);
                widths.push(1);
                let mut j: usize = 0;
                let mut all: bool = true;
                while j < members
                    invariant
                        j <= members,
                        members == inner.len(),
                        inner == declared_fields(children),
                        all == (forall|n: int|
                            0 <= n < j ==> !((#[trigger] member_views(inner)[n]).leaf
                                is Unsupported)),
                        widths@ == before.push(1u8) + member_widths(
                            member_views(inner).subrange(0, j as int),
                        ),
                    decreases members - j,
                {
                    let ghost so_far = widths@;
                    let member_ok: bool = match declared_members(&children, j) {
                        Some(_) => {
                            assert(widths@ + Seq::<u8>::empty() =~= widths@);
                            false
                        },
                        None => leaf_described(&children, j, &mut widths),
                    };
                    proof {
                        let seen = member_views(inner).subrange(0, j as int);
                        let next = member_views(inner).subrange(0, j + 1);
                        assert(next.drop_last() =~= seen);
                        assert(next.last() == member_views(inner)[j as int]);
                        assert(widths@ =~= before.push(1u8) + member_widths(next));
                    }
                    assert(member_ok == !(member_views(inner)[j as int].leaf is Unsupported));
                    all = all && member_ok;
                    j += 1;
                }
                assert(member_views(inner).subrange(0, j as int) =~= member_views(inner));
                assert(fields[i as int].content == ContentView::Group(member_views(inner)));
                assert(all == field_described(fields[i as int]));
                assert(widths@ =~= before + field_widths(fields[i as int]));
                all
            },
            None => {
                let described: bool = leaf_described(batch, i, &mut widths);
                assert(described == field_described(fields[i as int]));
                described
            },
        };
        proof {
            let seen = fields.subrange(0, i as int);
            let next = fields.subrange(0, i + 1);
            assert(next.drop_last() =~= seen);
            assert(next.last() == fields[i as int]);
            assert(forall|n: int| 0 <= n < i ==> next[n] == seen[n]);
            assert(ok == field_described(fields[i as int]));
            assert(widths@ =~= schema_widths(next));
        }
        if !ok {
            return None;
        }
        i += 1;
    }
    assert(declared_fields(*batch).subrange(0, i as int) =~= declared_fields(*batch));
    Some(widths)
}

/// Whether a record batch declares nothing that leaves its body.
fn check_layout(layout: &BatchLayout, body: i64, widths: &Vec<u8>) -> (ok: bool)
    requires
        0 <= body,
    ensures
        ok == layout_sound(layout@, body as int, widths@),
{
    if layout.compressed || layout.rows < 0 || layout.rows > MAX_DECLARED {
        return false;
    }
    let mut k: usize = 0;
    while k < layout.nodes.len()
        invariant
            k <= layout.nodes@.len(),
            forall|n: int| 0 <= n < k ==> node_sound(#[trigger] layout.nodes@[n]),
        decreases layout.nodes@.len() - k,
    {
        let node: (i64, i64) = layout.nodes[k];
        if node.0 < 0 || node.0 > MAX_DECLARED || node.1 != 0 {
            assert(!node_sound(layout@.nodes[k as int]));
            return false;
        }
        k += 1;
    }
    let mut k: usize = 0;
    while k < layout.buffers.len()
        invariant
            k <= layout.buffers@.len(),
            0 <= body,
            forall|n: int| 0 <= n < k ==> buffer_sound(#[trigger] layout.buffers@[n], body as int),
            forall|n: int|
                0 <= n < k && n < widths@.len() ==> whole_cells(
                    (#[trigger] layout.buffers@[n]).1,
                    widths@[n],
                ),
        decreases layout.buffers@.len() - k,
    {
        let buffer: (i64, i64) = layout.buffers[k];
        if buffer.0 < 0 || buffer.1 < 0 || buffer.0 > body || buffer.1 > body - buffer.0 {
            assert(!buffer_sound(layout@.buffers[k as int], body as int));
            return false;
        }
        if k < widths.len() {
            let width: u8 = widths[k];
            if (width == 4 && buffer.1 % 4 != 0) || (width == 8 && buffer.1 % 8 != 0) {
                assert(!whole_cells(layout@.buffers[k as int].1, widths@[k as int]));
                return false;
            }
        }
        k += 1;
    }
    true
}

/// Whether the messages of `bytes` are sound.
fn check_frames(bytes: &[u8], widths: &Vec<u8>) -> (ok: bool)
    ensures
        ok == frames_sound(bytes@, 0, true, widths@),
{
    let total: usize = bytes.len();
    let mut pos: usize = 0;
    let mut first: bool = true;
    loop
        invariant
            pos <= total,
            total == bytes@.len(),
            frames_sound(bytes@, 0, true, widths@) == frames_sound(
                bytes@,
                pos as int,
                first,
                widths@,
            ),
        decreases total - pos,
    {
        if total - pos < 4 {
            return true;
        }
        let word: u32 = u32_from_le_bytes(slice_subrange(bytes, pos, pos + 4));
        let at: usize = if word == CONTINUATION {
            pos + 4
        } else {
            pos
        };
        if total - at < 4 {
            return true;
        }
        let meta_len: u32 = u32_from_le_bytes(slice_subrange(bytes, at, at + 4));
        let start: usize = at + 4;
        if meta_len == 0 || meta_len > 0x7fff_ffff || meta_len as usize > total - start {
            return true;
        }
        let end: usize = start + meta_len as usize;
        let meta: &[u8] = slice_subrange(bytes, start, end);
        let (kind, body): (u8, i64) = match message_header(meta) {
            Some(header) => header,
            None => { return true; },
        };
        if body < 0 || body as u64 > (total - end) as u64 {
            return true;
        }
        let next: usize = end + body as usize;
        if first {
            if kind != HEADER_SCHEMA {
                return true;
            }
        } else if kind == HEADER_RECORD_BATCH {
            let sound: bool = match batch_layout(meta) {
                Some(layout) => check_layout(&layout, body, widths),
                None => false,
            };
            if !sound {
                return false;
            }
        } else {
            return kind != HEADER_DICTIONARY_BATCH;
        }
        first = false;
        pos = next;
    }
}

/// Whether the stream can be handed to the reader.
pub fn check_stream(bytes: &[u8]) -> (ok: bool)
    ensures
        ok == stream_is_sound(bytes@),
{
    match stream_schema(bytes) {
        Some(batch) => match check_schema(&batch) {
            Some(widths) => check_frames(bytes, &widths),
            None => false,
        },
        None => true,
    }
}

} // verus!
