//! The tabular module of the guest: it takes a command batch and a data
//! batch, checks both against what it expects, and answers with a batch in
//! which one field of the record was changed.
use crate::adapter::{after_reply, declared_payload, fetch_declared, publish};
use crate::codec::{decode_stream, decoded, encode_batch, encoded};
use crate::memory::{GuestInstance, GuestState};
use crate::tabular::{
    batch_views, column_views, field_views, texts, Batch, BatchView, Column, Content,
    ContentView, Field, FieldView, Leaf, LeafView,
};
use vstd::prelude::*;
use vstd::string::StringExecFns;

verus! {

/// The record's timestamp: 2022-01-01T12:00:00Z in seconds since the epoch.
pub const RECORD_DATE: i64 = 1641038400;

/// The record's score, 1.123456, as the bit pattern of the double.
pub const RECORD_SCORE_BITS: u64 = 0x3ff1f9acffa7eb6c;

/// `field` is a text column called `name`.
pub open spec fn is_text_field(field: FieldView, name: Seq<char>) -> bool {
    field.name == name && field.content matches ContentView::Leaf(LeafView::Utf8(_))
}

/// The first cell of a text column.
pub open spec fn first_text(field: FieldView) -> Option<Seq<char>> {
    match field.content {
        ContentView::Leaf(LeafView::Utf8(cells)) => if cells.len() > 0 {
            Some(cells[0])
        } else {
            None
        },
        _ => None,
    }
}

/// What the module expects of a command batch: one row; a text field
/// `command` that says `test`; a composite `config` whose only member is the
/// text `filename`, not nullable, that says `test.txt`.
pub open spec fn accepts_command(batch: BatchView) -> bool {
    &&& batch.fields.len() >= 2
    &&& batch.rows == 1
    &&& is_text_field(batch.fields[0], "command"@)
    &&& first_text(batch.fields[0]) == Some("test"@)
    &&& batch.fields[1].name == "config"@
    &&& batch.fields[1].content matches ContentView::Group(members)
    &&& members.len() == 1
    &&& members[0].name == "filename"@
    &&& !members[0].nullable
    &&& first_text(members[0].as_field()) == Some("test.txt"@)
}

/// What the module expects of a data batch: one row; `id` 1; `content` and
/// `title` as texts; `date` in seconds at offset `+00:00`; `score` a double.
pub open spec fn accepts_data(batch: BatchView) -> bool {
    &&& batch.fields.len() >= 5
    &&& batch.rows == 1
    &&& batch.fields[0].name == "id"@
    &&& batch.fields[0].content matches ContentView::Leaf(LeafView::UInt64(ids))
    &&& ids.len() > 0 && ids[0] == 1
    &&& is_text_field(batch.fields[1], "content"@)
    &&& first_text(batch.fields[1]) == Some("this is a test"@)
    &&& is_text_field(batch.fields[2], "title"@)
    &&& first_text(batch.fields[2]) == Some("test"@)
    &&& batch.fields[3].name == "date"@
    &&& batch.fields[3].content matches ContentView::Leaf(
        LeafView::TimestampSecond { zone, seconds },
    )
    &&& zone == "+00:00"@
    &&& seconds.len() > 0 && seconds[0] == RECORD_DATE
    &&& batch.fields[4].name == "score"@
    &&& batch.fields[4].content matches ContentView::Leaf(LeafView::Float64(scores))
    &&& scores.len() > 0 && scores[0] == RECORD_SCORE_BITS
}

/// A stream is accepted as a command where it decodes, holds a batch, and
/// each of its batches is what the module expects.
pub open spec fn command_accepted(bytes: Seq<u8>) -> bool {
    match decoded(bytes) {
        Some(batches) => batches.len() > 0 && forall|k: int|
            0 <= k < batches.len() ==> accepts_command(#[trigger] batches[k]),
        None => false,
    }
}

/// A stream is accepted as data where it decodes, holds a batch, and each of
/// its batches is what the module expects.
pub open spec fn data_accepted(bytes: Seq<u8>) -> bool {
    match decoded(bytes) {
        Some(batches) => batches.len() > 0 && forall|k: int|
            0 <= k < batches.len() ==> accepts_data(#[trigger] batches[k]),
        None => false,
    }
}

/// The answer: the record's `id`, and its `content` with the change made.
pub open spec fn reply_view() -> BatchView {
    BatchView {
        rows: 1,
        fields: seq![
            FieldView {
                name: "id"@,
                nullable: false,
                content: ContentView::Leaf(LeafView::UInt64(seq![1u64])),
            },
            FieldView {
                name: "content"@,
                nullable: false,
                content: ContentView::Leaf(LeafView::Utf8(seq!["this is a test2"@])),
            },
        ],
    }
}

/// What the module answers to the two payloads: the encoded answer where
/// both are accepted, `None` where either is not.
pub open spec fn process_reply(command: Seq<u8>, data: Seq<u8>) -> Option<Seq<u8>> {
    if command_accepted(command) && data_accepted(data) {
        encoded(reply_view())
    } else {
        None
    }
}

/// What the tabular adapter answers for the two declared payloads.
pub open spec fn arrow_reply(
    guest: GuestState,
    command: u32,
    command_size: u32,
    data: u32,
    data_size: u32,
) -> Option<Seq<u8>> {
    match (
        declared_payload(guest, command, command_size),
        declared_payload(guest, data, data_size),
    ) {
        (Some(command_bytes), Some(data_bytes)) => process_reply(command_bytes, data_bytes),
        _ => None,
    }
}

/// What the tabular adapter leaves and returns.
pub open spec fn process_result(
    guest: GuestState,
    command: u32,
    command_size: u32,
    data: u32,
    data_size: u32,
) -> (GuestState, u32) {
    after_reply(guest, arrow_reply(guest, command, command_size, data, data_size))
}

/// Whether `text` reads `literal`.
fn text_is(text: &String, literal: &str) -> (same: bool)
    ensures
        same == (text@ == literal@),
{
    *text == String::from_str(literal)
}

/// Whether the first cell of `cells` reads `literal`.
fn first_is(cells: &Vec<String>, literal: &str) -> (same: bool)
    ensures
        same == (cells@.len() > 0 && cells@[0]@ == literal@),
{
    cells.len() > 0 && text_is(&cells[0], literal)
}

/// Whether `field` is a text column called `name` whose first cell reads
/// `value`.
fn text_field_is(field: &Field, name: &str, value: &str) -> (ok: bool)
    ensures
        ok == (is_text_field(field@, name@) && first_text(field@) == Some(value@)),
{
    if !text_is(&field.name, name) {
        return false;
    }
    match &field.content {
        Content::Leaf(Leaf::Utf8(cells)) => {
            assert(cells@.len() > 0 ==> texts(cells@)[0] == cells@[0]@);
            first_is(cells, value)
        },
        _ => false,
    }
}

/// Whether `batch` is a command batch as the module expects it.
pub fn check_command(batch: &Batch) -> (ok: bool)
    ensures
        ok == accepts_command(batch@),
{
    if batch.fields.len() < 2 || batch.rows != 1 {
        return false;
    }
    let command: &Field = &batch.fields[0];
    let config: &Field = &batch.fields[1];
    assert(batch@.fields[0] == command@);
    assert(batch@.fields[1] == config@);
    if !text_field_is(command, "command", "test") {
        return false;
    }
    if !text_is(&config.name, "config") {
        return false;
    }
    match &config.content {
        Content::Group(members) => {
            if members.len() != 1 {
                return false;
            }
            let filename: &Column = &members[0];
            assert(column_views(members@)[0] == filename@);
            if filename.nullable || !text_is(&filename.name, "filename") {
                return false;
            }
            match &filename.leaf {
                Leaf::Utf8(cells) => {
                    assert(cells@.len() > 0 ==> texts(cells@)[0] == cells@[0]@);
                    first_is(cells, "test.txt")
                },
                _ => false,
            }
        },
        Content::Leaf(_) => false,
    }
}

/// Whether `batch` is a data batch as the module expects it.
pub fn check_data(batch: &Batch) -> (ok: bool)
    ensures
        ok == accepts_data(batch@),
{
    if batch.fields.len() < 5 || batch.rows != 1 {
        return false;
    }
    let id: &Field = &batch.fields[0];
    let content: &Field = &batch.fields[1];
    let title: &Field = &batch.fields[2];
    let date: &Field = &batch.fields[3];
    let score: &Field = &batch.fields[4];
    assert(batch@.fields[0] == id@);
    assert(batch@.fields[1] == content@);
    assert(batch@.fields[2] == title@);
    assert(batch@.fields[3] == date@);
    assert(batch@.fields[4] == score@);
    let id_ok: bool = text_is(&id.name, "id") && match &id.content {
        Content::Leaf(Leaf::UInt64(ids)) => ids.len() > 0 && ids[0] == 1,
        _ => false,
    };
    let date_ok: bool = text_is(&date.name, "date") && match &date.content {
        Content::Leaf(Leaf::TimestampSecond { zone, seconds }) => text_is(zone, "+00:00")
            && seconds.len() > 0 && seconds[0] == RECORD_DATE,
        _ => false,
    };
    let score_ok: bool = text_is(&score.name, "score") && match &score.content {
        Content::Leaf(Leaf::Float64(scores)) => scores.len() > 0 && scores[0]
            == RECORD_SCORE_BITS,
        _ => false,
    };
    id_ok && text_field_is(content, "content", "this is a test") && text_field_is(
        title,
        "title",
        "test",
    ) && date_ok && score_ok
}

/// Whether `bytes` is a stream that the module accepts as a command.
pub fn accept_command_stream(bytes: &[u8]) -> (ok: bool)
    ensures
        ok == command_accepted(bytes@),
{
    let batches: Vec<Batch> = match decode_stream(bytes) {
        Some(batches) => batches,
        None => { return false; },
    };
    if batches.len() == 0 {
        return false;
    }
    let mut k: usize = 0;
    while k < batches.len()
        invariant
            k <= batches@.len(),
            decoded(bytes@) == Some(batch_views(batches@)),
            forall|n: int| 0 <= n < k ==> accepts_command(#[trigger] batch_views(batches@)[n]),
        decreases batches@.len() - k,
    {
        if !check_command(&batches[k]) {
            assert(!accepts_command(batch_views(batches@)[k as int]));
            return false;
        }
        k += 1;
    }
    true
}

/// Whether `bytes` is a stream that the module accepts as data.
pub fn accept_data_stream(bytes: &[u8]) -> (ok: bool)
    ensures
        ok == data_accepted(bytes@),
{
    let batches: Vec<Batch> = match decode_stream(bytes) {
        Some(batches) => batches,
        None => { return false; },
    };
    if batches.len() == 0 {
        return false;
    }
    let mut k: usize = 0;
    while k < batches.len()
        invariant
            k <= batches@.len(),
            decoded(bytes@) == Some(batch_views(batches@)),
            forall|n: int| 0 <= n < k ==> accepts_data(#[trigger] batch_views(batches@)[n]),
        decreases batches@.len() - k,
    {
        if !check_data(&batches[k]) {
            assert(!accepts_data(batch_views(batches@)[k as int]));
            return false;
        }
        k += 1;
    }
    true
}

/// A field that is a text column of one cell.
pub fn text_field(name: &str, value: &str) -> (field: Field)
    ensures
        field@ == (FieldView {
            name: name@,
            nullable: false,
            content: ContentView::Leaf(LeafView::Utf8(seq![value@])),
        }),
{
    let mut cells: Vec<String> = Vec::new();
    cells.push(String::from_str(value));
    assert(texts(cells@) =~= seq![value@]);
    Field { name: String::from_str(name), nullable: false, content: Content::Leaf(Leaf::Utf8(cells)) }
}

/// A field that is a column of one unsigned integer.
pub fn number_field(name: &str, value: u64) -> (field: Field)
    ensures
        field@ == (FieldView {
            name: name@,
            nullable: false,
            content: ContentView::Leaf(LeafView::UInt64(seq![value])),
        }),
{
    let mut cells: Vec<u64> = Vec::new();
    cells.push(value);
    assert(cells@ =~= seq![value]);
    Field { name: String::from_str(name), nullable: false, content: Content::Leaf(Leaf::UInt64(cells)) }
}

/// The batch that the module answers with.
pub fn reply_batch() -> (batch: Batch)
    ensures
        batch@ == reply_view(),
{
    let mut fields: Vec<Field> = Vec::new();
    fields.push(number_field("id", 1));
    fields.push(text_field("content", "this is a test2"));
    assert(field_views(fields@) =~= reply_view().fields);
    Batch { rows: 1, fields }
}

/// Checks the two payloads and encodes the answer; `None` where either
/// payload is not accepted or the answer cannot be encoded.
pub fn process_payloads(command: &[u8], data: &[u8]) -> (reply: Option<Vec<u8>>)
    ensures
        match process_reply(command@, data@) {
            Some(bytes) => reply is Some && reply->0@ == bytes,
            None => reply is None,
        },
{
    if !accept_command_stream(command) {
        return None;
    }
    if !accept_data_stream(data) {
        return None;
    }
    let answer: Batch = reply_batch();
    encode_batch(&answer)
}

/// Tabular pattern. Reads the command payload and the data payload, each at
/// its handle with its declared size, and returns the handle of a packed pair
/// that points at the encoded answer. Returns `0`, and changes nothing, where
/// a handle is not live, where a recorded size is not the declared one, where
/// a payload is not accepted, or where the result does not fit.
pub fn wasm_memory_process_data_arrow(
    guest: &mut GuestInstance,
    meta_data_offset: u32,
    meta_data_size: u32,
    data_offset: u32,
    data_size: u32,
) -> (reply: u32)
    requires
        old(guest)@.wf(),
    ensures
        final(guest)@.wf(),
        (final(guest)@, reply) == process_result(
            old(guest)@,
            meta_data_offset,
            meta_data_size,
            data_offset,
            data_size,
        ),
{
    let command: Vec<u8> = match fetch_declared(guest, meta_data_offset, meta_data_size) {
        Some(bytes) => bytes,
        None => { return 0; },
    };
    let data: Vec<u8> = match fetch_declared(guest, data_offset, data_size) {
        Some(bytes) => bytes,
        None => { return 0; },
    };
    match process_payloads(command.as_slice(), data.as_slice()) {
        Some(answer) => publish(guest, answer),
        None => 0,
    }
}

} // verus!
