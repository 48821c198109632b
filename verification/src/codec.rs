//! The tabular interchange codec: between a self-describing columnar byte
//! stream and batches of plain values.
//!
//! The byte format is the `arrow` crate's IPC stream; what is verified here is
//! the passage between its record batches and the plain model.
use crate::arrow_batch::{
    batch_fields, batch_is_plain, batch_rows, batch_view, column_f64_bits, column_group,
    column_kind, column_name, column_nullable, column_seconds, column_u64, column_utf8,
    empty_batch, ipc_decoded, ipc_encoded, ipc_read, ipc_write, leaf_at, member_views,
    num_columns, num_rows, pretty_table, push_f64_bits, push_group, push_seconds, push_u64, push_utf8,
    table_text, ArrowBatch, Kind,
};
use crate::framing::{check_stream, stream_is_sound};
use crate::tabular::{
    batch_views, column_views, field_views, seconds_drawable, text_bytes, texts, Batch,
    BatchView, Column, Content, ContentView, Field, FieldView, Leaf, LeafView,
    MAX_DRAWN_SECONDS, MAX_TEXT_BYTES,
};
use vstd::prelude::*;

verus! {

/// Whether a batch can be assembled from `batch`: every column is of a
/// described kind and has the batch's number of rows, and where there is no
/// column to take the number of rows from, that number is zero.
pub open spec fn buildable(batch: BatchView) -> bool {
    &&& batch.well_formed()
    &&& batch.fields.len() == 0 ==> batch.rows == 0
    &&& forall|i: int|
        0 <= i < batch.fields.len() ==> (#[trigger] batch.fields[i].content matches ContentView::Group(
            members,
        ) ==> members.len() > 0 || batch.rows == 0)
}

/// The encoding of `batch`, where it can be assembled and the stream writer
/// takes it.
pub open spec fn encoded(batch: BatchView) -> Option<Seq<u8>> {
    if buildable(batch) {
        ipc_encoded(batch)
    } else {
        None
    }
}

/// Reads the cells of the scalar column `i`.
fn read_leaf(batch: &ArrowBatch, i: usize) -> (leaf: Leaf)
    requires
        i < batch_fields(*batch).len(),
        batch_fields(*batch)[i as int].content is Leaf,
    ensures
        leaf@ == leaf_at(*batch, i as int),
{
    match column_kind(batch, i) {
        Kind::UInt64 => Leaf::UInt64(column_u64(batch, i)),
        Kind::Utf8 => Leaf::Utf8(column_utf8(batch, i)),
        Kind::Float64 => Leaf::Float64(column_f64_bits(batch, i)),
        Kind::TimestampSecond(zone) => {
            let seconds: Vec<i64> = column_seconds(batch, i);
            Leaf::TimestampSecond { zone, seconds }
        },
        Kind::Other => Leaf::Unsupported,
    }
}

/// Reads the member columns of a composite out of the batch of its children.
fn read_members(children: &ArrowBatch) -> (members: Vec<Column>)
    ensures
        column_views(members@) == member_views(batch_fields(*children)),
{
    let count: usize = num_columns(children);
    let mut members: Vec<Column> = Vec::new();
    let mut j: usize = 0;
    while j < count
        invariant
            j <= count,
            count == batch_fields(*children).len(),
            members@.len() == j,
            forall|k: int|
                0 <= k < j ==> (#[trigger] members@[k])@ == batch_fields(*children)[k].as_member(),
        decreases count - j,
    {
        let name: String = column_name(children, j);
        let nullable: bool = column_nullable(children, j);
        let leaf: Leaf = match column_group(children, j) {
            Some(_) => Leaf::Unsupported,
            None => read_leaf(children, j),
        };
        members.push(Column { name, nullable, leaf });
        j += 1;
    }
    assert(column_views(members@) =~= member_views(batch_fields(*children)));
    members
}

/// Reads field `i`.
fn read_field(batch: &ArrowBatch, i: usize) -> (field: Field)
    requires
        i < batch_fields(*batch).len(),
    ensures
        field@ == batch_fields(*batch)[i as int],
{
    let name: String = column_name(batch, i);
    let nullable: bool = column_nullable(batch, i);
    let content: Content = match column_group(batch, i) {
        Some(children) => Content::Group(read_members(&children)),
        None => Content::Leaf(read_leaf(batch, i)),
    };
    Field { name, nullable, content }
}

/// Reads a record batch into plain values.
pub(crate) fn read_batch(batch: &ArrowBatch) -> (plain: Batch)
    ensures
        plain@ == batch_view(*batch),
{
    let count: usize = num_columns(batch);
    let mut fields: Vec<Field> = Vec::new();
    let mut i: usize = 0;
    while i < count
        invariant
            i <= count,
            count == batch_fields(*batch).len(),
            fields@.len() == i,
            forall|k: int| 0 <= k < i ==> (#[trigger] fields@[k])@ == batch_fields(*batch)[k],
        decreases count - i,
    {
        let field: Field = read_field(batch, i);
        fields.push(field);
        i += 1;
    }
    assert(field_views(fields@) =~= batch_fields(*batch));
    Batch { rows: num_rows(batch), fields }
}

/// The batches of the stream `bytes`, where the stream is sound and the
/// stream reader takes it.
pub open spec fn decoded(bytes: Seq<u8>) -> Option<Seq<BatchView>> {
    if stream_is_sound(bytes) {
        ipc_decoded(bytes)
    } else {
        None
    }
}

/// Decodes a byte stream into its batches, or gives `None` where the stream
/// is not sound or the stream reader rejects the bytes.
pub fn decode_stream(bytes: &[u8]) -> (batches: Option<Vec<Batch>>)
    ensures
        match decoded(bytes@) {
            Some(views) => batches is Some && batch_views(batches->0@) == views,
            None => batches is None,
        },
{
    if !check_stream(bytes) {
        return None;
    }
    let raw: Vec<ArrowBatch> = match ipc_read(bytes) {
        Ok(raw) => raw,
        Err(_) => { return None; },
    };
    let mut batches: Vec<Batch> = Vec::new();
    let mut k: usize = 0;
    while k < raw.len()
        invariant
            k <= raw@.len(),
            batches@.len() == k,
            forall|n: int| 0 <= n < k ==> (#[trigger] batches@[n])@ == batch_view(raw@[n]),
        decreases raw@.len() - k,
    {
        let plain: Batch = read_batch(&raw[k]);
        batches.push(plain);
        k += 1;
    }
    assert(batch_views(batches@) =~= ipc_decoded(bytes@)->0);
    Some(batches)
}

/// Puts one scalar column behind the fields of `batch`.
fn push_leaf(batch: &ArrowBatch, name: &str, nullable: bool, leaf: &Leaf) -> (r: Option<ArrowBatch>)
    requires
        batch_is_plain(*batch),
        leaf@ matches LeafView::Utf8(cells) ==> text_bytes(cells) <= MAX_TEXT_BYTES,
    ensures
        r is Some <==> leaf@.len() is Some && (batch_fields(*batch).len() == 0 || leaf@.len()->0
            == batch_rows(*batch)),
        r is Some ==> batch_is_plain(r->0) && batch_rows(r->0) == leaf@.len()->0 && batch_fields(
            r->0,
        ) == batch_fields(*batch).push(
            FieldView { name: name@, nullable, content: ContentView::Leaf(leaf@) },
        ),
{
    let pushed = match leaf {
        Leaf::UInt64(cells) => push_u64(batch, name, nullable, cells),
        Leaf::Utf8(cells) => push_utf8(batch, name, nullable, cells),
        Leaf::Float64(cells) => push_f64_bits(batch, name, nullable, cells),
        Leaf::TimestampSecond { zone, seconds } => push_seconds(
            batch,
            name,
            nullable,
            zone.as_str(),
            seconds,
        ),
        Leaf::Unsupported => { return None; },
    };
    match pushed {
        Ok(next) => Some(next),
        Err(_) => None,
    }
}

/// Assembles the batch that holds `members` as its fields.
fn build_members(members: &Vec<Column>, rows: usize) -> (r: Option<ArrowBatch>)
    ensures
        r is Some <==> (forall|j: int|
            0 <= j < members@.len() ==> (#[trigger] members@[j])@.leaf.fills(rows as nat)),
        r is Some ==> batch_is_plain(r->0) && member_views(batch_fields(r->0)) == column_views(
            members@,
        ) && batch_rows(r->0) == (if members@.len() == 0 {
            0
        } else {
            rows as nat
        }),
        r is Some ==> forall|j: int|
            0 <= j < batch_fields(r->0).len() ==> (#[trigger] batch_fields(r->0)[j]).content is Leaf,
{
    let mut batch: ArrowBatch = empty_batch();
    let mut j: usize = 0;
    while j < members.len()
        invariant
            j <= members@.len(),
            batch_is_plain(batch),
            batch_fields(batch).len() == j,
            batch_rows(batch) == (if j == 0 {
                0
            } else {
                rows as nat
            }),
            forall|k: int| 0 <= k < j ==> (#[trigger] members@[k])@.leaf.fills(rows as nat),
            forall|k: int|
                0 <= k < j ==> (#[trigger] batch_fields(batch)[k]) == members@[k]@.as_field(),
        decreases members@.len() - j,
    {
        let member: &Column = &members[j];
        if !leaf_has_rows(&member.leaf, rows) {
            return None;
        }
        batch =
        match push_leaf(&batch, member.name.as_str(), member.nullable, &member.leaf) {
            Some(next) => next,
            None => { return None; },
        };
        j += 1;
    }
    assert(member_views(batch_fields(batch)) =~= column_views(members@));
    Some(batch)
}

/// Whether the texts of `cells` are together no longer than 32-bit offsets
/// reach.
fn texts_fit(cells: &Vec<String>) -> (ok: bool)
    ensures
        ok == (text_bytes(texts(cells@)) <= MAX_TEXT_BYTES),
{
    let mut total: usize = 0;
    let mut i: usize = 0;
    while i < cells.len()
        invariant
            i <= cells@.len(),
            total == text_bytes(texts(cells@).subrange(0, i as int)),
            total <= MAX_TEXT_BYTES,
        decreases cells@.len() - i,
    {
        let len: usize = cells[i].as_str().as_bytes().len();
        proof {
            let seen = texts(cells@).subrange(0, i as int);
            let next = texts(cells@).subrange(0, i + 1);
            assert(next.drop_last() =~= seen);
            assert(next.last() == cells@[i as int]@);
            assert(len == vstd::utf8::encode_utf8(cells@[i as int]@).len());
            if len > MAX_TEXT_BYTES - total {
                lemma_text_bytes_grow(texts(cells@), i + 1);
            }
        }
        if len > MAX_TEXT_BYTES - total {
            return false;
        }
        total = total + len;
        i += 1;
    }
    assert(texts(cells@).subrange(0, i as int) =~= texts(cells@));
    true
}

/// The bytes of the first `n` texts are no more than the bytes of all.
proof fn lemma_text_bytes_grow(cells: Seq<Seq<char>>, n: int)
    requires
        0 <= n <= cells.len(),
    ensures
        text_bytes(cells.subrange(0, n)) <= text_bytes(cells),
    decreases cells.len() - n,
{
    if n < cells.len() {
        let next = cells.subrange(0, n + 1);
        assert(next.drop_last() =~= cells.subrange(0, n));
        lemma_text_bytes_grow(cells, n + 1);
    } else {
        assert(cells.subrange(0, n) =~= cells);
    }
}

/// Whether `leaf` is of a described kind and has `rows` cells, and its texts
/// are together no longer than 32-bit offsets reach.
fn leaf_has_rows(leaf: &Leaf, rows: usize) -> (ok: bool)
    ensures
        ok == leaf@.fills(rows as nat),
{
    match leaf {
        Leaf::UInt64(cells) => cells.len() == rows,
        Leaf::Utf8(cells) => cells.len() == rows && texts_fit(cells),
        Leaf::Float64(cells) => cells.len() == rows,
        Leaf::TimestampSecond { zone, seconds } => seconds.len() == rows,
        Leaf::Unsupported => false,
    }
}

/// Assembles a record batch from plain values.
pub(crate) fn build_batch(plain: &Batch) -> (r: Option<ArrowBatch>)
    ensures
        r is Some <==> buildable(plain@),
        r is Some ==> batch_is_plain(r->0) && batch_view(r->0) == plain@,
{
    let rows: usize = plain.rows;
    let mut batch: ArrowBatch = empty_batch();
    let mut i: usize = 0;
    while i < plain.fields.len()
        invariant
            i <= plain.fields@.len(),
            rows == plain.rows,
            batch_is_plain(batch),
            batch_fields(batch).len() == i,
            batch_rows(batch) == (if i == 0 {
                0
            } else {
                rows as nat
            }),
            forall|k: int| 0 <= k < i ==> (#[trigger] plain@.fields[k]).fills(rows as nat),
            forall|k: int|
                0 <= k < i ==> (#[trigger] plain@.fields[k].content matches ContentView::Group(
                    members,
                ) ==> members.len() > 0 || rows == 0),
            forall|k: int| 0 <= k < i ==> (#[trigger] batch_fields(batch)[k]) == plain@.fields[k],
        decreases plain.fields@.len() - i,
    {
        let field: &Field = &plain.fields[i];
        assert(plain@.fields[i as int] == field@);
        let next: Option<ArrowBatch> = match &field.content {
            Content::Leaf(leaf) => {
                if leaf_has_rows(leaf, rows) {
                    push_leaf(&batch, field.name.as_str(), field.nullable, leaf)
                } else {
                    assert(!field@.fills(rows as nat));
                    None
                }
            },
            Content::Group(members) => {
                if members.len() == 0 && rows != 0 {
                    assert(field@.content matches ContentView::Group(m) && m.len() == 0);
                    None
                } else {
                    match build_members(members, rows) {
                        Some(children) => {
                            match push_group(&batch, field.name.as_str(), field.nullable, children) {
                                Ok(next) => Some(next),
                                Err(_) => None,
                            }
                        },
                        None => {
                            assert(!field@.fills(rows as nat)) by {
                                if field@.fills(rows as nat) {
                                    assert forall|j: int| 0 <= j < members@.len() implies (
                                    #[trigger] members@[j])@.leaf.fills(rows as nat) by {
                                        assert(column_views(members@)[j] == members@[j]@);
                                    }
                                }
                            }
                            None
                        },
                    }
                }
            },
        };
        assert(next is None ==> !buildable(plain@));
        batch =
        match next {
            Some(next) => next,
            None => { return None; },
        };
        i += 1;
    }
    if i == 0 && rows != 0 {
        return None;
    }
    assert(batch_fields(batch) =~= plain@.fields);
    Some(batch)
}

/// Encodes one batch as a byte stream, or gives `None` where the batch cannot
/// be assembled or the stream writer reports an error.
pub fn encode_batch(plain: &Batch) -> (bytes: Option<Vec<u8>>)
    ensures
        match encoded(plain@) {
            Some(stream) => bytes is Some && bytes->0@ == stream,
            None => bytes is None,
        },
{
    match build_batch(plain) {
        Some(batch) => match ipc_write(&batch) {
            Ok(bytes) => Some(bytes),
            Err(_) => None,
        },
        None => None,
    }
}

/// The table drawn of `batch`, where it can be assembled, every timestamp in
/// it can be drawn as a date, and the pretty printer takes it.
pub open spec fn rendered(batch: BatchView) -> Option<Seq<char>> {
    if buildable(batch) && batch.drawable() {
        table_text(batch)
    } else {
        None
    }
}

/// Whether every one of `seconds` can be drawn as a date.
fn check_seconds(seconds: &Vec<i64>) -> (ok: bool)
    ensures
        ok == seconds_drawable(seconds@),
{
    let mut k: usize = 0;
    while k < seconds.len()
        invariant
            k <= seconds@.len(),
            forall|n: int|
                0 <= n < k ==> -MAX_DRAWN_SECONDS <= #[trigger] seconds@[n] <= MAX_DRAWN_SECONDS,
        decreases seconds@.len() - k,
    {
        if seconds[k] < -MAX_DRAWN_SECONDS || seconds[k] > MAX_DRAWN_SECONDS {
            return false;
        }
        k += 1;
    }
    true
}

/// Whether every timestamp of `leaf` can be drawn as a date.
fn check_leaf_drawable(leaf: &Leaf) -> (ok: bool)
    ensures
        ok == leaf@.drawable(),
{
    match leaf {
        Leaf::TimestampSecond { zone, seconds } => check_seconds(seconds),
        _ => true,
    }
}

/// Whether every timestamp of `plain` can be drawn as a date.
pub fn check_drawable(plain: &Batch) -> (ok: bool)
    ensures
        ok == plain@.drawable(),
{
    let mut i: usize = 0;
    while i < plain.fields.len()
        invariant
            i <= plain.fields@.len(),
            forall|n: int| 0 <= n < i ==> (#[trigger] plain@.fields[n]).drawable(),
        decreases plain.fields@.len() - i,
    {
        let field: &Field = &plain.fields[i];
        assert(plain@.fields[i as int] == field@);
        match &field.content {
            Content::Leaf(leaf) => {
                if !check_leaf_drawable(leaf) {
                    return false;
                }
            },
            Content::Group(members) => {
                let mut j: usize = 0;
                while j < members.len()
                    invariant
                        j <= members@.len(),
                        i < plain.fields@.len(),
                        plain@.fields[i as int] == field@,
                        field@.content == ContentView::Group(column_views(members@)),
                        forall|n: int|
                            0 <= n < j ==> (#[trigger] column_views(members@)[n]).leaf.drawable(),
                    decreases members@.len() - j,
                {
                    assert(column_views(members@)[j as int] == members@[j as int]@);
                    if !check_leaf_drawable(&members[j].leaf) {
                        assert(!field@.drawable());
                        return false;
                    }
                    j += 1;
                }
            },
        }
        i += 1;
    }
    true
}

/// Draws one batch as a table of text, or gives `None` where the batch cannot
/// be assembled, where a timestamp in it cannot be drawn as a date, or where
/// the pretty printer reports an error.
pub fn render_batch(plain: &Batch) -> (text: Option<String>)
    ensures
        match rendered(plain@) {
            Some(table) => text is Some && text->0@ == table,
            None => text is None,
        },
{
    if !check_drawable(plain) {
        return None;
    }
    match build_batch(plain) {
        Some(batch) => match pretty_table(&batch) {
            Ok(text) => Some(text),
            Err(_) => None,
        },
        None => None,
    }
}

} // verus!
