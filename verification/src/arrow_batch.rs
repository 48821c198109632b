//! The calls into the `arrow` crate. Nothing here is proved: each function
//! states what the crate's source shows of the call that it makes.
//!
//! An `ArrowBatch` holds a `RecordBatch` and is opaque to the verifier.
//! `batch_fields` and `batch_rows` name what one holds; the accessors below
//! read it piece by piece, and the `push_*` functions assemble one column by
//! column. An `ArrowFields` holds the declared fields of a schema, which are
//! read before any array is made of a stream.
//!
//! The stream reader is handed only what `framing` found sound: it trusts
//! what a message declares of its body.
use crate::framing::stream_is_sound;
use crate::tabular::{
    text_bytes, texts, BatchView, ColumnView, ContentView, FieldView, LeafView, MAX_TEXT_BYTES,
};
use arrow::array::{
    as_primitive_array, as_string_array, Array, Float64Array, StringArray, StructArray,
    TimestampSecondArray, UInt64Array,
};
use arrow::datatypes::{
    ArrowPrimitiveType, DataType, Field, Fields, Float64Type, Schema, TimeUnit,
    TimestampSecondType, UInt64Type,
};
use arrow::error::ArrowError;
use arrow::ipc::reader::StreamReader;
use arrow::ipc::root_as_message;
use arrow::ipc::writer::StreamWriter;
use arrow::record_batch::{RecordBatch, RecordBatchOptions};
use arrow::util::pretty::pretty_format_batches;
use std::sync::Arc;
use vstd::prelude::*;

verus! {

/// `arrow::record_batch::RecordBatch`, held as it is. Nothing is known of
/// one but what the functions of this file state.
#[verifier::external_body]
pub struct ArrowBatch {
    inner: RecordBatch,
}

/// `arrow::datatypes::Fields`, the declared fields of a schema or of a struct
/// type, held as they are.
#[verifier::external_body]
pub struct ArrowFields {
    inner: Fields,
}

/// `arrow::error::ArrowError`, which the library maps to "no batch".
#[verifier::external_type_specification]
#[verifier::external_body]
pub struct ExArrowError(ArrowError);

/// The fields of a record batch, in schema order. A cell is the value that
/// the column's accessor gives for its slot.
pub uninterp spec fn batch_fields(batch: ArrowBatch) -> Seq<FieldView>;

/// The number of rows of a record batch.
pub uninterp spec fn batch_rows(batch: ArrowBatch) -> nat;

/// The batch holds nothing but what `batch_fields` tells: it was assembled
/// by `empty_batch` and the `push_*` functions, so it has no metadata, no
/// validity bitmap and no column of a kind that the model leaves out.
pub uninterp spec fn batch_is_plain(batch: ArrowBatch) -> bool;

/// The batches that the IPC stream reader finds in `bytes`, or `None` where
/// it reports an error.
pub uninterp spec fn ipc_decoded(bytes: Seq<u8>) -> Option<Seq<BatchView>>;

/// The IPC stream that the stream writer makes of one plain batch, or `None`
/// where it reports an error.
pub uninterp spec fn ipc_encoded(batch: BatchView) -> Option<Seq<u8>>;

/// The fields that the schema of the stream `bytes` declares, each without a
/// cell, or `None` where the stream reader finds no schema at its start.
pub uninterp spec fn ipc_schema(bytes: Seq<u8>) -> Option<Seq<FieldView>>;

/// The fields that a list of declared fields holds, each without a cell. A
/// field of a struct type is a composite of its declared members.
pub uninterp spec fn declared_fields(fields: ArrowFields) -> Seq<FieldView>;

/// The header type and the body length that the metadata `meta` of one
/// message declares, or `None` where `meta` is no message.
pub uninterp spec fn message_header_of(meta: Seq<u8>) -> Option<(u8, i64)>;

/// What the metadata `meta` of a record batch message declares of its body,
/// or `None` where `meta` is no message or not that of a record batch.
pub uninterp spec fn batch_layout_of(meta: Seq<u8>) -> Option<BatchLayoutView>;

/// The table that the pretty printer draws of one plain batch, or `None`
/// where it reports an error.
pub uninterp spec fn table_text(batch: BatchView) -> Option<Seq<char>>;

/// What a record batch message declares of its body, seen mathematically.
pub struct BatchLayoutView {
    pub compressed: bool,
    pub rows: i64,
    pub nodes: Seq<(i64, i64)>,
    pub buffers: Seq<(i64, i64)>,
}

/// What a record batch message declares of its body.
pub struct BatchLayout {
    /// Whether the body is compressed.
    pub compressed: bool,
    /// The number of rows.
    pub rows: i64,
    /// For each column, nested ones too: its length and its count of nulls.
    pub nodes: Vec<(i64, i64)>,
    /// For each buffer: its offset into the body and its length.
    pub buffers: Vec<(i64, i64)>,
}

impl View for BatchLayout {
    type V = BatchLayoutView;

    open spec fn view(&self) -> BatchLayoutView {
        BatchLayoutView {
            compressed: self.compressed,
            rows: self.rows,
            nodes: self.nodes@,
            buffers: self.buffers@,
        }
    }
}

/// The kind of a scalar column, as its declared data type tells.
pub enum Kind {
    UInt64,
    Utf8,
    Float64,
    TimestampSecond(String),
    Other,
}

/// `kind` is the kind of `leaf`.
pub open spec fn kind_matches(kind: Kind, leaf: LeafView) -> bool {
    match kind {
        Kind::UInt64 => leaf is UInt64,
        Kind::Utf8 => leaf is Utf8,
        Kind::Float64 => leaf is Float64,
        Kind::TimestampSecond(zone) => leaf is TimestampSecond && leaf->zone == zone@,
        Kind::Other => leaf is Unsupported,
    }
}

/// A record batch as the model sees it.
pub open spec fn batch_view(batch: ArrowBatch) -> BatchView {
    BatchView { rows: batch_rows(batch), fields: batch_fields(batch) }
}

/// The fields of a composite's members.
pub open spec fn member_views(fields: Seq<FieldView>) -> Seq<ColumnView> {
    Seq::new(fields.len(), |j: int| fields[j].as_member())
}

/// The leaf of field `i`, where that field is a scalar column.
pub open spec fn leaf_at(batch: ArrowBatch, i: int) -> LeafView {
    match batch_fields(batch)[i].content {
        ContentView::Leaf(leaf) => leaf,
        ContentView::Group(_) => LeafView::Unsupported,
    }
}

/// `StreamReader::try_new` on the bytes, and the fields of the schema that
/// the reader found: only the first message is read, and no array is made.
#[verifier::external_body]
pub(crate) fn stream_schema(bytes: &[u8]) -> (r: Option<ArrowFields>)
    ensures
        r is Some <==> ipc_schema(bytes@) is Some,
        r is Some ==> declared_fields(r->0) == ipc_schema(bytes@)->0,
{
    let reader = StreamReader::try_new(bytes, None).ok()?;
    Some(ArrowFields { inner: reader.schema().fields().clone() })
}

/// `Fields::len`.
#[verifier::external_body]
pub(crate) fn declared_len(fields: &ArrowFields) -> (n: usize)
    ensures
        n == declared_fields(*fields).len(),
{
    fields.inner.len()
}

/// `Field::data_type` of the declared field `i`, where it is a scalar
/// column: which of the described kinds it is.
#[verifier::external_body]
pub(crate) fn declared_kind(fields: &ArrowFields, i: usize) -> (kind: Kind)
    requires
        i < declared_fields(*fields).len(),
    ensures
        declared_fields(*fields)[i as int].content matches ContentView::Leaf(leaf)
            ==> kind_matches(kind, leaf),
{
    match fields.inner[i].data_type() {
        DataType::UInt64 => Kind::UInt64,
        DataType::Utf8 => Kind::Utf8,
        DataType::Float64 => Kind::Float64,
        DataType::Timestamp(TimeUnit::Second, Some(zone)) => Kind::TimestampSecond(zone.to_string()),
        _ => Kind::Other,
    }
}

/// `Field::data_type` of the declared field `i`, where it is a struct type:
/// the fields that the type declares; else `None`.
#[verifier::external_body]
pub(crate) fn declared_members(fields: &ArrowFields, i: usize) -> (members: Option<ArrowFields>)
    requires
        i < declared_fields(*fields).len(),
    ensures
        members is Some <==> declared_fields(*fields)[i as int].content is Group,
        members is Some ==> declared_fields(*fields)[i as int].content == ContentView::Group(
            member_views(declared_fields(members->0)),
        ),
{
    match fields.inner[i].data_type() {
        DataType::Struct(members) => Some(ArrowFields { inner: members.clone() }),
        _ => None,
    }
}

/// `root_as_message` on the metadata of one message, then `header_type` and
/// `bodyLength`.
#[verifier::external_body]
pub(crate) fn message_header(meta: &[u8]) -> (r: Option<(u8, i64)>)
    ensures
        r == message_header_of(meta@),
{
    let message = root_as_message(meta).ok()?;
    Some((message.header_type().0, message.bodyLength()))
}

/// `root_as_message` on the metadata of one message and
/// `header_as_record_batch`, then what the batch declares: `compression`,
/// `length`, and each entry of `nodes` and of `buffers`.
#[verifier::external_body]
pub(crate) fn batch_layout(meta: &[u8]) -> (r: Option<BatchLayout>)
    ensures
        r is Some <==> batch_layout_of(meta@) is Some,
        r is Some ==> r->0@ == batch_layout_of(meta@)->0,
{
    let batch = root_as_message(meta).ok()?.header_as_record_batch()?;
    let nodes = batch.nodes().map(|v| v.iter().map(|n| (n.length(), n.null_count())).collect());
    let buffers = batch.buffers().map(|v| v.iter().map(|b| (b.offset(), b.length())).collect());
    Some(BatchLayout {
        compressed: batch.compression().is_some(),
        rows: batch.length(),
        nodes: nodes.unwrap_or_default(),
        buffers: buffers.unwrap_or_default(),
    })
}

/// `StreamReader::try_new` on the bytes, then the reader's iterator to its
/// end: all batches of the stream, or the first error. The stream must be
/// sound: the reader slices each message's body by the offsets and lengths
/// that the message declares, and panics where they leave the body.
#[verifier::external_body]
pub(crate) fn ipc_read(bytes: &[u8]) -> (r: Result<Vec<ArrowBatch>, ArrowError>)
    requires
        stream_is_sound(bytes@),
    ensures
        match r {
            Ok(batches) => ipc_decoded(bytes@) == Some(
                Seq::new(batches@.len(), |k: int| batch_view(batches@[k])),
            ),
            Err(_) => ipc_decoded(bytes@) is None,
        },
{
    let reader = StreamReader::try_new(bytes, None)?;
    reader.map(|item| item.map(|inner| ArrowBatch { inner })).collect()
}

/// `StreamWriter::try_new` on an empty buffer with the batch's schema,
/// `write` of the batch, `into_inner`: the finished stream.
#[verifier::external_body]
pub(crate) fn ipc_write(batch: &ArrowBatch) -> (r: Result<Vec<u8>, ArrowError>)
    requires
        batch_is_plain(*batch),
    ensures
        match r {
            Ok(bytes) => ipc_encoded(batch_view(*batch)) == Some(bytes@),
            Err(_) => ipc_encoded(batch_view(*batch)) is None,
        },
{
    let mut writer = StreamWriter::try_new(Vec::new(), batch.inner.schema().as_ref())?;
    writer.write(&batch.inner)?;
    writer.into_inner()
}

/// `pretty_format_batches` on the one batch, and the text that its result
/// displays as. Every timestamp must be one that can be drawn as a date: the
/// printer's calendar panics beyond its range.
#[verifier::external_body]
pub(crate) fn pretty_table(batch: &ArrowBatch) -> (r: Result<String, ArrowError>)
    requires
        batch_is_plain(*batch),
        batch_view(*batch).drawable(),
    ensures
        match r {
            Ok(text) => table_text(batch_view(*batch)) == Some(text@),
            Err(_) => table_text(batch_view(*batch)) is None,
        },
{
    let table = pretty_format_batches(std::slice::from_ref(&batch.inner))?;
    Ok(table.to_string())
}

/// `RecordBatch::num_columns`.
#[verifier::external_body]
pub(crate) fn num_columns(batch: &ArrowBatch) -> (n: usize)
    ensures
        n == batch_fields(*batch).len(),
{
    batch.inner.num_columns()
}

/// `RecordBatch::num_rows`.
#[verifier::external_body]
pub(crate) fn num_rows(batch: &ArrowBatch) -> (n: usize)
    ensures
        n == batch_rows(*batch),
{
    batch.inner.num_rows()
}

/// `Field::name` of field `i` of the schema.
#[verifier::external_body]
pub(crate) fn column_name(batch: &ArrowBatch, i: usize) -> (name: String)
    requires
        i < batch_fields(*batch).len(),
    ensures
        name@ == batch_fields(*batch)[i as int].name,
{
    batch.inner.schema().field(i).name().clone()
}

/// `Field::is_nullable` of field `i` of the schema.
#[verifier::external_body]
pub(crate) fn column_nullable(batch: &ArrowBatch, i: usize) -> (nullable: bool)
    requires
        i < batch_fields(*batch).len(),
    ensures
        nullable == batch_fields(*batch)[i as int].nullable,
{
    batch.inner.schema().field(i).is_nullable()
}

/// `Field::data_type` of field `i`, for a scalar column: which of the
/// described kinds it is, with the UTC offset of a timestamp in seconds.
#[verifier::external_body]
pub(crate) fn column_kind(batch: &ArrowBatch, i: usize) -> (kind: Kind)
    requires
        i < batch_fields(*batch).len(),
    ensures
        batch_fields(*batch)[i as int].content is Leaf ==> kind_matches(
            kind,
            leaf_at(*batch, i as int),
        ),
{
    match batch.inner.schema().field(i).data_type() {
        DataType::UInt64 => Kind::UInt64,
        DataType::Utf8 => Kind::Utf8,
        DataType::Float64 => Kind::Float64,
        DataType::Timestamp(TimeUnit::Second, Some(zone)) => Kind::TimestampSecond(zone.to_string()),
        _ => Kind::Other,
    }
}

/// Column `i` as a batch of its own, where it is a `StructArray` whose
/// children `RecordBatch::try_new_with_options` accepts; else `None`.
#[verifier::external_body]
pub(crate) fn column_group(batch: &ArrowBatch, i: usize) -> (members: Option<ArrowBatch>)
    requires
        i < batch_fields(*batch).len(),
    ensures
        members is Some <==> batch_fields(*batch)[i as int].content is Group,
        members is Some ==> batch_fields(*batch)[i as int].content == ContentView::Group(
            member_views(batch_fields(members->0)),
        ) && batch_rows(members->0) == batch_rows(*batch),
{
    let group = batch.inner.column(i).as_any().downcast_ref::<StructArray>()?;
    let options = RecordBatchOptions::new().with_row_count(Some(group.len()));
    let schema = Arc::new(Schema::new(group.fields().clone()));
    let inner = RecordBatch::try_new_with_options(schema, group.columns().to_vec(), &options).ok()?;
    Some(ArrowBatch { inner })
}

/// `PrimitiveArray::values` of column `i` as unsigned 64-bit integers.
#[verifier::external_body]
pub(crate) fn column_u64(batch: &ArrowBatch, i: usize) -> (cells: Vec<u64>)
    requires
        i < batch_fields(*batch).len(),
        leaf_at(*batch, i as int) is UInt64,
    ensures
        leaf_at(*batch, i as int) == LeafView::UInt64(cells@),
        cells@.len() == batch_rows(*batch),
{
    as_primitive_array::<UInt64Type>(batch.inner.column(i)).values().to_vec()
}

/// `GenericByteArray::value` of each slot of column `i`, as text.
#[verifier::external_body]
pub(crate) fn column_utf8(batch: &ArrowBatch, i: usize) -> (cells: Vec<String>)
    requires
        i < batch_fields(*batch).len(),
        leaf_at(*batch, i as int) is Utf8,
    ensures
        leaf_at(*batch, i as int) == LeafView::Utf8(texts(cells@)),
        cells@.len() == batch_rows(*batch),
{
    let column = as_string_array(batch.inner.column(i));
    (0..column.len()).map(|k| column.value(k).to_string()).collect()
}

/// `PrimitiveArray::values` of column `i` as doubles, each as its bits.
#[verifier::external_body]
pub(crate) fn column_f64_bits(batch: &ArrowBatch, i: usize) -> (cells: Vec<u64>)
    requires
        i < batch_fields(*batch).len(),
        leaf_at(*batch, i as int) is Float64,
    ensures
        leaf_at(*batch, i as int) == LeafView::Float64(cells@),
        cells@.len() == batch_rows(*batch),
{
    let column = as_primitive_array::<Float64Type>(batch.inner.column(i));
    column.values().iter().map(|v| v.to_bits()).collect()
}

/// `PrimitiveArray::values` of column `i` as timestamps in seconds.
#[verifier::external_body]
pub(crate) fn column_seconds(batch: &ArrowBatch, i: usize) -> (cells: Vec<i64>)
    requires
        i < batch_fields(*batch).len(),
        leaf_at(*batch, i as int) is TimestampSecond,
    ensures
        leaf_at(*batch, i as int)->seconds == cells@,
        cells@.len() == batch_rows(*batch),
{
    as_primitive_array::<TimestampSecondType>(batch.inner.column(i)).values().to_vec()
}

/// `RecordBatch::new_empty` on `Schema::empty`: no field, no row.
#[verifier::external_body]
pub(crate) fn empty_batch() -> (batch: ArrowBatch)
    ensures
        batch_is_plain(batch),
        batch_rows(batch) == 0,
        batch_fields(batch) == Seq::<FieldView>::empty(),
{
    ArrowBatch { inner: RecordBatch::new_empty(Arc::new(Schema::empty())) }
}

/// Whether `RecordBatch::try_new` accepts one more column of `len` cells
/// beside those of `batch`: all columns must have one length.
pub open spec fn accepts_column(batch: ArrowBatch, len: nat) -> bool {
    batch_fields(batch).len() == 0 || len == batch_rows(batch)
}

/// `batch` once `field` stands behind its fields.
pub open spec fn pushed(batch: ArrowBatch, field: FieldView, len: nat, r: ArrowBatch) -> bool {
    &&& batch_is_plain(r)
    &&& batch_rows(r) == len
    &&& batch_fields(r) == batch_fields(batch).push(field)
}

/// `RecordBatch::try_new` on the fields and columns of `batch` and one more
/// column, a `UInt64Array` made of `cells`.
#[verifier::external_body]
pub(crate) fn push_u64(batch: &ArrowBatch, name: &str, nullable: bool, cells: &Vec<u64>) -> (r:
    Result<ArrowBatch, ArrowError>)
    requires
        batch_is_plain(*batch),
    ensures
        r is Ok <==> accepts_column(*batch, cells@.len()),
        r is Ok ==> pushed(
            *batch,
            FieldView {
                name: name@,
                nullable,
                content: ContentView::Leaf(LeafView::UInt64(cells@)),
            },
            cells@.len(),
            r->Ok_0,
        ),
{
    let mut fields = batch.inner.schema().fields().to_vec();
    fields.push(Arc::new(Field::new(name, DataType::UInt64, nullable)));
    let mut columns = batch.inner.columns().to_vec();
    columns.push(Arc::new(UInt64Array::from(cells.clone())));
    RecordBatch::try_new(Arc::new(Schema::new(fields)), columns).map(|inner| ArrowBatch { inner })
}

/// `RecordBatch::try_new` on the fields and columns of `batch` and one more
/// column, a `StringArray` made of `cells`. The texts must together be short
/// enough for the array's 32-bit offsets.
#[verifier::external_body]
pub(crate) fn push_utf8(batch: &ArrowBatch, name: &str, nullable: bool, cells: &Vec<String>) -> (r:
    Result<ArrowBatch, ArrowError>)
    requires
        batch_is_plain(*batch),
        text_bytes(texts(cells@)) <= MAX_TEXT_BYTES,
    ensures
        r is Ok <==> accepts_column(*batch, cells@.len()),
        r is Ok ==> pushed(
            *batch,
            FieldView {
                name: name@,
                nullable,
                content: ContentView::Leaf(LeafView::Utf8(texts(cells@))),
            },
            cells@.len(),
            r->Ok_0,
        ),
{
    let mut fields = batch.inner.schema().fields().to_vec();
    fields.push(Arc::new(Field::new(name, DataType::Utf8, nullable)));
    let mut columns = batch.inner.columns().to_vec();
    columns.push(Arc::new(StringArray::from(cells.clone())));
    RecordBatch::try_new(Arc::new(Schema::new(fields)), columns).map(|inner| ArrowBatch { inner })
}

/// `RecordBatch::try_new` on the fields and columns of `batch` and one more
/// column, a `Float64Array` of the doubles whose bits are `cells`.
#[verifier::external_body]
pub(crate) fn push_f64_bits(batch: &ArrowBatch, name: &str, nullable: bool, cells: &Vec<u64>) -> (r:
    Result<ArrowBatch, ArrowError>)
    requires
        batch_is_plain(*batch),
    ensures
        r is Ok <==> accepts_column(*batch, cells@.len()),
        r is Ok ==> pushed(
            *batch,
            FieldView {
                name: name@,
                nullable,
                content: ContentView::Leaf(LeafView::Float64(cells@)),
            },
            cells@.len(),
            r->Ok_0,
        ),
{
    let mut fields = batch.inner.schema().fields().to_vec();
    fields.push(Arc::new(Field::new(name, DataType::Float64, nullable)));
    let mut columns = batch.inner.columns().to_vec();
    let doubles = cells.iter().map(|bits| <Float64Type as ArrowPrimitiveType>::Native::from_bits(*bits));
    columns.push(Arc::new(Float64Array::from_iter_values(doubles)));
    RecordBatch::try_new(Arc::new(Schema::new(fields)), columns).map(|inner| ArrowBatch { inner })
}

/// `RecordBatch::try_new` on the fields and columns of `batch` and one more
/// column, a `TimestampSecondArray` made of `cells`, `with_timezone(zone)`.
#[verifier::external_body]
pub(crate) fn push_seconds(
    batch: &ArrowBatch,
    name: &str,
    nullable: bool,
    zone: &str,
    cells: &Vec<i64>,
) -> (r: Result<ArrowBatch, ArrowError>)
    requires
        batch_is_plain(*batch),
    ensures
        r is Ok <==> accepts_column(*batch, cells@.len()),
        r is Ok ==> pushed(
            *batch,
            FieldView {
                name: name@,
                nullable,
                content: ContentView::Leaf(
                    LeafView::TimestampSecond { zone: zone@, seconds: cells@ },
                ),
            },
            cells@.len(),
            r->Ok_0,
        ),
{
    let column = TimestampSecondArray::from(cells.clone()).with_timezone(zone);
    let mut fields = batch.inner.schema().fields().to_vec();
    fields.push(Arc::new(Field::new(name, column.data_type().clone(), nullable)));
    let mut columns = batch.inner.columns().to_vec();
    columns.push(Arc::new(column));
    RecordBatch::try_new(Arc::new(Schema::new(fields)), columns).map(|inner| ArrowBatch { inner })
}

/// `RecordBatch::try_new` on the fields and columns of `batch` and one more
/// column, the `StructArray` that `members`, all of them scalar columns,
/// converts into.
#[verifier::external_body]
pub(crate) fn push_group(batch: &ArrowBatch, name: &str, nullable: bool, members: ArrowBatch) -> (r:
    Result<ArrowBatch, ArrowError>)
    requires
        batch_is_plain(*batch),
        batch_is_plain(members),
        forall|j: int|
            0 <= j < batch_fields(members).len() ==> (#[trigger] batch_fields(
                members,
            )[j]).content is Leaf,
    ensures
        r is Ok <==> accepts_column(*batch, batch_rows(members)),
        r is Ok ==> pushed(
            *batch,
            FieldView {
                name: name@,
                nullable,
                content: ContentView::Group(member_views(batch_fields(members))),
            },
            batch_rows(members),
            r->Ok_0,
        ),
{
    let column = StructArray::from(members.inner);
    let mut fields = batch.inner.schema().fields().to_vec();
    fields.push(Arc::new(Field::new(name, column.data_type().clone(), nullable)));
    let mut columns = batch.inner.columns().to_vec();
    columns.push(Arc::new(column));
    RecordBatch::try_new(Arc::new(Schema::new(fields)), columns).map(|inner| ArrowBatch { inner })
}

} // verus!
