//! The tabular payload as plain values: named, typed columns of equal length.
//!
//! A composite column holds member columns one level deep. A floating-point
//! cell is held as its IEEE-754 bit pattern.
use vstd::prelude::*;
use vstd::utf8::encode_utf8;

verus! {

/// The most bytes that the texts of one column may have together: the
/// column's offsets into them are signed 32-bit integers.
pub const MAX_TEXT_BYTES: usize = 0x7fff_ffff;

/// The latest second, counted from the epoch either way, that is drawn as a
/// date: some hundred thousand years, well inside what the calendar of the
/// table's printer holds once a UTC offset is added.
pub const MAX_DRAWN_SECONDS: i64 = 4_000_000_000_000;

/// Every one of `seconds` can be drawn as a date.
pub open spec fn seconds_drawable(seconds: Seq<i64>) -> bool {
    forall|k: int|
        0 <= k < seconds.len() ==> -MAX_DRAWN_SECONDS <= #[trigger] seconds[k]
            <= MAX_DRAWN_SECONDS
}

/// The number of bytes that `cells` have together, as UTF-8.
pub open spec fn text_bytes(cells: Seq<Seq<char>>) -> nat
    decreases cells.len(),
{
    if cells.len() == 0 {
        0
    } else {
        text_bytes(cells.drop_last()) + encode_utf8(cells.last()).len()
    }
}

/// The cells of a scalar column, seen mathematically.
pub enum LeafView {
    UInt64(Seq<u64>),
    Utf8(Seq<Seq<char>>),
    Float64(Seq<u64>),
    TimestampSecond { zone: Seq<char>, seconds: Seq<i64> },
    Unsupported,
}

/// A scalar column, seen mathematically.
pub struct ColumnView {
    pub name: Seq<char>,
    pub nullable: bool,
    pub leaf: LeafView,
}

/// What a field holds, seen mathematically.
pub enum ContentView {
    Leaf(LeafView),
    Group(Seq<ColumnView>),
}

/// A field, seen mathematically.
pub struct FieldView {
    pub name: Seq<char>,
    pub nullable: bool,
    pub content: ContentView,
}

/// A batch, seen mathematically.
pub struct BatchView {
    pub rows: nat,
    pub fields: Seq<FieldView>,
}

impl LeafView {
    /// Number of cells, where the kind is one that the model describes.
    pub open spec fn len(self) -> Option<nat> {
        match self {
            LeafView::UInt64(cells) => Some(cells.len()),
            LeafView::Utf8(cells) => Some(cells.len()),
            LeafView::Float64(cells) => Some(cells.len()),
            LeafView::TimestampSecond { zone, seconds } => Some(seconds.len()),
            LeafView::Unsupported => None,
        }
    }

    /// The column is of a described kind and has `rows` cells, and where the
    /// cells are texts, they are together no longer than 32-bit offsets reach.
    pub open spec fn fills(self, rows: nat) -> bool {
        &&& self.len() == Some(rows)
        &&& self matches LeafView::Utf8(cells) ==> text_bytes(cells) <= MAX_TEXT_BYTES
    }
}

impl LeafView {
    /// Every timestamp of the column can be drawn as a date.
    pub open spec fn drawable(self) -> bool {
        self matches LeafView::TimestampSecond { zone, seconds } ==> seconds_drawable(seconds)
    }
}

impl FieldView {
    /// Every timestamp of the field can be drawn as a date.
    pub open spec fn drawable(self) -> bool {
        match self.content {
            ContentView::Leaf(leaf) => leaf.drawable(),
            ContentView::Group(members) => forall|j: int|
                0 <= j < members.len() ==> (#[trigger] members[j]).leaf.drawable(),
        }
    }

    /// The field is of a described kind throughout and has `rows` rows.
    pub open spec fn fills(self, rows: nat) -> bool {
        match self.content {
            ContentView::Leaf(leaf) => leaf.fills(rows),
            ContentView::Group(members) => forall|j: int|
                0 <= j < members.len() ==> (#[trigger] members[j]).leaf.fills(rows),
        }
    }

    /// The field as a member of a composite: a composite inside a composite
    /// is beyond the model.
    pub open spec fn as_member(self) -> ColumnView {
        ColumnView {
            name: self.name,
            nullable: self.nullable,
            leaf: match self.content {
                ContentView::Leaf(leaf) => leaf,
                ContentView::Group(_) => LeafView::Unsupported,
            },
        }
    }
}

impl ColumnView {
    /// The member as a field of its own.
    pub open spec fn as_field(self) -> FieldView {
        FieldView { name: self.name, nullable: self.nullable, content: ContentView::Leaf(self.leaf) }
    }
}

impl BatchView {
    /// Every timestamp of the batch can be drawn as a date.
    pub open spec fn drawable(self) -> bool {
        forall|i: int| 0 <= i < self.fields.len() ==> (#[trigger] self.fields[i]).drawable()
    }

    /// Every field is of a described kind and has `rows` rows.
    pub open spec fn well_formed(self) -> bool {
        forall|i: int| 0 <= i < self.fields.len() ==> (#[trigger] self.fields[i]).fills(self.rows)
    }
}

/// The texts of `cells`.
pub open spec fn texts(cells: Seq<String>) -> Seq<Seq<char>> {
    Seq::new(cells.len(), |i: int| cells[i]@)
}

/// The cells of a scalar column.
#[derive(Debug)]
pub enum Leaf {
    UInt64(Vec<u64>),
    Utf8(Vec<String>),
    /// IEEE-754 double precision, each cell as its bit pattern.
    Float64(Vec<u64>),
    /// Seconds since the epoch, with the UTC offset that they are shown in.
    TimestampSecond { zone: String, seconds: Vec<i64> },
    /// A kind of column that the model does not describe.
    Unsupported,
}

/// A scalar column.
#[derive(Debug)]
pub struct Column {
    pub name: String,
    pub nullable: bool,
    pub leaf: Leaf,
}

/// What a field holds: a scalar column's cells, or the member columns of a
/// composite.
#[derive(Debug)]
pub enum Content {
    Leaf(Leaf),
    Group(Vec<Column>),
}

/// A named field of a batch.
#[derive(Debug)]
pub struct Field {
    pub name: String,
    pub nullable: bool,
    pub content: Content,
}

/// A record batch: an ordered list of fields, each with `rows` rows.
#[derive(Debug)]
pub struct Batch {
    pub rows: usize,
    pub fields: Vec<Field>,
}

impl View for Leaf {
    type V = LeafView;

    open spec fn view(&self) -> LeafView {
        match self {
            Leaf::UInt64(cells) => LeafView::UInt64(cells@),
            Leaf::Utf8(cells) => LeafView::Utf8(texts(cells@)),
            Leaf::Float64(cells) => LeafView::Float64(cells@),
            Leaf::TimestampSecond { zone, seconds } => LeafView::TimestampSecond {
                zone: zone@,
                seconds: seconds@,
            },
            Leaf::Unsupported => LeafView::Unsupported,
        }
    }
}

impl View for Column {
    type V = ColumnView;

    open spec fn view(&self) -> ColumnView {
        ColumnView { name: self.name@, nullable: self.nullable, leaf: self.leaf@ }
    }
}

/// The views of `columns`.
pub open spec fn column_views(columns: Seq<Column>) -> Seq<ColumnView> {
    Seq::new(columns.len(), |i: int| columns[i]@)
}

impl View for Content {
    type V = ContentView;

    open spec fn view(&self) -> ContentView {
        match self {
            Content::Leaf(leaf) => ContentView::Leaf(leaf@),
            Content::Group(members) => ContentView::Group(column_views(members@)),
        }
    }
}

impl View for Field {
    type V = FieldView;

    open spec fn view(&self) -> FieldView {
        FieldView { name: self.name@, nullable: self.nullable, content: self.content@ }
    }
}

/// The views of `fields`.
pub open spec fn field_views(fields: Seq<Field>) -> Seq<FieldView> {
    Seq::new(fields.len(), |i: int| fields[i]@)
}

impl View for Batch {
    type V = BatchView;

    open spec fn view(&self) -> BatchView {
        BatchView { rows: self.rows as nat, fields: field_views(self.fields@) }
    }
}

/// The views of `batches`.
pub open spec fn batch_views(batches: Seq<Batch>) -> Seq<BatchView> {
    Seq::new(batches.len(), |i: int| batches[i]@)
}

} // verus!
