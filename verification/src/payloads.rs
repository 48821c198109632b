//! The two example payloads that a host sends to the tabular module: a
//! command, and the record that the command is about.
use crate::codec::{buildable, encode_batch, encoded};
use crate::processor::{
    accepts_command, accepts_data, number_field, reply_view, text_field, RECORD_DATE,
    RECORD_SCORE_BITS,
};
use crate::tabular::{
    column_views, field_views, text_bytes, texts, Batch, BatchView, Column, ColumnView, Content,
    ContentView, Field, FieldView, Leaf, LeafView,
};
use vstd::utf8::is_ascii_chars;
use vstd::prelude::*;
use vstd::string::StringExecFns;

verus! {

/// The example record: `{id: 1, content: "this is a test", title: "test",
/// date: 2022-01-01T12:00:00Z, score: 1.123456}`.
pub open spec fn example_data_view() -> BatchView {
    BatchView {
        rows: 1,
        fields: seq![
            FieldView {
                name: "id"@,
                nullable: false,
                content: ContentView::Leaf(LeafView::UInt64(seq![1u64])),
            },
            FieldView {
                name: "content"@,
                nullable: false,
                content: ContentView::Leaf(LeafView::Utf8(seq!["this is a test"@])),
            },
            FieldView {
                name: "title"@,
                nullable: false,
                content: ContentView::Leaf(LeafView::Utf8(seq!["test"@])),
            },
            FieldView {
                name: "date"@,
                nullable: false,
                content: ContentView::Leaf(
                    LeafView::TimestampSecond { zone: "+00:00"@, seconds: seq![RECORD_DATE] },
                ),
            },
            FieldView {
                name: "score"@,
                nullable: false,
                content: ContentView::Leaf(LeafView::Float64(seq![RECORD_SCORE_BITS])),
            },
        ],
    }
}

/// The example command: `{command: "test", config: {filename: "test.txt"}}`.
pub open spec fn example_command_view() -> BatchView {
    BatchView {
        rows: 1,
        fields: seq![
            FieldView {
                name: "command"@,
                nullable: false,
                content: ContentView::Leaf(LeafView::Utf8(seq!["test"@])),
            },
            FieldView {
                name: "config"@,
                nullable: false,
                content: ContentView::Group(
                    seq![
                        ColumnView {
                            name: "filename"@,
                            nullable: false,
                            leaf: LeafView::Utf8(seq!["test.txt"@]),
                        },
                    ],
                ),
            },
        ],
    }
}

/// The example record as a batch.
pub fn example_data_batch() -> (batch: Batch)
    ensures
        batch@ == example_data_view(),
{
    let mut seconds: Vec<i64> = Vec::new();
    seconds.push(RECORD_DATE);
    let mut scores: Vec<u64> = Vec::new();
    scores.push(RECORD_SCORE_BITS);
    let date = Field {
        name: String::from_str("date"),
        nullable: false,
        content: Content::Leaf(
            Leaf::TimestampSecond { zone: String::from_str("+00:00"), seconds },
        ),
    };
    let score = Field {
        name: String::from_str("score"),
        nullable: false,
        content: Content::Leaf(Leaf::Float64(scores)),
    };
    assert(date@.content == ContentView::Leaf(
        LeafView::TimestampSecond { zone: "+00:00"@, seconds: seq![RECORD_DATE] },
    )) by {
        assert(seconds@ =~= seq![RECORD_DATE]);
    }
    assert(score@.content == ContentView::Leaf(LeafView::Float64(seq![RECORD_SCORE_BITS]))) by {
        assert(scores@ =~= seq![RECORD_SCORE_BITS]);
    }
    let mut fields: Vec<Field> = Vec::new();
    fields.push(number_field("id", 1));
    fields.push(text_field("content", "this is a test"));
    fields.push(text_field("title", "test"));
    fields.push(date);
    fields.push(score);
    assert(field_views(fields@) =~= example_data_view().fields);
    Batch { rows: 1, fields }
}

/// The example command as a batch.
pub fn example_command_batch() -> (batch: Batch)
    ensures
        batch@ == example_command_view(),
{
    let mut cells: Vec<String> = Vec::new();
    cells.push(String::from_str("test.txt"));
    assert(texts(cells@) =~= seq!["test.txt"@]);
    let mut members: Vec<Column> = Vec::new();
    members.push(Column { name: String::from_str("filename"), nullable: false, leaf: Leaf::Utf8(cells) });
    assert(column_views(members@) =~= seq![
        ColumnView { name: "filename"@, nullable: false, leaf: LeafView::Utf8(seq!["test.txt"@]) },
    ]);
    let config = Field {
        name: String::from_str("config"),
        nullable: false,
        content: Content::Group(members),
    };
    let mut fields: Vec<Field> = Vec::new();
    fields.push(text_field("command", "test"));
    fields.push(config);
    assert(field_views(fields@) =~= example_command_view().fields);
    Batch { rows: 1, fields }
}

/// The example record, encoded; `None` where the stream writer reports an
/// error.
pub fn create_arrow_example_data() -> (bytes: Option<Vec<u8>>)
    ensures
        match encoded(example_data_view()) {
            Some(stream) => bytes is Some && bytes->0@ == stream,
            None => bytes is None,
        },
{
    let batch: Batch = example_data_batch();
    encode_batch(&batch)
}

/// The example command, encoded; `None` where the stream writer reports an
/// error.
pub fn create_arrow_example_meta_data() -> (bytes: Option<Vec<u8>>)
    ensures
        match encoded(example_command_view()) {
            Some(stream) => bytes is Some && bytes->0@ == stream,
            None => bytes is None,
        },
{
    let batch: Batch = example_command_batch();
    encode_batch(&batch)
}

/// The tabular module accepts the example command and the example record.
pub proof fn lemma_examples_are_accepted()
    ensures
        accepts_command(example_command_view()),
        accepts_data(example_data_view()),
{
    let command = example_command_view();
    assert(command.fields[1].content matches ContentView::Group(members) && members.len() == 1);
}

/// One text of plain characters takes as many bytes as it has characters.
proof fn lemma_one_text(text: Seq<char>)
    requires
        is_ascii_chars(text),
    ensures
        text_bytes(seq![text]) == text.len(),
{
    vstd::utf8::is_ascii_chars_encode_utf8(text);
    let cells = seq![text];
    assert(cells.drop_last() =~= Seq::<Seq<char>>::empty());
    assert(text_bytes(cells.drop_last()) == 0);
    assert(cells.last() == text);
}

/// The example command, the example record and the module's answer can each
/// be assembled: what is left to the stream writer is the encoding alone.
pub proof fn lemma_examples_are_buildable()
    ensures
        buildable(example_command_view()),
        buildable(example_data_view()),
        buildable(reply_view()),
{
    reveal_strlit("test");
    reveal_strlit("test.txt");
    reveal_strlit("this is a test");
    reveal_strlit("this is a test2");
    lemma_one_text("test"@);
    lemma_one_text("test.txt"@);
    lemma_one_text("this is a test"@);
    lemma_one_text("this is a test2"@);
    let command = example_command_view();
    assert forall|i: int| 0 <= i < command.fields.len() implies (#[trigger] command.fields[i]).fills(
        command.rows,
    ) by {
        if i == 1 {
            let members = command.fields[1].content->Group_0;
            assert(members.len() == 1);
            assert(members[0].leaf.fills(1));
        }
    }
    let data = example_data_view();
    assert forall|i: int| 0 <= i < data.fields.len() implies (#[trigger] data.fields[i]).fills(
        data.rows,
    ) by {}
    let reply = reply_view();
    assert forall|i: int| 0 <= i < reply.fields.len() implies (#[trigger] reply.fields[i]).fills(
        reply.rows,
    ) by {}
}

} // verus!
