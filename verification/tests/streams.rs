use arrow::array::{Array, ArrayRef, DictionaryArray, Int32Array, StringArray, UInt64Array};
use arrow::datatypes::{DataType, Field as ArrowField, Int32Type, Schema};
use arrow::ipc::writer::StreamWriter;
use arrow::record_batch::RecordBatch;
use std::sync::Arc;
use wasm_bridge::codec::decode_stream;
use wasm_bridge::framing::check_stream;
use wasm_bridge::tabular::{Content, Leaf};

fn stream_of(fields: Vec<ArrowField>, columns: Vec<ArrayRef>) -> Vec<u8> {
    let schema = Arc::new(Schema::new(fields));
    let batch = RecordBatch::try_new(schema.clone(), columns).expect("a batch");
    let mut writer = StreamWriter::try_new(Vec::new(), &schema).expect("a writer");
    writer.write(&batch).expect("written");
    writer.into_inner().expect("finished")
}

#[test]
fn a_stream_made_by_the_outside_writer_is_taken() {
    let stream = stream_of(
        vec![
            ArrowField::new("id", DataType::UInt64, false),
            ArrowField::new("note", DataType::Utf8, true),
        ],
        vec![
            Arc::new(UInt64Array::from(vec![3u64, 4, 5])),
            Arc::new(StringArray::from(vec!["a", "", "ccc"])),
        ],
    );
    assert!(check_stream(&stream));
    let batches = decode_stream(&stream).expect("decodes");
    assert_eq!(batches.len(), 1);
    assert_eq!(batches[0].rows, 3);
    assert!(matches!(&batches[0].fields[0].content, Content::Leaf(Leaf::UInt64(ids)) if ids == &vec![3u64, 4, 5]));
    assert!(matches!(
        &batches[0].fields[1].content,
        Content::Leaf(Leaf::Utf8(cells)) if cells == &vec!["a".to_string(), String::new(), "ccc".to_string()]
    ));
    assert!(batches[0].fields[1].nullable);
}

#[test]
fn a_stream_with_a_column_of_another_kind_is_refused() {
    let stream = stream_of(
        vec![
            ArrowField::new("id", DataType::UInt64, false),
            ArrowField::new("count", DataType::Int32, false),
        ],
        vec![Arc::new(UInt64Array::from(vec![1u64])), Arc::new(Int32Array::from(vec![7]))],
    );
    assert!(!check_stream(&stream));
    assert!(decode_stream(&stream).is_none());
}

#[test]
fn a_stream_with_a_null_cell_is_refused() {
    let stream = stream_of(
        vec![ArrowField::new("note", DataType::Utf8, true)],
        vec![Arc::new(StringArray::from(vec![Some("a"), None]))],
    );
    assert!(!check_stream(&stream));
    assert!(decode_stream(&stream).is_none());
}

#[test]
fn a_stream_with_a_dictionary_is_refused() {
    let column: DictionaryArray<Int32Type> = vec!["a", "b", "a"].into_iter().collect();
    let stream = stream_of(
        vec![ArrowField::new("tag", column.data_type().clone(), false)],
        vec![Arc::new(column)],
    );
    assert!(!check_stream(&stream));
    assert!(decode_stream(&stream).is_none());
}
