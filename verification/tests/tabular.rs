use wasm_bridge::codec::{check_drawable, decode_stream, encode_batch, render_batch};
use wasm_bridge::framing::check_stream;
use wasm_bridge::memory::{wasm_allocate, wasm_deallocate, GuestInstance};
use wasm_bridge::payloads::{
    create_arrow_example_data, create_arrow_example_meta_data, example_command_batch,
    example_data_batch,
};
use wasm_bridge::processor::{
    check_command, check_data, process_payloads, reply_batch, text_field,
    wasm_memory_process_data_arrow, RECORD_DATE, RECORD_SCORE_BITS,
};
use wasm_bridge::tabular::{Batch, Content, Field, Leaf};
use wasm_bridge::wire::unpack_metadata;

fn first_text(field: &Field) -> String {
    match &field.content {
        Content::Leaf(Leaf::Utf8(cells)) => cells[0].clone(),
        other => panic!("not a text column: {:?}", other),
    }
}

fn send(guest: &mut GuestInstance, bytes: &[u8]) -> u32 {
    let handle = wasm_allocate(guest, bytes.len() as u32);
    assert_ne!(handle, 0);
    assert!(guest.write(handle, bytes));
    handle
}

#[test]
fn record_constants_are_the_documented_values() {
    assert_eq!(f64::from_bits(RECORD_SCORE_BITS), 1.123456f64);
    let date = time::Date::from_calendar_date(2022, time::Month::January, 1)
        .unwrap()
        .with_hms(12, 0, 0)
        .unwrap()
        .assume_utc();
    assert_eq!(date.unix_timestamp(), RECORD_DATE);
}

#[test]
fn example_data_survives_the_codec() {
    let bytes = create_arrow_example_data().expect("encodes");
    let batches = decode_stream(&bytes).expect("decodes");
    assert_eq!(batches.len(), 1);
    let batch = &batches[0];
    assert_eq!(batch.rows, 1);
    assert_eq!(batch.fields.len(), 5);
    assert_eq!(batch.fields[0].name, "id");
    assert!(matches!(&batch.fields[0].content, Content::Leaf(Leaf::UInt64(ids)) if ids == &vec![1u64]));
    assert_eq!(batch.fields[1].name, "content");
    assert_eq!(first_text(&batch.fields[1]), "this is a test");
    assert_eq!(batch.fields[2].name, "title");
    assert_eq!(first_text(&batch.fields[2]), "test");
    assert_eq!(batch.fields[3].name, "date");
    assert!(matches!(
        &batch.fields[3].content,
        Content::Leaf(Leaf::TimestampSecond { zone, seconds })
            if zone == "+00:00" && seconds == &vec![1641038400i64]
    ));
    assert_eq!(batch.fields[4].name, "score");
    assert!(matches!(
        &batch.fields[4].content,
        Content::Leaf(Leaf::Float64(bits)) if f64::from_bits(bits[0]) == 1.123456f64
    ));
    assert!(batch.fields.iter().all(|field| !field.nullable));
    assert!(check_data(batch));
    assert!(!check_command(batch));
}

#[test]
fn example_command_survives_the_codec() {
    let bytes = create_arrow_example_meta_data().expect("encodes");
    let batches = decode_stream(&bytes).expect("decodes");
    assert_eq!(batches.len(), 1);
    let batch = &batches[0];
    assert_eq!(batch.rows, 1);
    assert_eq!(batch.fields.len(), 2);
    assert_eq!(batch.fields[0].name, "command");
    assert_eq!(first_text(&batch.fields[0]), "test");
    assert_eq!(batch.fields[1].name, "config");
    match &batch.fields[1].content {
        Content::Group(members) => {
            assert_eq!(members.len(), 1);
            assert_eq!(members[0].name, "filename");
            assert!(!members[0].nullable);
            assert!(matches!(&members[0].leaf, Leaf::Utf8(cells) if cells == &vec!["test.txt".to_string()]));
        }
        other => panic!("not a composite: {:?}", other),
    }
    assert!(check_command(batch));
    assert!(!check_data(batch));
}

#[test]
fn decode_rejects_bytes_that_are_no_stream() {
    assert!(decode_stream(b"this is not a columnar stream").is_none());
    assert!(decode_stream(&[]).is_none());
}

#[test]
fn encode_rejects_columns_of_unequal_length() {
    let mut batch = example_data_batch();
    batch.fields[0].content = Content::Leaf(Leaf::UInt64(vec![1, 2]));
    assert!(encode_batch(&batch).is_none());
}

#[test]
fn encode_rejects_an_unsupported_column() {
    let mut batch = example_data_batch();
    batch.fields[2].content = Content::Leaf(Leaf::Unsupported);
    assert!(encode_batch(&batch).is_none());
}

#[test]
fn encode_takes_the_empty_batch() {
    let batch = Batch { rows: 0, fields: Vec::new() };
    let bytes = encode_batch(&batch).expect("encodes");
    let batches = decode_stream(&bytes).expect("decodes");
    assert!(batches.iter().all(|batch| batch.fields.is_empty() && batch.rows == 0));
    let rows_without_columns = Batch { rows: 3, fields: Vec::new() };
    assert!(encode_batch(&rows_without_columns).is_none());
}

#[test]
fn process_answers_with_the_changed_record() {
    let command = create_arrow_example_meta_data().expect("encodes");
    let data = create_arrow_example_data().expect("encodes");
    let reply = process_payloads(&command, &data).expect("accepted");
    let batches = decode_stream(&reply).expect("decodes");
    assert_eq!(batches.len(), 1);
    let batch = &batches[0];
    assert_eq!(batch.rows, 1);
    assert_eq!(batch.fields.len(), 2);
    assert_eq!(batch.fields[0].name, "id");
    assert!(matches!(&batch.fields[0].content, Content::Leaf(Leaf::UInt64(ids)) if ids == &vec![1u64]));
    assert_eq!(batch.fields[1].name, "content");
    assert_eq!(first_text(&batch.fields[1]), "this is a test2");
    assert_eq!(reply, encode_batch(&reply_batch()).expect("encodes"));
}

#[test]
fn process_rejects_a_wrong_field_name() {
    let data = create_arrow_example_data().expect("encodes");
    let mut command = example_command_batch();
    command.fields[0].name = "order".to_string();
    let command = encode_batch(&command).expect("encodes");
    assert!(process_payloads(&command, &data).is_none());
}

#[test]
fn process_rejects_a_wrong_field_type() {
    let command = create_arrow_example_meta_data().expect("encodes");
    let mut data = example_data_batch();
    data.fields[0].content = Content::Leaf(Leaf::Utf8(vec!["1".to_string()]));
    let data = encode_batch(&data).expect("encodes");
    assert!(process_payloads(&command, &data).is_none());
}

#[test]
fn process_rejects_a_wrong_value() {
    let command = create_arrow_example_meta_data().expect("encodes");
    let mut data = example_data_batch();
    data.fields[1] = text_field("content", "this is another test");
    let data = encode_batch(&data).expect("encodes");
    assert!(process_payloads(&command, &data).is_none());
}

#[test]
fn process_rejects_two_rows() {
    let data = create_arrow_example_data().expect("encodes");
    let mut command = example_command_batch();
    command.rows = 2;
    command.fields[0].content =
        Content::Leaf(Leaf::Utf8(vec!["test".to_string(), "test".to_string()]));
    if let Content::Group(members) = &mut command.fields[1].content {
        members[0].leaf = Leaf::Utf8(vec!["test.txt".to_string(), "test.txt".to_string()]);
    }
    let command = encode_batch(&command).expect("encodes");
    assert!(process_payloads(&command, &data).is_none());
}

#[test]
fn process_rejects_payloads_in_the_wrong_order() {
    let command = create_arrow_example_meta_data().expect("encodes");
    let data = create_arrow_example_data().expect("encodes");
    assert!(process_payloads(&data, &command).is_none());
}

#[test]
fn adapter_publishes_the_answer() {
    let mut guest = GuestInstance::new();
    let command = create_arrow_example_meta_data().expect("encodes");
    let data = create_arrow_example_data().expect("encodes");
    let command_handle = send(&mut guest, &command);
    let data_handle = send(&mut guest, &data);
    let reply = wasm_memory_process_data_arrow(
        &mut guest,
        command_handle,
        command.len() as u32,
        data_handle,
        data.len() as u32,
    );
    assert_ne!(reply, 0);
    let metadata = guest.read(reply, 8).expect("in bounds");
    let (ptr, len) = unpack_metadata(&metadata).expect("a packed pair");
    let answer = guest.read(ptr, len).expect("in bounds");
    let batches = decode_stream(&answer).expect("decodes");
    assert_eq!(batches.len(), 1);
    assert_eq!(first_text(&batches[0].fields[1]), "this is a test2");
    for handle in [command_handle, data_handle, reply, ptr] {
        assert_eq!(wasm_deallocate(&mut guest, handle), 0);
    }
}

#[test]
fn adapter_rejects_a_wrong_declared_length() {
    let mut guest = GuestInstance::new();
    let command = create_arrow_example_meta_data().expect("encodes");
    let data = create_arrow_example_data().expect("encodes");
    let command_handle = send(&mut guest, &command);
    let data_handle = send(&mut guest, &data);
    let before = guest.memory_size();
    let short = wasm_memory_process_data_arrow(
        &mut guest,
        command_handle,
        command.len() as u32 - 1,
        data_handle,
        data.len() as u32,
    );
    assert_eq!(short, 0);
    let long = wasm_memory_process_data_arrow(
        &mut guest,
        command_handle,
        command.len() as u32,
        data_handle,
        data.len() as u32 + 1,
    );
    assert_eq!(long, 0);
    assert_eq!(guest.memory_size(), before);
}

#[test]
fn adapter_rejects_a_wrong_field_name() {
    let mut guest = GuestInstance::new();
    let mut command = example_command_batch();
    command.fields[1].name = "settings".to_string();
    let command = encode_batch(&command).expect("encodes");
    let data = create_arrow_example_data().expect("encodes");
    let command_handle = send(&mut guest, &command);
    let data_handle = send(&mut guest, &data);
    let reply = wasm_memory_process_data_arrow(
        &mut guest,
        command_handle,
        command.len() as u32,
        data_handle,
        data.len() as u32,
    );
    assert_eq!(reply, 0);
}

#[test]
fn text_column_with_many_cells_survives_the_codec() {
    let cells: Vec<String> = (0..500).map(|n| format!("cell {}", n)).collect();
    let batch = Batch {
        rows: 500,
        fields: vec![Field {
            name: "notes".to_string(),
            nullable: true,
            content: Content::Leaf(Leaf::Utf8(cells.clone())),
        }],
    };
    let bytes = encode_batch(&batch).expect("encodes");
    let batches = decode_stream(&bytes).expect("decodes");
    assert_eq!(batches.len(), 1);
    assert_eq!(batches[0].rows, 500);
    assert!(batches[0].fields[0].nullable);
    assert!(matches!(&batches[0].fields[0].content, Content::Leaf(Leaf::Utf8(read)) if read == &cells));
}

#[test]
fn composite_without_members_needs_a_batch_without_rows() {
    let empty_group = Field {
        name: "config".to_string(),
        nullable: false,
        content: Content::Group(Vec::new()),
    };
    let with_rows = Batch {
        rows: 1,
        fields: vec![text_field("command", "test"), empty_group],
    };
    assert!(encode_batch(&with_rows).is_none());
}

#[test]
fn answer_is_drawn_as_a_table() {
    let table = render_batch(&reply_batch()).expect("a table");
    let expected = "\
+----+-----------------+
| id | content         |
+----+-----------------+
| 1  | this is a test2 |
+----+-----------------+";
    assert_eq!(table, expected);
    let mut broken = reply_batch();
    broken.fields[0].content = Content::Leaf(Leaf::Unsupported);
    assert!(render_batch(&broken).is_none());
}

fn overwritten(bytes: &[u8], at: usize, word: &[u8]) -> Vec<u8> {
    let mut changed = bytes.to_vec();
    changed[at..at + word.len()].copy_from_slice(word);
    changed
}

#[test]
fn a_stream_with_a_changed_word_is_decoded_or_refused() {
    let streams = [
        create_arrow_example_data().expect("encodes"),
        create_arrow_example_meta_data().expect("encodes"),
    ];
    let words: [&[u8]; 10] = [
        &(1i64 << 40).to_le_bytes(),
        &(-1i64).to_le_bytes(),
        &i64::MAX.to_le_bytes(),
        &[0x7f],
        &[0x00, 0x00, 0x00, 0x00],
        &[0xff],
        &[0x01],
        &[0x80],
        &[0x02, 0x00],
        &[0x10, 0x00, 0x00, 0x00],
    ];
    let mut refused = 0;
    for stream in &streams {
        for word in words {
            for at in 0..stream.len() - word.len() {
                if decode_stream(&overwritten(stream, at, word)).is_none() {
                    refused += 1;
                }
            }
        }
    }
    assert!(refused > 0);
}

#[test]
fn a_buffer_that_leaves_its_body_is_refused() {
    let stream = create_arrow_example_data().expect("encodes");
    let length_of_content = 14i64.to_le_bytes();
    let mut found = 0;
    for at in 0..stream.len() - 8 {
        if stream[at..at + 8] == length_of_content {
            found += 1;
            let changed = overwritten(&stream, at, &(1i64 << 20).to_le_bytes());
            assert!(decode_stream(&changed).is_none());
        }
    }
    assert!(found > 0);
}

#[test]
fn a_timestamp_beyond_the_calendar_is_not_drawn() {
    let mut batch = example_data_batch();
    assert!(check_drawable(&batch));
    assert!(render_batch(&batch).is_some());
    batch.fields[3].content = Content::Leaf(Leaf::TimestampSecond {
        zone: "+01:00".to_string(),
        seconds: vec![i64::MAX / 1000],
    });
    assert!(!check_drawable(&batch));
    assert!(render_batch(&batch).is_none());
    assert!(encode_batch(&batch).is_some());
    batch.fields[3].content = Content::Leaf(Leaf::TimestampSecond {
        zone: "+01:00".to_string(),
        seconds: vec![4_000_000_000_000],
    });
    assert!(render_batch(&batch).is_some());
    batch.fields[3].content = Content::Leaf(Leaf::TimestampSecond {
        zone: "+01:00".to_string(),
        seconds: vec![-4_000_000_000_001],
    });
    assert!(render_batch(&batch).is_none());
}

#[test]
fn a_cut_stream_is_decoded_or_refused() {
    let stream = create_arrow_example_data().expect("encodes");
    let mut decoded = 0;
    for len in 0..stream.len() {
        if decode_stream(&stream[..len]).is_some() {
            decoded += 1;
        }
    }
    assert!(decoded < stream.len());
    assert!(decode_stream(&stream).is_some());
}

#[test]
fn a_sound_stream_passes_the_check() {
    assert!(check_stream(&create_arrow_example_data().expect("encodes")));
    assert!(check_stream(&create_arrow_example_meta_data().expect("encodes")));
    assert!(check_stream(b""));
    assert!(check_stream(b"no stream"));
    assert!(decode_stream(b"no stream").is_none());
}
