use escli::encode::{encode_action_line, encode_doc, encode_page};
use escli::model::Hit;
use escli::sink::BufferSink;

fn sample_hits() -> Vec<Hit> {
    vec![
        Hit {
            source: "{\"field\":\"value1\"}".to_string(),
            sort: vec![1],
        },
        Hit {
            source: "{\"field\":\"value2\"}".to_string(),
            sort: vec![2],
        },
    ]
}

#[test]
fn test_persist_ndjson() {
    let hits = sample_hits();
    let mut output = BufferSink::new();
    output.write_text(encode_page("test_index", &hits).as_str());
    output.flush();
    let output_str = output.into_string();
    let expected_output = "{\"index\":{\"_index\":\"test_index\"}}\n{\"field\":\"value1\"}\n{\"index\":{\"_index\":\"test_index\"}}\n{\"field\":\"value2\"}\n";
    assert_eq!(output_str, expected_output);
}

#[test]
fn test_persist_ndjson_with_large_batch() {
    let hits: Vec<Hit> = (0..10_000)
        .map(|i| Hit {
            source: format!("{{\"field\":\"value{}\"}}", i),
            sort: vec![i as u64],
        })
        .collect();
    let mut output = BufferSink::new();
    output.write_text(encode_page("test_index", &hits).as_str());
    output.flush();
    let output_str = output.into_string();
    let lines: Vec<&str> = output_str.lines().collect();
    assert_eq!(lines.len(), 20_000);
    assert_eq!(lines[0], "{\"index\":{\"_index\":\"test_index\"}}");
    assert_eq!(lines[1], "{\"field\":\"value0\"}");
    assert_eq!(lines[2], "{\"index\":{\"_index\":\"test_index\"}}");
    assert_eq!(lines[3], "{\"field\":\"value1\"}");
    assert_eq!(lines[19998], "{\"index\":{\"_index\":\"test_index\"}}");
    assert_eq!(lines[19999], "{\"field\":\"value9999\"}");
}

#[test]
fn test_persist_with_multiple_indices() {
    let hits1 = sample_hits();
    let hits2 = vec![
        Hit {
            source: "{\"field\":\"value3\"}".to_string(),
            sort: vec![3],
        },
        Hit {
            source: "{\"field\":\"value4\"}".to_string(),
            sort: vec![4],
        },
    ];
    let mut output = BufferSink::new();
    output.write_text(encode_page("index1", &hits1).as_str());
    output.write_text(encode_page("index2", &hits2).as_str());
    output.flush();
    let output_str = output.into_string();
    let expected_output = "{\"index\":{\"_index\":\"index1\"}}\n{\"field\":\"value1\"}\n{\"index\":{\"_index\":\"index1\"}}\n{\"field\":\"value2\"}\n{\"index\":{\"_index\":\"index2\"}}\n{\"field\":\"value3\"}\n{\"index\":{\"_index\":\"index2\"}}\n{\"field\":\"value4\"}\n";
    assert_eq!(output_str, expected_output);
}

#[test]
fn page_of_n_documents_yields_exactly_2n_alternating_lines() {
    let hits: Vec<Hit> = (0..3)
        .map(|i| Hit {
            source: format!("{{\"n\":{}}}", i),
            sort: vec![i as u64],
        })
        .collect();
    let encoded = encode_page("idx", &hits);
    let lines: Vec<&str> = encoded.lines().collect();
    assert_eq!(lines.len(), 6);
    for (k, line) in lines.iter().enumerate() {
        if k % 2 == 0 {
            assert_eq!(*line, "{\"index\":{\"_index\":\"idx\"}}");
        } else {
            assert_eq!(*line, format!("{{\"n\":{}}}", k / 2));
        }
    }
}

#[test]
fn encoding_the_same_document_twice_is_byte_identical() {
    let first = encode_doc("idx", "{\"a\":1}");
    let second = encode_doc("idx", "{\"a\":1}");
    assert_eq!(first, second);
    assert_eq!(first, "{\"index\":{\"_index\":\"idx\"}}\n{\"a\":1}\n");
}

#[test]
fn action_line_escapes_the_index_name() {
    assert_eq!(
        encode_action_line("a\"b\\c\nd"),
        "{\"index\":{\"_index\":\"a\\\"b\\\\c\\nd\"}}"
    );
    assert_eq!(
        encode_action_line("tab\tbell\u{7}"),
        "{\"index\":{\"_index\":\"tab\\tbell\\u0007\"}}"
    );
    assert_eq!(encode_action_line("plain-index"), "{\"index\":{\"_index\":\"plain-index\"}}");
}

#[test]
fn empty_page_encodes_to_nothing() {
    let hits: Vec<Hit> = vec![];
    assert_eq!(encode_page("idx", &hits), "");
}

#[test]
fn buffer_sink_appends_in_order() {
    let mut sink = BufferSink::new();
    sink.write_text("one");
    sink.flush();
    sink.write_text("two");
    assert_eq!(sink.into_string(), "onetwo");
}
