use queuepeek::deletion::read_message_fields;
use queuepeek::import::{array_messages, jsonl_messages};
use queuepeek::model::MessageInfo;
use queuepeek::json::JsonShape;
use queuepeek::operations::{export_file_name, export_text, message_record_of, message_to_json};
use queuepeek::timestamp::file_stamp;

fn msg(body: &str, headers: Vec<(&str, &str)>, ts: Option<i64>) -> MessageInfo {
    MessageInfo {
        index: 1,
        routing_key: "k".to_string(),
        exchange: "ex".to_string(),
        redelivered: false,
        timestamp: ts,
        content_type: "c".to_string(),
        headers: headers.into_iter().map(|(k, v)| (k.to_string(), v.to_string())).collect(),
        body: body.to_string(),
    }
}

#[test]
fn message_line_is_compact_json_with_sorted_members() {
    let line = message_to_json(&msg("x", vec![("b", "2"), ("a", "1"), ("b", "3")], Some(5)));
    assert_eq!(
        line,
        r#"{"body":"x","content_type":"c","exchange":"ex","headers":{"a":"1","b":"3"},"index":1,"redelivered":false,"routing_key":"k","timestamp":5}"#
    );
    let none = message_to_json(&msg("q\"\n", vec![], None));
    assert!(none.contains(r#""body":"q\"\n""#));
    assert!(none.ends_with(r#""timestamp":null}"#));
}

#[test]
fn export_frames_lines_as_an_array() {
    assert_eq!(export_text(&vec![]), Err("No messages to export".to_string()));
    let ms = vec![msg("one", vec![], None), msg("two", vec![], None)];
    let a = message_to_json(&ms[0]);
    let b = message_to_json(&ms[1]);
    assert_eq!(export_text(&ms).unwrap(), format!("[\n  {},\n  {}\n]\n", a, b));
    assert_eq!(export_file_name("my-queue", "20260408-153012"), "my-queue-20260408-153012.json");
    assert_eq!(export_file_name("orders", &file_stamp(1700000000)), "orders-20231114-221320.json");
}

#[test]
fn exported_messages_read_back() {
    let ms = vec![msg("one", vec![("h", "v"), ("a", "z")], Some(3)), msg("two {}", vec![], None)];
    let values = array_messages(&export_text(&ms).unwrap()).unwrap();
    assert_eq!(values.len(), 2);
    let (body, key, ct, headers) = read_message_fields(&values[0]);
    assert_eq!((body.as_str(), key.as_str(), ct.as_str()), ("one", "k", "c"));
    assert_eq!(headers, vec![("a".to_string(), "z".to_string()), ("h".to_string(), "v".to_string())]);
    assert_eq!(read_message_fields(&values[1]).0, "two {}");
}

#[test]
fn message_record_lists_members_in_written_order() {
    let m = msg("x", vec![("b", "2"), ("b", "3")], Some(-5));
    match message_record_of(&m) {
        JsonShape::Record(es) => {
            let names: Vec<&str> = es.iter().map(|(k, _)| k.as_str()).collect();
            assert_eq!(
                names,
                vec!["index", "routing_key", "exchange", "redelivered", "timestamp", "content_type", "headers", "body"]
            );
            assert!(matches!(es[0].1.shape, JsonShape::Number { unsigned: Some(1), signed: Some(1) }));
            assert!(matches!(es[4].1.shape, JsonShape::Number { unsigned: None, signed: Some(-5) }));
            assert_eq!(es[4].1.compact, "-5");
            match &es[6].1.shape {
                JsonShape::Record(hs) => {
                    assert_eq!(hs.len(), 2);
                    assert_eq!(hs[1].1.compact, "\"3\"");
                }
                _ => panic!("headers are an object"),
            }
            assert!(matches!(&es[7].1.shape, JsonShape::Text(t) if t == "x"));
        }
        _ => panic!("a message is written as an object"),
    }
}

#[test]
fn dumped_lines_import_in_order() {
    let ms = vec![msg("first", vec![("k", "1"), ("k", "2")], None), msg("second", vec![], Some(9))];
    let lines: Vec<Option<String>> = ms.iter().map(|m| Some(message_to_json(m))).collect();
    let values = jsonl_messages(&lines);
    assert_eq!(values.len(), 2);
    let (body, key, ct, headers) = read_message_fields(&values[0]);
    assert_eq!((body.as_str(), key.as_str(), ct.as_str()), ("first", "k", "c"));
    assert_eq!(headers, vec![("k".to_string(), "2".to_string())]);
    assert_eq!(read_message_fields(&values[1]).0, "second");
}
