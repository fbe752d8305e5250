use queuepeek::detail::{
    copied_status, handle_message_detail_key, header_fields, headers_text, search_lines,
    shown_payload, DetailAction, DetailView,
};
use queuepeek::keys::Key;
use queuepeek::model::MessageInfo;
use queuepeek::schema::DecodedMessage;

fn message(body: &str) -> MessageInfo {
    MessageInfo {
        index: 0,
        routing_key: "orders.created".to_string(),
        exchange: String::new(),
        redelivered: true,
        timestamp: Some(0),
        content_type: String::new(),
        headers: vec![("tenant".to_string(), "acme".to_string())],
        body: body.to_string(),
    }
}

#[test]
fn search_lines_ignores_case_and_line_endings() {
    assert_eq!(search_lines("Alpha\r\nbeta\nALPHABET\n", "alpha"), vec![0, 2]);
    assert_eq!(search_lines("one\ntwo", "TWO"), vec![1]);
    assert_eq!(search_lines("", "x"), Vec::<u16>::new());
    assert_eq!(search_lines("x\n\nx", "x"), vec![0, 2]);
    // a lone carriage return stays part of its line
    assert_eq!(search_lines("a\rb", "\rb"), vec![0]);
}

#[test]
fn shown_payload_labels_the_layers() {
    let (text, label) = shown_payload("{\"a\":1}", None, false, true);
    assert_eq!(text, "{\n  \"a\": 1\n}");
    assert_eq!(label, "json");
    let (text, label) = shown_payload("{\"a\":1}", None, false, false);
    assert_eq!(text, "{\"a\":1}");
    assert_eq!(label, "raw");
    // "aGVsbG8=" is base64 for "hello"
    let (text, label) = shown_payload("aGVsbG8=", None, true, true);
    assert_eq!(text, "hello");
    assert_eq!(label, "text+b64");
    let (text, label) = shown_payload("aGVsbG8=", None, true, false);
    assert_eq!(text, "hello");
    assert_eq!(label, "raw+b64");
    let decoded = DecodedMessage {
        schema_id: 7,
        schema_type: "avro".to_string(),
        decoded_body: "{\"id\":2}".to_string(),
    };
    let (text, label) = shown_payload("binary", Some(&decoded), true, true);
    assert_eq!(text, "{\n  \"id\": 2\n}");
    assert_eq!(label, "json+avro#7");
}

#[test]
fn header_fields_fill_in_defaults() {
    let m = message("x");
    let f = header_fields(&m);
    assert_eq!(f.len(), 5);
    assert_eq!(f[0], ("routing_key".to_string(), "orders.created".to_string()));
    assert_eq!(f[1], ("exchange".to_string(), "(default)".to_string()));
    assert_eq!(f[2], ("redelivered".to_string(), "true".to_string()));
    assert_eq!(f[3], ("timestamp".to_string(), "1970-01-01 00:00:00 UTC".to_string()));
    assert_eq!(f[4], ("content_type".to_string(), "N/A".to_string()));
}

#[test]
fn headers_text_lists_fields_then_headers() {
    let m = message("x");
    assert_eq!(
        headers_text(&m),
        "routing_key: orders.created\nexchange: \nredelivered: true\ncontent_type: \ntenant: acme\n"
    );
}

#[test]
fn search_finds_jumps_and_cycles() {
    let m = message("first\nmatch one\nother\nMATCH two\n");
    let mut v = DetailView::new();
    v.pretty = false;
    let r = handle_message_detail_key(&mut v, Key::Char('/'), Some(&m), false, None);
    assert!(matches!(r.action, DetailAction::Nothing));
    assert!(v.search_active);
    for c in "match".chars() {
        handle_message_detail_key(&mut v, Key::Char(c), Some(&m), false, None);
    }
    assert_eq!(v.matches, vec![1, 3]);
    assert_eq!(v.scroll, 1);
    let r = handle_message_detail_key(&mut v, Key::Enter, Some(&m), false, None);
    assert!(!v.search_active);
    let st = r.status.unwrap();
    assert_eq!(st.text, "1/2 matches");
    assert!(!st.error);
    let r = handle_message_detail_key(&mut v, Key::Char('n'), Some(&m), false, None);
    assert_eq!(v.current, 1);
    assert_eq!(v.scroll, 3);
    assert_eq!(r.status.unwrap().text, "2/2 matches");
    handle_message_detail_key(&mut v, Key::Char('n'), Some(&m), false, None);
    assert_eq!(v.current, 0);
    handle_message_detail_key(&mut v, Key::Char('N'), Some(&m), false, None);
    assert_eq!(v.current, 1);
    handle_message_detail_key(&mut v, Key::Char('N'), Some(&m), false, None);
    assert_eq!(v.current, 0);
    assert_eq!(v.scroll, 1);
    // the first Esc clears the search, the second leaves
    let r = handle_message_detail_key(&mut v, Key::Esc, Some(&m), false, None);
    assert!(matches!(r.action, DetailAction::Nothing));
    assert!(v.query.is_empty());
    assert!(v.matches.is_empty());
    let r = handle_message_detail_key(&mut v, Key::Esc, Some(&m), false, None);
    assert!(matches!(r.action, DetailAction::Back));
}

#[test]
fn search_without_match_reports_pattern_not_found() {
    let m = message("abc");
    let mut v = DetailView::new();
    handle_message_detail_key(&mut v, Key::Char('/'), Some(&m), false, None);
    handle_message_detail_key(&mut v, Key::Char('z'), Some(&m), false, None);
    let r = handle_message_detail_key(&mut v, Key::Enter, Some(&m), false, None);
    let st = r.status.unwrap();
    assert_eq!(st.text, "Pattern not found");
    assert!(st.error);
    let r = handle_message_detail_key(&mut v, Key::Char('n'), Some(&m), false, None);
    assert_eq!(r.status.unwrap().text, "Pattern not found");
    // Backspace in the search input runs the search again
    handle_message_detail_key(&mut v, Key::Char('/'), Some(&m), false, None);
    handle_message_detail_key(&mut v, Key::Char('b'), Some(&m), false, None);
    handle_message_detail_key(&mut v, Key::Char('z'), Some(&m), false, None);
    assert!(v.matches.is_empty());
    handle_message_detail_key(&mut v, Key::Backspace, Some(&m), false, None);
    assert_eq!(v.matches, vec![0]);
}

#[test]
fn detail_scrolling_saturates() {
    let m = message("x");
    let mut v = DetailView::new();
    handle_message_detail_key(&mut v, Key::Up, Some(&m), false, None);
    assert_eq!(v.scroll, 0);
    handle_message_detail_key(&mut v, Key::PageDown, Some(&m), false, None);
    handle_message_detail_key(&mut v, Key::Char('j'), Some(&m), false, None);
    assert_eq!(v.scroll, 11);
    handle_message_detail_key(&mut v, Key::PageUp, Some(&m), false, None);
    assert_eq!(v.scroll, 1);
    v.scroll = u16::MAX - 3;
    handle_message_detail_key(&mut v, Key::PageDown, Some(&m), false, None);
    assert_eq!(v.scroll, u16::MAX);
}

#[test]
fn switches_report_their_state() {
    let m = message("x");
    let mut v = DetailView::new();
    let r = handle_message_detail_key(&mut v, Key::Char('b'), Some(&m), false, None);
    assert!(v.decoded);
    assert_eq!(r.status.unwrap().text, "Binary decode ON (base64/gzip)");
    let r = handle_message_detail_key(&mut v, Key::Char('b'), Some(&m), false, None);
    assert_eq!(r.status.unwrap().text, "Binary decode OFF");
    let r = handle_message_detail_key(&mut v, Key::Char('s'), Some(&m), false, None);
    let st = r.status.unwrap();
    assert_eq!(st.text, "No Schema Registry configured for this profile");
    assert!(st.error);
    assert!(!v.schema_decode);
    let r = handle_message_detail_key(&mut v, Key::Char('s'), Some(&m), true, None);
    assert!(matches!(r.action, DetailAction::ClearSchemaCache));
    assert_eq!(r.status.unwrap().text, "Schema decode ON");
    assert!(v.schema_decode);
    handle_message_detail_key(&mut v, Key::Char('p'), Some(&m), false, None);
    assert!(!v.pretty);
}

#[test]
fn message_keys_hand_out_the_message() {
    let mut m = message("payload");
    let mut v = DetailView::new();
    match handle_message_detail_key(&mut v, Key::Char('c'), Some(&m), false, None).action {
        DetailAction::CopyPayload(t) => assert_eq!(t, "payload"),
        _ => panic!("expected a copy"),
    }
    match handle_message_detail_key(&mut v, Key::Char('E'), Some(&m), false, None).action {
        DetailAction::EditMessage { routing_key, content_type, body } => {
            assert_eq!(routing_key, "orders.created");
            assert_eq!(content_type, "application/json");
            assert_eq!(body, "payload");
        }
        _ => panic!("expected the publish form"),
    }
    let r = handle_message_detail_key(&mut v, Key::Char('L'), Some(&m), false, None);
    assert_eq!(r.status.unwrap().text, "No x-death header found — not a dead-lettered message");
    m.headers.push((
        "x-death".to_string(),
        "[{\"exchange\":\"orders\",\"routing-keys\":[\"created\"]}]".to_string(),
    ));
    match handle_message_detail_key(&mut v, Key::Char('L'), Some(&m), false, None).action {
        DetailAction::ConfirmReroute { exchange, routing_key } => {
            assert_eq!(exchange, "orders");
            assert_eq!(routing_key, "created");
        }
        _ => panic!("expected a reroute"),
    }
    let r = handle_message_detail_key(&mut v, Key::Char('c'), None, false, None);
    assert!(matches!(r.action, DetailAction::Nothing));
    let r = handle_message_detail_key(&mut v, Key::Char('q'), None, false, None);
    assert!(matches!(r.action, DetailAction::Quit));
}

#[test]
fn copied_status_reports_clipboard_result() {
    let s = copied_status(true, Ok(()));
    assert_eq!(s.text, "Headers copied to clipboard");
    assert!(!s.error);
    let s = copied_status(false, Err("no clipboard".to_string()));
    assert_eq!(s.text, "no clipboard");
    assert!(s.error);
}

#[test]
fn opening_a_message_resets_the_search() {
    let m = message("abc");
    let mut v = DetailView::new();
    handle_message_detail_key(&mut v, Key::Char('/'), Some(&m), false, None);
    handle_message_detail_key(&mut v, Key::Char('a'), Some(&m), false, None);
    v.pretty = false;
    v.open_message();
    assert!(!v.search_active);
    assert!(v.query.is_empty());
    assert_eq!(v.scroll, 0);
    assert!(!v.pretty);
}
