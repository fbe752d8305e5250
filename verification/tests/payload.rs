use base64::Engine;
use std::io::Write;

use queuepeek::payload::{decode_payload, format_message_body, pretty_format, pretty_xml};

fn gzip(text: &str) -> Vec<u8> {
    let mut e = flate2::write::GzEncoder::new(Vec::new(), flate2::Compression::default());
    e.write_all(text.as_bytes()).unwrap();
    e.finish().unwrap()
}

#[test]
fn base64_text_is_decoded() {
    assert_eq!(decode_payload("aGVsbG8="), ("hello".to_string(), "b64"));
    assert_eq!(decode_payload("  aGVsbG8=\n"), ("hello".to_string(), "b64"));
}

#[test]
fn base64_gzip_is_inflated() {
    let b = base64::engine::general_purpose::STANDARD.encode(gzip("compressed body"));
    assert_eq!(decode_payload(&b), ("compressed body".to_string(), "b64+gz"));
}

#[test]
fn url_safe_base64_is_decoded() {
    assert_eq!(decode_payload("aGk_"), ("hi?".to_string(), "b64url"));
}

#[test]
fn plain_text_stays() {
    assert_eq!(decode_payload("hello world!"), ("hello world!".to_string(), ""));
    assert_eq!(decode_payload("test"), ("test".to_string(), ""));
}

#[test]
fn xml_is_laid_out() {
    assert_eq!(pretty_xml("<a><b>text</b></a>"), "<a>\n  <b>\n    text\n  </b>\n</a>\n");
    assert_eq!(pretty_xml("<?xml version=\"1.0\"?><r/>"), "<?xml version=\"1.0\"?>\n<r/>\n");
    assert_eq!(pretty_xml("</x></y>"), "</x>\n</y>\n");
    assert_eq!(pretty_xml("tail"), "tail\n");
}

#[test]
fn pretty_format_detects_json_xml_text() {
    assert_eq!(pretty_format("{\"a\":1}"), ("{\n  \"a\": 1\n}".to_string(), "json"));
    assert_eq!(pretty_format("<a/>"), ("<a/>\n".to_string(), "xml"));
    assert_eq!(pretty_format(" plain "), (" plain ".to_string(), "text"));
    assert_eq!(pretty_format("{not json"), ("{not json".to_string(), "text"));
}

#[test]
fn message_body_as_json_when_possible() {
    assert_eq!(format_message_body("[1,2]"), "[\n  1,\n  2\n]");
    assert_eq!(format_message_body("nope"), "nope");
}
