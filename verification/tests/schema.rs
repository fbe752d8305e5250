use queuepeek::schema::{
    json_schema_message, parse_registry_answer, registry_base_url, schema_kind, schema_label, schema_url,
    unknown_schema_message, wire_header, wire_header_of_text, SchemaKind,
};

#[test]
fn wire_header_reads_big_endian_id() {
    assert_eq!(wire_header(&[0, 0, 0, 0, 1, 9, 9]), Ok(1));
    assert_eq!(wire_header(&[0, 0, 0, 1, 0]), Ok(256));
    assert_eq!(wire_header(&[0, 0xff, 0xff, 0xff, 0xff]), Ok(-1));
    assert_eq!(wire_header(&[0, 0x80, 0, 0, 0]), Ok(i32::MIN));
}

#[test]
fn wire_header_errors() {
    assert_eq!(wire_header(&[0, 1]), Err("Body too short for Confluent wire format".to_string()));
    assert_eq!(wire_header(&[1, 0, 0, 0, 1]), Err("No Confluent magic byte (0x00)".to_string()));
    assert_eq!(wire_header_of_text("\u{0}\u{0}\u{0}\u{0}\u{7}x"), Ok(7));
    assert!(wire_header_of_text("plain text").is_err());
}

#[test]
fn registry_addresses() {
    assert_eq!(registry_base_url("http://r:8081//"), "http://r:8081");
    assert_eq!(registry_base_url("http://r:8081"), "http://r:8081");
    assert_eq!(schema_url("http://r", 7), "http://r/schemas/ids/7");
    assert_eq!(schema_url("http://r", -3), "http://r/schemas/ids/-3");
}

#[test]
fn schema_kinds() {
    assert_eq!(schema_kind(None), SchemaKind::Avro);
    assert_eq!(schema_kind(Some("AVRO")), SchemaKind::Avro);
    assert_eq!(schema_kind(Some("JSON")), SchemaKind::Json);
    assert_eq!(schema_kind(Some("PROTOBUF")), SchemaKind::Protobuf);
    assert_eq!(schema_kind(Some("XML")), SchemaKind::Other);
    assert_eq!(schema_label(SchemaKind::Protobuf), "protobuf");
    assert_eq!(schema_label(SchemaKind::Avro), "avro");
    assert_eq!(schema_label(SchemaKind::Json), "json-schema");
    assert_eq!(schema_label(SchemaKind::Other), "unknown");
}

#[test]
fn registry_answer_gives_kind_and_schema() {
    let avro = parse_registry_answer(r#"{"schema": "{\"type\":\"string\"}"}"#).unwrap().unwrap();
    assert_eq!(avro.0, SchemaKind::Avro);
    assert_eq!(avro.1, "{\"type\":\"string\"}");
    let json = parse_registry_answer(r#"{"schemaType": "JSON", "schema": "{}"}"#).unwrap().unwrap();
    assert_eq!(json.0, SchemaKind::Json);
    let proto = parse_registry_answer(r#"{"schemaType": "PROTOBUF", "schema": "syntax"}"#).unwrap().unwrap();
    assert_eq!(proto.0, SchemaKind::Protobuf);
    assert_eq!(
        parse_registry_answer(r#"{"id": 3}"#).unwrap().unwrap_err(),
        "No 'schema' field in registry response"
    );
    assert!(parse_registry_answer("not json").is_none());
}

#[test]
fn json_schema_payload_is_indented() {
    let m = json_schema_message(7, br#"{"a":1}"#).unwrap();
    assert_eq!(m.schema_id, 7);
    assert_eq!(m.schema_type, "json-schema");
    assert_eq!(m.decoded_body, "{\n  \"a\": 1\n}");
    let err = json_schema_message(7, b"{").unwrap_err();
    assert!(err.starts_with("JSON decode: "));
    assert_eq!(err, format!("JSON decode: {}", serde_json::from_slice::<serde_json::Value>(b"{").unwrap_err()));
}

#[test]
fn unknown_schema_payload_is_text() {
    let m = unknown_schema_message(-2, b"plain \xff bytes");
    assert_eq!(m.schema_id, -2);
    assert_eq!(m.schema_type, "unknown");
    assert_eq!(m.decoded_body, "plain \u{fffd} bytes");
}
