use queuepeek::protobuf::decode_protobuf_raw;
use queuepeek::schema::protobuf_schema_message;

fn decoded(b: &[u8]) -> String {
    decode_protobuf_raw(b).expect("a message")
}

#[test]
fn varints_are_written_in_decimal() {
    assert_eq!(decoded(&[0x08, 0x96, 0x01]), "1: 150\n");
    assert_eq!(decoded(&[0x08, 0x01, 0x10, 0x02]), "1: 1\n2: 2\n");
    let mut max = vec![0x08];
    max.extend_from_slice(&[0xff; 9]);
    max.push(0x01);
    assert_eq!(decoded(&max), "1: 18446744073709551615\n");
}

#[test]
fn fixed_values_are_written_in_hex() {
    assert_eq!(decoded(&[0x2d, 0x01, 0x00, 0x00, 0x00]), "5: 0x00000001\n");
    assert_eq!(decoded(&[0x09, 0xef, 0xcd, 0xab, 0x89, 0x67, 0x45, 0x23, 0x01]), "1: 0x0123456789abcdef\n");
}

#[test]
fn length_delimited_values_are_messages_or_strings() {
    assert_eq!(decoded(&[0x12, 0x07, b't', b'e', b's', b't', b'i', b'n', b'g']), "2: \"testing\"\n");
    assert_eq!(decoded(&[0x1a, 0x03, 0x08, 0x96, 0x01]), "3 {\n  1: 150\n}\n");
    assert_eq!(decoded(&[0x12, 0x00]), "2: \"\"\n");
    assert_eq!(decoded(&[0x0a, 0x01, b'a']), "1: \"a\"\n");
    assert_eq!(decoded(&[0x12, 0x03, 0xff, b'\n', b'"']), "2: \"\\377\\n\\\"\"\n");
    assert_eq!(
        decoded(&[0x0a, 0x05, 0x12, 0x03, 0x08, 0x96, 0x01]),
        "1 {\n  2 {\n    1: 150\n  }\n}\n"
    );
}

#[test]
fn groups_are_written_between_braces() {
    assert_eq!(decoded(&[0x23, 0x08, 0x01, 0x24]), "4 {\n  1: 1\n}\n");
    assert!(decode_protobuf_raw(&[0x23, 0x08, 0x01]).is_none());
    assert!(decode_protobuf_raw(&[0x23, 0x08, 0x01, 0x2c]).is_none());
}

#[test]
fn malformed_payloads_are_not_messages() {
    assert!(decode_protobuf_raw(&[0x08]).is_none());
    assert!(decode_protobuf_raw(&[0x00, 0x01]).is_none());
    assert!(decode_protobuf_raw(&[0x0f]).is_none());
    assert!(decode_protobuf_raw(&[0x0a, 0x05, 0x01]).is_none());
    assert_eq!(decode_protobuf_raw(&[]), Some(String::new()));
}

#[test]
fn protobuf_schema_messages() {
    let m = protobuf_schema_message(9, &[0x08, 0x2a]).unwrap();
    assert_eq!(m.schema_id, 9);
    assert_eq!(m.schema_type, "protobuf");
    assert_eq!(m.decoded_body, "1: 42\n");
    assert_eq!(protobuf_schema_message(9, &[0x08]).unwrap_err(), "Protobuf decode: not a valid message");
}
