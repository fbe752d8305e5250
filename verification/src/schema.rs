//! Messages in the Confluent wire format: a zero magic byte, a big-endian
//! schema id, then the payload encoded by that schema from the registry.

use vstd::prelude::*;
use crate::import::{lossy_text, utf8_lossy};
use crate::protobuf::{decode_protobuf_raw, decode_raw};
use crate::json::{as_text, json_document, json_member, json_value_from, member, parse_json, JsonShape, JsonValue};
use crate::text::{owned, push_signed, push_str, signed_decimal, strip_back};

verus! {

/// A message decoded by its schema.
#[derive(Debug)]
pub struct DecodedMessage {
    pub schema_id: i32,
    /// `avro`, `json-schema`, `protobuf` or `unknown`.
    pub schema_type: String,
    pub decoded_body: String,
}

/// The kinds of schema the registry serves.
#[derive(Debug, Clone, Copy, PartialEq, Eq, Structural)]
pub enum SchemaKind {
    Avro,
    Json,
    /// Protobuf: the payload is decoded without the schema, field by field.
    Protobuf,
    /// Any other kind: the payload is shown as text.
    Other,
}

/// The kind a registry answer names in `schemaType`; Avro when it names
/// none.
pub open spec fn schema_kind_spec(schema_type: Option<Seq<char>>) -> SchemaKind {
    match schema_type {
        None => SchemaKind::Avro,
        Some(t) => if t == "AVRO"@ {
            SchemaKind::Avro
        } else if t == "JSON"@ {
            SchemaKind::Json
        } else if t == "PROTOBUF"@ {
            SchemaKind::Protobuf
        } else {
            SchemaKind::Other
        },
    }
}

pub fn schema_kind(schema_type: Option<&str>) -> (r: SchemaKind)
    ensures
        r == schema_kind_spec(
            match schema_type {
                Some(t) => Some(t@),
                None => None,
            },
        ),
{
    match schema_type {
        None => SchemaKind::Avro,
        Some(t) => {
            if crate::text::same_text(t, "AVRO") {
                SchemaKind::Avro
            } else if crate::text::same_text(t, "JSON") {
                SchemaKind::Json
            } else if crate::text::same_text(t, "PROTOBUF") {
                SchemaKind::Protobuf
            } else {
                SchemaKind::Other
            }
        },
    }
}

/// The label a decoded message shows for its kind of schema.
pub open spec fn schema_label_spec(k: SchemaKind) -> Seq<char> {
    match k {
        SchemaKind::Avro => "avro"@,
        SchemaKind::Json => "json-schema"@,
        SchemaKind::Protobuf => "protobuf"@,
        SchemaKind::Other => "unknown"@,
    }
}

pub fn schema_label(k: SchemaKind) -> (r: &'static str)
    ensures
        r@ == schema_label_spec(k),
{
    match k {
        SchemaKind::Avro => "avro",
        SchemaKind::Json => "json-schema",
        SchemaKind::Protobuf => "protobuf",
        SchemaKind::Other => "unknown",
    }
}

/// The `i32` that four bytes encode in big-endian order
/// (`i32::from_be_bytes`), in two's complement.
pub open spec fn be_i32(a: u8, b: u8, c: u8, d: u8) -> int {
    let u = a * 16777216 + b * 65536 + c * 256 + d;
    if u >= 2147483648 {
        u - 4294967296
    } else {
        u
    }
}

/// The schema id of a message in the wire format, or why it is not in it.
pub open spec fn wire_schema_id(raw: Seq<u8>) -> Result<int, Seq<char>> {
    if raw.len() < 5 {
        Err("Body too short for Confluent wire format"@)
    } else if raw[0] != 0 {
        Err("No Confluent magic byte (0x00)"@)
    } else {
        Ok(be_i32(raw[1], raw[2], raw[3], raw[4]))
    }
}

/// Reads the header of a message in the wire format: its schema id, with
/// the payload starting at byte 5.
pub fn wire_header(raw: &[u8]) -> (r: Result<i32, String>)
    ensures
        match wire_schema_id(raw@) {
            Ok(id) => r matches Ok(x) && x == id,
            Err(e) => r matches Err(t) && t@ == e,
        },
{
    if raw.len() < 5 {
        return Err(owned("Body too short for Confluent wire format"));
    }
    if raw[0] != 0 {
        return Err(owned("No Confluent magic byte (0x00)"));
    }
    let u: i64 = (raw[1] as i64) * 16777216 + (raw[2] as i64) * 65536 + (raw[3] as i64) * 256 + (
    raw[4] as i64);
    if u >= 2147483648 {
        Ok((u - 4294967296) as i32)
    } else {
        Ok(u as i32)
    }
}

/// The header of a body held as text: its UTF-8 bytes read as the wire
/// format.
pub fn wire_header_of_text(body: &str) -> (r: Result<i32, String>)
    ensures
        match wire_schema_id(vstd::utf8::encode_utf8(body@)) {
            Ok(id) => r matches Ok(x) && x == id,
            Err(e) => r matches Err(t) && t@ == e,
        },
{
    wire_header(body.as_bytes())
}

/// The registry's address without trailing slashes.
pub open spec fn registry_base(url: Seq<char>) -> Seq<char> {
    strip_back(url, |c: char| c == '/')
}

pub fn registry_base_url(url: &str) -> (r: String)
    ensures
        r@ == registry_base(url@),
{
    let v = crate::text::chars_of(url);
    let mut end = v.len();
    assert(v@.subrange(0, end as int) =~= url@);
    while end > 0 && v[end - 1] == '/'
        invariant
            end <= v@.len(),
            v@ == url@,
            registry_base(url@) == registry_base(v@.subrange(0, end as int)),
        decreases end,
    {
        proof {
            let s = v@.subrange(0, end as int);
            assert(s.drop_last() =~= v@.subrange(0, end - 1));
        }
        end = end - 1;
    }
    proof {
        let s = v@.subrange(0, end as int);
        if s.len() > 0 {
            assert(s.last() == v@[end - 1]);
        }
    }
    crate::text::string_of_range(&v, 0, end)
}

/// The registry path of schema `id`.
pub fn schema_url(base: &str, id: i32) -> (r: String)
    ensures
        r@ == base@ + "/schemas/ids/"@ + signed_decimal(id as int),
{
    let mut s = owned(base);
    push_str(&mut s, "/schemas/ids/");
    push_signed(&mut s, id as i64);
    s
}

// ---------------------------------------------------------------------------
// Decoding the payload
// ---------------------------------------------------------------------------

/// What the registry answers for a schema id: the kind it names in
/// `schemaType` (Avro when it names none) and the schema's text in
/// `schema`, or the error when there is no such text.
pub open spec fn registry_schema_spec(answer: JsonValue) -> Result<(SchemaKind, Seq<char>), Seq<char>> {
    let schema = match member(answer, "schema"@) {
        Some(v) => as_text(v),
        None => None,
    };
    let kind = schema_kind_spec(
        match member(answer, "schemaType"@) {
            Some(v) => as_text(v),
            None => None,
        },
    );
    match schema {
        Some(text) => Ok((kind, text)),
        None => Err("No 'schema' field in registry response"@),
    }
}

fn member_text<'a>(v: &'a JsonValue, key: &str) -> (r: Option<&'a str>)
    ensures
        r matches Some(t) ==> (match member(*v, key@) {
            Some(m) => as_text(m) == Some(t@),
            None => false,
        }),
        r is None ==> (match member(*v, key@) {
            Some(m) => as_text(m) is None,
            None => true,
        }),
{
    match json_member(v, key) {
        Some(m) => match &m.shape {
            JsonShape::Text(t) => Some(t.as_str()),
            _ => None,
        },
        None => None,
    }
}

/// Reads the registry's answer for a schema id.
pub fn registry_schema(answer: &JsonValue) -> (r: Result<(SchemaKind, String), String>)
    ensures
        match registry_schema_spec(*answer) {
            Ok((kind, text)) => r matches Ok(x) && x.0 == kind && x.1@ == text,
            Err(e) => r matches Err(t) && t@ == e,
        },
{
    let kind = schema_kind(member_text(answer, "schemaType"));
    match member_text(answer, "schema") {
        Some(t) => Ok((kind, owned(t))),
        None => Err(owned("No 'schema' field in registry response")),
    }
}

/// Reads the registry's answer (JSON text) for a schema id; `None` when it
/// is not JSON.
pub fn parse_registry_answer(text: &str) -> (r: Option<Result<(SchemaKind, String), String>>)
    ensures
        match json_document(text@) {
            None => r is None,
            Some(d) => r matches Some(x) && match registry_schema_spec(d) {
                Ok((kind, t)) => x matches Ok(y) && y.0 == kind && y.1@ == t,
                Err(e) => x matches Err(y) && y@ == e,
            },
        },
{
    match parse_json(text) {
        Some(d) => Some(registry_schema(&d)),
        None => None,
    }
}

/// What `serde_json::from_slice` makes of `bytes`: the value, or the
/// parser's error message.
pub uninterp spec fn json_slice(bytes: Seq<u8>) -> Result<JsonValue, Seq<char>>;

/// `serde_json::from_slice::<serde_json::Value>`: the result (the value
/// in the model, or the error's message) is named `json_slice` of the
/// bytes.
#[verifier::external_body]
fn parse_json_bytes(bytes: &[u8]) -> (r: Result<JsonValue, String>)
    ensures
        match r {
            Ok(v) => json_slice(bytes@) == Ok::<JsonValue, Seq<char>>(v),
            Err(e) => json_slice(bytes@) == Err::<JsonValue, Seq<char>>(e@),
        },
{
    match serde_json::from_slice::<serde_json::Value>(bytes) {
        Ok(v) => Ok(json_value_from(&v)),
        Err(e) => Err(e.to_string()),
    }
}

/// A payload under a JSON schema: the JSON indented (or, should printing
/// fail, the payload as text), or the parser's error.
pub open spec fn json_schema_body(payload: Seq<u8>) -> Result<Seq<char>, Seq<char>> {
    match json_slice(payload) {
        Ok(v) => match v.pretty {
            Some(t) => Ok(t@),
            None => Ok(utf8_lossy(payload)),
        },
        Err(e) => Err("JSON decode: "@ + e),
    }
}

/// Decodes a payload whose schema is a JSON schema.
pub fn json_schema_message(schema_id: i32, payload: &[u8]) -> (r: Result<DecodedMessage, String>)
    ensures
        match json_schema_body(payload@) {
            Ok(t) => r matches Ok(m) && m.schema_id == schema_id && m.schema_type@ == schema_label_spec(
                SchemaKind::Json,
            ) && m.decoded_body@ == t,
            Err(e) => r matches Err(x) && x@ == e,
        },
{
    let body = match parse_json_bytes(payload) {
        Ok(v) => match v.pretty {
            Some(t) => t,
            None => lossy_text(payload),
        },
        Err(e) => {
            let mut m = owned("JSON decode: ");
            push_str(&mut m, e.as_str());
            return Err(m);
        },
    };
    Ok(DecodedMessage { schema_id, schema_type: owned(schema_label(SchemaKind::Json)), decoded_body: body })
}

/// Decodes a payload whose schema is of a kind not read here: the payload
/// is shown as text.
pub fn unknown_schema_message(schema_id: i32, payload: &[u8]) -> (r: DecodedMessage)
    ensures
        r.schema_id == schema_id,
        r.schema_type@ == schema_label_spec(SchemaKind::Other),
        r.decoded_body@ == utf8_lossy(payload@),
{
    DecodedMessage {
        schema_id,
        schema_type: owned(schema_label(SchemaKind::Other)),
        decoded_body: lossy_text(payload),
    }
}

/// A payload under a Protobuf schema, decoded field by field without the
/// schema, or the error when it is not a message.
pub open spec fn protobuf_schema_body(payload: Seq<u8>) -> Result<Seq<char>, Seq<char>> {
    match decode_raw(payload) {
        Some(t) => Ok(t),
        None => Err("Protobuf decode: not a valid message"@),
    }
}

/// Decodes a payload whose schema is a Protobuf schema.
pub fn protobuf_schema_message(schema_id: i32, payload: &[u8]) -> (r: Result<DecodedMessage, String>)
    ensures
        match protobuf_schema_body(payload@) {
            Ok(t) => r matches Ok(m) && m.schema_id == schema_id && m.schema_type@ == schema_label_spec(
                SchemaKind::Protobuf,
            ) && m.decoded_body@ == t,
            Err(e) => r matches Err(x) && x@ == e,
        },
{
    match decode_protobuf_raw(payload) {
        Some(t) => Ok(
            DecodedMessage {
                schema_id,
                schema_type: owned(schema_label(SchemaKind::Protobuf)),
                decoded_body: t,
            },
        ),
        None => Err(owned("Protobuf decode: not a valid message")),
    }
}

} // verus!
