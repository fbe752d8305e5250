//! Message operations that need no broker: reading dead-letter headers,
//! stamping dumps with the current time, and writing messages as JSON for
//! exports, dumps and backups.

use vstd::prelude::*;
use crate::json::{
    as_text, field_of, json_compact, json_document, json_member, json_written, last_member_index, member,
    member_names, nests_within, parse_json, reads_as, JsonShape, JsonValue,
};
use crate::deletion::{message_fields, pairs_view, republished_fields, ActionModel};
use crate::model::MessageInfo;
use crate::order::{lemma_text_less_total, strictly_sorted, text_less};
use crate::text::{decimal, owned, push_str, trim, u64_text};

verus! {

/// The current Unix time in whole seconds (`SystemTime::now()` since the
/// epoch, zero if the clock reads before it). Nothing is claimed of the
/// value: it depends on the clock.
#[verifier::external_body]
pub(crate) fn unix_time_secs() -> u64 {
    std::time::SystemTime::now().duration_since(std::time::UNIX_EPOCH).unwrap_or_default().as_secs()
}

/// The current Unix time in seconds, in decimal.
pub fn chrono_timestamp() -> (r: String)
    ensures
        exists|t: u64| r@ == decimal(t as nat),
{
    let t = unix_time_secs();
    u64_text(t)
}

/// The entry an `x-death` header describes: the first element of an array,
/// or the value itself when it is not an array.
pub open spec fn x_death_entry(doc: Option<JsonValue>) -> Option<JsonValue> {
    match doc {
        None => None,
        Some(v) => match v.shape {
            JsonShape::List(items) => if items@.len() > 0 {
                Some(items@[0])
            } else {
                None
            },
            _ => Some(v),
        },
    }
}

/// The string member `key` of `e`, or empty.
pub open spec fn text_member(e: JsonValue, key: Seq<char>) -> Seq<char> {
    match member(e, key) {
        Some(m) => match as_text(m) {
            Some(t) => t,
            None => Seq::empty(),
        },
        None => Seq::empty(),
    }
}

/// The first string of the array member `routing-keys` of `e`, or empty.
pub open spec fn first_routing_key(e: JsonValue) -> Seq<char> {
    match member(e, "routing-keys"@) {
        Some(m) => match m.shape {
            JsonShape::List(items) => if items@.len() > 0 {
                match as_text(items@[0]) {
                    Some(t) => t,
                    None => Seq::empty(),
                }
            } else {
                Seq::empty()
            },
            _ => Seq::empty(),
        },
        None => Seq::empty(),
    }
}

/// The exchange and routing key a message was first sent with, as an `x-death` document names,
/// when it names at least one of them.
pub open spec fn x_death_spec(doc: Option<JsonValue>) -> Option<(Seq<char>, Seq<char>)> {
    match x_death_entry(doc) {
        None => None,
        Some(e) => {
            let ex = text_member(e, "exchange"@);
            let rk = first_routing_key(e);
            if ex.len() > 0 || rk.len() > 0 {
                Some((ex, rk))
            } else {
                None
            }
        },
    }
}

/// The string contents of `v`, or empty.
fn text_or_empty(v: Option<&JsonValue>) -> (r: String)
    ensures
        r@ == (match v {
            Some(m) => match as_text(*m) {
                Some(t) => t,
                None => Seq::empty(),
            },
            None => Seq::empty(),
        }),
{
    match v {
        Some(m) => match &m.shape {
            JsonShape::Text(s) => s.clone(),
            _ => String::new(),
        },
        None => String::new(),
    }
}

/// The first exchange and routing key named by a parsed `x-death`
/// document.
pub fn x_death_from(doc: &Option<JsonValue>) -> (r: Option<(String, String)>)
    ensures
        r is None <==> x_death_spec(*doc) is None,
        r matches Some(p) ==> x_death_spec(*doc) == Some((p.0@, p.1@)),
{
    let entry: &JsonValue = match doc {
        None => {
            return None;
        },
        Some(v) => match &v.shape {
            JsonShape::List(items) => {
                if items.len() == 0 {
                    return None;
                }
                &items[0]
            },
            _ => v,
        },
    };
    let exchange = text_or_empty(json_member(entry, "exchange"));
    let routing_key = match json_member(entry, "routing-keys") {
        Some(m) => match &m.shape {
            JsonShape::List(items) => {
                if items.len() > 0 {
                    text_or_empty(Some(&items[0]))
                } else {
                    String::new()
                }
            },
            _ => String::new(),
        },
        None => String::new(),
    };
    if exchange.as_str().is_empty() && routing_key.as_str().is_empty() {
        None
    } else {
        Some((exchange, routing_key))
    }
}

/// Reads an `x-death` header value (JSON, usually an array of entries) for
/// the exchange and routing key the message was first published with.
pub fn parse_x_death_value(value: &str) -> (r: Option<(String, String)>)
    ensures
        r is None <==> x_death_spec(json_document(value@)) is None,
        r matches Some(p) ==> x_death_spec(json_document(value@)) == Some((p.0@, p.1@)),
{
    let doc = parse_json(value);
    x_death_from(&doc)
}

// ---------------------------------------------------------------------------
// Messages as JSON
// ---------------------------------------------------------------------------

/// The value of the last header named `name`, if any.
pub open spec fn last_header(h: Seq<(Seq<char>, Seq<char>)>, name: Seq<char>) -> Option<Seq<char>>
    decreases h.len(),
{
    if h.len() == 0 {
        None
    } else if h.last().0 == name {
        Some(h.last().1)
    } else {
        last_header(h.drop_last(), name)
    }
}

/// `entries` are the headers `h` as a JSON object holds them: each name
/// once, in ascending order, with the value of its last header.
pub open spec fn header_object(h: Seq<(Seq<char>, Seq<char>)>, entries: Seq<(Seq<char>, Seq<char>)>) -> bool {
    &&& strictly_sorted(entries.map_values(|e: (Seq<char>, Seq<char>)| e.0))
    &&& forall|i: int| 0 <= i < entries.len() ==> last_header(h, #[trigger] entries[i].0) == Some(entries[i].1)
    &&& forall|name: Seq<char>|
        #[trigger] last_header(h, name) is Some ==> exists|i: int| 0 <= i < entries.len() && entries[i].0 == name
}

/// `v` is a string holding `s`.
pub open spec fn is_text(v: JsonValue, s: Seq<char>) -> bool {
    v.shape matches JsonShape::Text(t) && t@ == s
}

/// A position written as a JSON number.
pub open spec fn index_number(i: usize) -> JsonShape {
    JsonShape::Number {
        unsigned: Some(i as u64),
        signed: if i <= i64::MAX {
            Some(i as i64)
        } else {
            None
        },
    }
}

/// A timestamp written as a JSON number, or null when there is none.
pub open spec fn timestamp_value(t: Option<i64>) -> JsonShape {
    match t {
        Some(x) => JsonShape::Number {
            unsigned: if x >= 0 {
                Some(x as u64)
            } else {
                None
            },
            signed: Some(x),
        },
        None => JsonShape::Null,
    }
}

/// `hs` holds the headers `h` as strings, one member for one header, in
/// their order.
pub open spec fn header_members(hs: Seq<(String, JsonValue)>, h: Seq<(Seq<char>, Seq<char>)>) -> bool {
    &&& hs.len() == h.len()
    &&& forall|i: int| 0 <= i < hs.len() ==> #[trigger] hs[i].0@ == h[i].0 && is_text(hs[i].1, h[i].1)
}

/// The names of the members of a written message, in the order written.
pub open spec fn record_names() -> Seq<Seq<char>> {
    seq![
        "index"@,
        "routing_key"@,
        "exchange"@,
        "redelivered"@,
        "timestamp"@,
        "content_type"@,
        "headers"@,
        "body"@,
    ]
}

/// `v` is the object a message is written as: its position, routing key,
/// exchange, redelivered flag, timestamp (a number or null), content type,
/// headers (an object of strings) and body.
pub open spec fn message_record(v: JsonShape, m: MessageInfo) -> bool {
    &&& v matches JsonShape::Record(es)
    &&& member_names(es@) == record_names()
    &&& es@[0].1.shape == index_number(m.index)
    &&& is_text(es@[1].1, m.routing_key@)
    &&& is_text(es@[2].1, m.exchange@)
    &&& es@[3].1.shape == JsonShape::Flag(m.redelivered)
    &&& es@[4].1.shape == timestamp_value(m.timestamp)
    &&& is_text(es@[5].1, m.content_type@)
    &&& es@[6].1.shape matches JsonShape::Record(hs)
    &&& header_members(hs@, pairs_view(m.headers@))
    &&& is_text(es@[7].1, m.body@)
}

/// `text` is the compact JSON of the object message `m` is written as.
pub open spec fn is_message_line(text: Seq<char>, m: MessageInfo) -> bool {
    exists|v: JsonShape| message_record(v, m) && text == #[trigger] json_compact(v)
}

/// What reading a written message back as JSON gives: its body, routing
/// key and content type as they were, and its headers as an object holds
/// them.
pub open spec fn reads_back(text: Seq<char>, m: MessageInfo) -> bool {
    match json_document(text) {
        Some(d) => {
            let f = message_fields(d);
            &&& f.0 == m.body@
            &&& f.1 == m.routing_key@
            &&& f.2 == m.content_type@
            &&& header_object(pairs_view(m.headers@), f.3)
        },
        None => false,
    }
}

/// A string value.
fn text_value(s: &str) -> (r: JsonValue)
    ensures
        is_text(r, s@),
{
    json_written(JsonShape::Text(owned(s)))
}

/// The headers `h` as the members of a JSON object, in their order.
fn header_record(h: &Vec<(String, String)>) -> (r: Vec<(String, JsonValue)>)
    ensures
        header_members(r@, pairs_view(h@)),
{
    let mut hs: Vec<(String, JsonValue)> = Vec::new();
    let mut i: usize = 0;
    while i < h.len()
        invariant
            i <= h@.len(),
            hs@.len() == i,
            forall|j: int| 0 <= j < i ==> #[trigger] hs@[j].0@ == h@[j].0@ && is_text(hs@[j].1, h@[j].1@),
        decreases h.len() - i,
    {
        let name = owned(h[i].0.as_str());
        let value = text_value(h[i].1.as_str());
        hs.push((name, value));
        i = i + 1;
    }
    hs
}

/// The object message `m` is written as.
pub fn message_record_of(m: &MessageInfo) -> (r: JsonShape)
    ensures
        message_record(r, *m),
{
    let signed: Option<i64> = if m.index as u64 <= i64::MAX as u64 {
        Some(m.index as i64)
    } else {
        None
    };
    let index = json_written(JsonShape::Number { unsigned: Some(m.index as u64), signed });
    let timestamp = match m.timestamp {
        Some(x) => json_written(
            JsonShape::Number {
                unsigned: if x >= 0 {
                    Some(x as u64)
                } else {
                    None
                },
                signed: Some(x),
            },
        ),
        None => json_written(JsonShape::Null),
    };
    let headers = json_written(JsonShape::Record(header_record(&m.headers)));
    let mut es: Vec<(String, JsonValue)> = Vec::new();
    es.push((owned("index"), index));
    es.push((owned("routing_key"), text_value(m.routing_key.as_str())));
    es.push((owned("exchange"), text_value(m.exchange.as_str())));
    es.push((owned("redelivered"), json_written(JsonShape::Flag(m.redelivered))));
    es.push((owned("timestamp"), timestamp));
    es.push((owned("content_type"), text_value(m.content_type.as_str())));
    es.push((owned("headers"), headers));
    es.push((owned("body"), text_value(m.body.as_str())));
    assert(member_names(es@) =~= record_names());
    JsonShape::Record(es)
}

/// The names of a written message are told apart.
proof fn lemma_record_names_distinct()
    ensures
        forall|a: int, b: int| 0 <= a < b < 8 ==> record_names()[a] != record_names()[b],
{
    reveal_strlit("index");
    reveal_strlit("routing_key");
    reveal_strlit("exchange");
    reveal_strlit("redelivered");
    reveal_strlit("timestamp");
    reveal_strlit("content_type");
    reveal_strlit("headers");
    reveal_strlit("body");
    assert forall|a: int, b: int| 0 <= a < b < 8 implies record_names()[a] != record_names()[b] by {
        if a == 1 && b == 3 {
            assert(record_names()[a][1] != record_names()[b][1]);
        } else {
            assert(record_names()[a].len() != record_names()[b].len());
        }
    }
}

/// Member `j` of an object of headers holds header `j`.
proof fn lemma_header_member_at(hs: Seq<(String, JsonValue)>, h: Seq<(Seq<char>, Seq<char>)>, j: int)
    requires
        header_members(hs, h),
        0 <= j < hs.len(),
    ensures
        hs[j].0@ == h[j].0,
        is_text(hs[j].1, h[j].1),
{
    assert(hs[j].0@ == h[j].0);
}

/// A written message nests no deeper than its headers object.
proof fn lemma_record_shallow(v: JsonShape, m: MessageInfo)
    requires
        message_record(v, m),
    ensures
        nests_within(v, 100),
{
    let es = v->Record_0;
    assert(member_names(es@).len() == es@.len());
    assert forall|i: int| 0 <= i < es@.len() implies nests_within(#[trigger] es@[i].1.shape, 99) by {
        if i == 6 {
            let hs = es@[6].1.shape->Record_0;
            assert forall|j: int| 0 <= j < hs@.len() implies nests_within(#[trigger] hs@[j].1.shape, 98) by {
                lemma_header_member_at(hs@, pairs_view(m.headers@), j);
            }
        } else {
            assert(i == 0 || i == 1 || i == 2 || i == 3 || i == 4 || i == 5 || i == 7);
            assert(!(es@[i].1.shape is List) && !(es@[i].1.shape is Record));
        }
    }
}

/// The first member named `key` is the one at `i` when none before it has
/// that name.
proof fn lemma_field_of_at(es: Seq<(String, JsonValue)>, i: int, key: Seq<char>)
    requires
        0 <= i < es.len(),
        es[i].0@ == key,
        forall|a: int| 0 <= a < i ==> es[a].0@ != key,
    ensures
        field_of(es, key) == Some(es[i].1),
    decreases i,
{
    if i > 0 {
        lemma_field_of_at(es.drop_first(), i - 1, key);
    }
}

/// The last member named `key`: -1 when there is none, else the position
/// of one with that name after which none has it.
proof fn lemma_last_member_index(es: Seq<(String, JsonValue)>, key: Seq<char>)
    ensures
        -1 <= last_member_index(es, key) < es.len(),
        last_member_index(es, key) >= 0 <==> member_names(es).contains(key),
        last_member_index(es, key) >= 0 ==> es[last_member_index(es, key)].0@ == key,
        forall|b: int| last_member_index(es, key) < b < es.len() ==> es[b].0@ != key,
    decreases es.len(),
{
    if es.len() > 0 {
        lemma_last_member_index(es.drop_last(), key);
        let r = last_member_index(es, key);
        if es.last().0@ != key {
            assert forall|b: int| r < b < es.len() implies es[b].0@ != key by {
                if b < es.len() - 1 {
                    assert(es.drop_last()[b] == es[b]);
                }
            }
            if member_names(es).contains(key) {
                let j = choose|j: int| 0 <= j < member_names(es).len() && member_names(es)[j] == key;
                assert(j < es.len() - 1);
                assert(member_names(es.drop_last())[j] == key);
            }
            if member_names(es.drop_last()).contains(key) {
                let j = choose|j: int|
                    0 <= j < member_names(es.drop_last()).len() && member_names(es.drop_last())[j] == key;
                assert(member_names(es)[j] == key);
            }
        } else {
            assert(member_names(es)[es.len() - 1] == key);
        }
    }
}

/// The last member named `key` of an object of headers holds the value of
/// the last header with that name.
proof fn lemma_last_header_member(hs: Seq<(String, JsonValue)>, h: Seq<(Seq<char>, Seq<char>)>, key: Seq<char>)
    requires
        header_members(hs, h),
    ensures
        last_member_index(hs, key) >= 0 ==> last_header(h, key) == Some(
            h[last_member_index(hs, key)].1,
        ),
        last_member_index(hs, key) < 0 ==> last_header(h, key) is None,
    decreases hs.len(),
{
    if hs.len() > 0 {
        let n = hs.len() - 1;
        assert(hs[n].0@ == h[n].0);
        assert(h.last() == h[n]);
        assert(hs.last() == hs[n]);
        assert(header_members(hs.drop_last(), h.drop_last())) by {
            assert forall|i: int| 0 <= i < hs.drop_last().len() implies #[trigger] hs.drop_last()[i].0@
                == h.drop_last()[i].0 && is_text(hs.drop_last()[i].1, h.drop_last()[i].1) by {
                assert(hs[i].0@ == h[i].0);
            }
        }
        lemma_last_header_member(hs.drop_last(), h.drop_last(), key);
        lemma_last_member_index(hs.drop_last(), key);
        let r = last_member_index(hs.drop_last(), key);
        if r >= 0 {
            assert(h.drop_last()[r] == h[r]);
        }
    }
}

/// A member of a written object, read back: the document has it, with a
/// value that agrees with the one written.
proof fn lemma_member_reads(d: JsonValue, shape: JsonShape, j: int, n: nat)
    requires
        shape matches JsonShape::Record(es) && 0 <= j < es@.len() && forall|b: int|
            j < b < es@.len() ==> es@[b].0@ != es@[j].0@,
        reads_as(d, shape, n + 1),
    ensures
        member(d, shape->Record_0@[j].0@) matches Some(x) && reads_as(x, shape->Record_0@[j].1.shape, n),
{
    let es = shape->Record_0@;
    let ds = d.shape->Record_0@;
    let key = es[j].0@;
    assert(member_names(es)[j] == key);
    assert(member_names(es).to_set().contains(key));
    assert(member_names(ds).to_set().contains(key));
    let i = choose|i: int| 0 <= i < member_names(ds).len() && member_names(ds)[i] == key;
    assert(ds[i].0@ == key);
    assert forall|a: int| 0 <= a < i implies ds[a].0@ != key by {
        assert(text_less(member_names(ds)[a], member_names(ds)[i]));
        lemma_text_less_total(key, key);
    }
    lemma_field_of_at(ds, i, key);
    lemma_last_member_index(es, key);
    assert(last_member_index(es, key) == j);
    assert(reads_as(ds[i].1, es[last_member_index(es, key)].1.shape, n));
}

/// A written message, read back, gives its body, routing key, content type
/// and headers.
proof fn lemma_record_reads_back(d: JsonValue, v: JsonShape, m: MessageInfo)
    requires
        message_record(v, m),
        reads_as(d, v, 3),
    ensures
        message_fields(d).0 == m.body@,
        message_fields(d).1 == m.routing_key@,
        message_fields(d).2 == m.content_type@,
        header_object(pairs_view(m.headers@), message_fields(d).3),
{
    let es = v->Record_0@;
    lemma_record_names_distinct();
    assert(member_names(es).len() == es.len());
    assert(es.len() == 8);
    assert forall|j: int, b: int| 0 <= j < b < es.len() implies es[b].0@ != es[j].0@ by {
        assert(member_names(es)[j] == record_names()[j]);
        assert(member_names(es)[b] == record_names()[b]);
        assert(record_names()[j] != record_names()[b]);
    }
    lemma_member_reads(d, v, 7, 2);
    lemma_member_reads(d, v, 1, 2);
    lemma_member_reads(d, v, 5, 2);
    lemma_member_reads(d, v, 6, 2);
    assert(member_names(es)[7] == "body"@);
    assert(member_names(es)[1] == "routing_key"@);
    assert(member_names(es)[5] == "content_type"@);
    assert(member_names(es)[6] == "headers"@);
    let x = member(d, "headers"@)->Some_0;
    let hshape = es[6].1.shape;
    let hs = hshape->Record_0@;
    let h = pairs_view(m.headers@);
    let dh = x.shape->Record_0@;
    let entries = message_fields(d).3;
    assert(entries.map_values(|e: (Seq<char>, Seq<char>)| e.0) =~= member_names(dh));
    assert forall|i: int| 0 <= i < entries.len() implies last_header(h, #[trigger] entries[i].0) == Some(
        entries[i].1,
    ) by {
        let key = dh[i].0@;
        lemma_last_member_index(hs, key);
        lemma_last_header_member(hs, h, key);
        assert(member_names(dh)[i] == key);
        assert(member_names(dh).to_set().contains(key));
        assert(member_names(hs).to_set().contains(key));
        let r = last_member_index(hs, key);
        assert(reads_as(dh[i].1, hs[r].1.shape, 1));
        assert(is_text(hs[r].1, h[r].1));
    }
    assert forall|name: Seq<char>| #[trigger] last_header(h, name) is Some implies exists|i: int|
        0 <= i < entries.len() && entries[i].0 == name by {
        lemma_last_member_index(hs, name);
        lemma_last_header_member(hs, h, name);
        assert(member_names(hs).to_set().contains(name));
        assert(member_names(dh).to_set().contains(name));
        let i = choose|i: int| 0 <= i < member_names(dh).len() && member_names(dh)[i] == name;
        assert(entries[i].0 == name);
    }
}

/// A message as one line of JSON, for exports, dumps and deletion backups:
/// the compact JSON of the object it is written as. Read back, it gives the
/// message's body, routing key, content type and headers (each header name
/// once, with its last value). The line is not blank.
pub fn message_to_json(m: &MessageInfo) -> (r: String)
    ensures
        is_message_line(r@, *m),
        reads_back(r@, *m),
        trim(r@).len() > 0,
{
    let record = message_record_of(m);
    let ghost v = record;
    proof {
        lemma_record_shallow(v, *m);
    }
    let written = json_written(record);
    proof {
        let d = json_document(written.compact@)->Some_0;
        assert(reads_as(d, v, 3));
        lemma_record_reads_back(d, v, *m);
        assert(message_record(v, *m) && written.compact@ == json_compact(v));
    }
    written.compact
}

/// A message backed up by deletion as its JSON line is published again
/// with its own body, routing key and content type, and its headers as a
/// JSON object holds them (each name once, with its last value).
pub proof fn lemma_backup_line_republishes(m: MessageInfo, line: Seq<char>)
    requires
        reads_back(line, m),
    ensures
        json_document(line) matches Some(d) && republished_fields(d) == ActionModel::Publish(
            m.body@,
            m.routing_key@,
            m.content_type@,
            message_fields(d).3,
        ) && header_object(pairs_view(m.headers@), message_fields(d).3),
{
}

/// The rows of an export of the lines `lines`: row `i` is line `i`,
/// indented, with a comma unless it is the last.
pub open spec fn export_rows(lines: Seq<Seq<char>>, k: nat) -> Seq<char>
    decreases k,
{
    if k == 0 || k > lines.len() {
        seq![]
    } else {
        export_rows(lines, (k - 1) as nat) + "  "@ + lines[k - 1] + (if k < lines.len() {
            ","@
        } else {
            ""@
        }) + "\n"@
    }
}

/// `lines` are the lines messages `ms` are written as, one for one.
pub open spec fn message_lines(lines: Seq<Seq<char>>, ms: Seq<MessageInfo>) -> bool {
    &&& lines.len() == ms.len()
    &&& forall|i: int| 0 <= i < lines.len() ==> is_message_line(#[trigger] lines[i], ms[i])
}

/// The text of an export of `ms`: an error when there is nothing to
/// export, else `[`, each message's line indented (with a comma but for the
/// last), and `]`, each on a line of its own.
pub fn export_text(ms: &Vec<MessageInfo>) -> (r: Result<String, String>)
    ensures
        ms@.len() == 0 ==> (r matches Err(x) && x@ == "No messages to export"@),
        ms@.len() > 0 ==> (r matches Ok(x) && exists|lines: Seq<Seq<char>>|
            message_lines(lines, ms@) && x@ == "[\n"@ + export_rows(lines, lines.len()) + "]\n"@),
{
    if ms.len() == 0 {
        return Err(owned("No messages to export"));
    }
    let mut t = owned("[\n");
    let mut i: usize = 0;
    let ghost mut lines: Seq<Seq<char>> = seq![];
    while i < ms.len()
        invariant
            i <= ms@.len(),
            lines.len() == i,
            forall|j: int| 0 <= j < i ==> is_message_line(#[trigger] lines[j], ms@[j]),
            t@ == "[\n"@ + export_rows(padded_lines(lines, ms@.len()), i as nat),
        decreases ms.len() - i,
    {
        let line = message_to_json(&ms[i]);
        let ghost before = t@;
        push_str(&mut t, "  ");
        push_str(&mut t, line.as_str());
        if i + 1 < ms.len() {
            push_str(&mut t, ",");
        } else {
            push_str(&mut t, "");
        }
        push_str(&mut t, "\n");
        proof {
            let old_pad = padded_lines(lines, ms@.len());
            lines = lines.push(line@);
            let new_pad = padded_lines(lines, ms@.len());
            lemma_pad_rows(old_pad, new_pad, i as nat);
            assert(new_pad[i as int] == line@);
        }
        assert(t@ =~= "[\n"@ + export_rows(padded_lines(lines, ms@.len()), (i + 1) as nat));
        i = i + 1;
    }
    push_str(&mut t, "]\n");
    proof {
        assert(padded_lines(lines, ms@.len()) =~= lines);
        assert(message_lines(lines, ms@));
    }
    Ok(t)
}

/// `lines` padded with empty lines to `n` of them.
spec fn padded_lines(lines: Seq<Seq<char>>, n: nat) -> Seq<Seq<char>> {
    Seq::new(n, |i: int| if i < lines.len() { lines[i] } else { Seq::<char>::empty() })
}

/// Rows before `k` depend only on the lines before `k`.
proof fn lemma_pad_rows(a: Seq<Seq<char>>, b: Seq<Seq<char>>, k: nat)
    requires
        a.len() == b.len(),
        k <= a.len(),
        forall|i: int| 0 <= i < k ==> a[i] == b[i],
    ensures
        export_rows(a, k) == export_rows(b, k),
    decreases k,
{
    if k > 0 {
        lemma_pad_rows(a, b, (k - 1) as nat);
    }
}

/// The file an export is written to: named after the queue and the time
/// it was taken at (`my-queue-20260408-153012.json`).
pub fn export_file_name(queue: &str, timestamp: &str) -> (r: String)
    ensures
        r@ == queue@ + "-"@ + timestamp@ + ".json"@,
{
    let mut t = owned(queue);
    push_str(&mut t, "-");
    push_str(&mut t, timestamp);
    push_str(&mut t, ".json");
    t
}

} // verus!
