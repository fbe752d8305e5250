//! A model of parsed JSON documents, with the lookups that filters and
//! dead-letter handling need: object members, dotted paths, first elements.

use vstd::prelude::*;
use crate::order::strictly_sorted;
use crate::text::{chars_of, same_text, string_of_range, trim};

verus! {

#[verifier::external_type_specification]
#[verifier::external_body]
pub struct ExJsonValue(serde_json::Value);

/// The shape of a JSON value, as far as the lookups here read it.
#[derive(Debug)]
pub enum JsonShape {
    /// A string, with its contents unescaped.
    Text(String),
    /// An array, with its elements in order.
    List(Vec<JsonValue>),
    /// An object, with its members in the order the parser keeps them.
    Record(Vec<(String, JsonValue)>),
    /// `true` or `false`.
    Flag(bool),
    /// A number, with its value when it is an integer within `u64`
    /// (`as_u64`) and when it is one within `i64` (`as_i64`).
    Number { unsigned: Option<u64>, signed: Option<i64> },
    /// `null`.
    Null,
}

/// A JSON value, parsed or about to be written: its shape and its compact
/// and indented serializations.
#[derive(Debug)]
pub struct JsonValue {
    pub shape: JsonShape,
    /// The value written back as compact JSON.
    pub compact: String,
    /// The value written back as indented JSON (`to_string_pretty`), when
    /// that succeeds.
    pub pretty: Option<String>,
}

/// The document that `serde_json` parses from `text`, or `None` when `text`
/// is not valid JSON.
pub uninterp spec fn json_document(text: Seq<char>) -> Option<JsonValue>;

/// `serde_json::from_str::<serde_json::Value>`: parses `text` as JSON.
/// Claimed: the result is the fixed document `json_document(text)` of the
/// text. Which texts parse, and to what, is left to `serde_json`.
#[verifier::external_body]
pub(crate) fn parse_json(text: &str) -> (r: Option<JsonValue>)
    ensures
        r == json_document(text@),
{
    match serde_json::from_str::<serde_json::Value>(text) {
        Ok(v) => Some(json_value_from(&v)),
        Err(_) => None,
    }
}

/// Converts a `serde_json::Value` into the model, one node for one node:
/// strings keep their contents, arrays and objects their children in the
/// parser's order, booleans their value, numbers their `as_u64` and
/// `as_i64` values, and every node its `to_string()` and
/// `to_string_pretty()` texts.
#[verifier::external_body]
pub(crate) fn json_value_from(v: &serde_json::Value) -> JsonValue {
    let shape = match v {
        serde_json::Value::String(s) => JsonShape::Text(s.clone()),
        serde_json::Value::Array(a) => JsonShape::List(a.iter().map(json_value_from).collect()),
        serde_json::Value::Object(m) => JsonShape::Record(
            m.iter().map(|(k, x)| (k.clone(), json_value_from(x))).collect(),
        ),
        serde_json::Value::Bool(b) => JsonShape::Flag(*b),
        serde_json::Value::Number(n) => JsonShape::Number { unsigned: n.as_u64(), signed: n.as_i64() },
        serde_json::Value::Null => JsonShape::Null,
    };
    JsonValue { shape, compact: v.to_string(), pretty: serde_json::to_string_pretty(v).ok() }
}

/// The compact JSON text (`serde_json::to_string`) of `shape` written as a
/// `serde_json::Value`.
pub uninterp spec fn json_compact(shape: JsonShape) -> Seq<char>;

/// The names of the members `es`, in order.
pub open spec fn member_names(es: Seq<(String, JsonValue)>) -> Seq<Seq<char>> {
    es.map_values(|e: (String, JsonValue)| e.0@)
}

/// The position of the last member of `es` named `key`, or -1.
pub open spec fn last_member_index(es: Seq<(String, JsonValue)>, key: Seq<char>) -> int
    decreases es.len(),
{
    if es.len() == 0 {
        -1
    } else if es.last().0@ == key {
        es.len() - 1
    } else {
        last_member_index(es.drop_last(), key)
    }
}

/// `shape` nests arrays and objects no more than `n` deep.
pub open spec fn nests_within(shape: JsonShape, n: nat) -> bool
    decreases n,
{
    match shape {
        JsonShape::List(vs) => n > 0 && forall|i: int|
            0 <= i < vs@.len() ==> nests_within(#[trigger] vs@[i].shape, (n - 1) as nat),
        JsonShape::Record(vs) => n > 0 && forall|i: int|
            0 <= i < vs@.len() ==> nests_within(#[trigger] vs@[i].1.shape, (n - 1) as nat),
        _ => true,
    }
}

/// `d`, read from the text written for `shape`, agrees with it for `n`
/// levels: the same strings, booleans and nulls; a number with the same
/// `as_u64` value (or `as_i64` value when the shape has no unsigned one);
/// arrays element by element; and an object holding each name of the
/// shape once, in ascending order, with the member written last.
pub open spec fn reads_as(d: JsonValue, shape: JsonShape, n: nat) -> bool
    decreases n,
{
    if n == 0 {
        true
    } else {
        match shape {
            JsonShape::Text(s) => d.shape matches JsonShape::Text(t) && t@ == s@,
            JsonShape::Flag(b) => d.shape matches JsonShape::Flag(c) && c == b,
            JsonShape::Null => d.shape is Null,
            JsonShape::Number { unsigned, signed } => match unsigned {
                Some(x) => as_unsigned(d) == Some(x),
                None => match signed {
                    Some(y) => as_signed(d) == Some(y),
                    None => d.shape is Null,
                },
            },
            JsonShape::List(vs) => d.shape matches JsonShape::List(ds) && ds@.len() == vs@.len()
                && forall|i: int|
                0 <= i < ds@.len() ==> reads_as(#[trigger] ds@[i], vs@[i].shape, (n - 1) as nat),
            JsonShape::Record(vs) => d.shape matches JsonShape::Record(ds) && strictly_sorted(
                member_names(ds@),
            ) && member_names(ds@).to_set() == member_names(vs@).to_set() && forall|i: int|
                0 <= i < ds@.len() ==> reads_as(
                    #[trigger] ds@[i].1,
                    vs@[last_member_index(vs@, ds@[i].0@)].1.shape,
                    (n - 1) as nat,
                ),
        }
    }
}

/// `text` parses as a document that agrees with `shape` at every depth.
pub open spec fn written_as(text: Seq<char>, shape: JsonShape) -> bool {
    json_document(text) matches Some(d) && forall|n: nat| reads_as(d, shape, n)
}

/// Writes `shape` as JSON: `serde_json::to_string` and `to_string_pretty`
/// of the `serde_json::Value` it converts to, whose objects are
/// `serde_json::Map`s (names in ascending order, the member written last
/// kept). Claimed: the shape is kept as it is; the compact text is named
/// `json_compact` and is not blank (every JSON value has a character that
/// is no white space); and, as serde_json's source shows, `from_str` reads that
/// text back (its nesting limit is 128) as a document that agrees with the
/// shape. Nothing is claimed of the indented text.
#[verifier::external_body]
pub(crate) fn json_written(shape: JsonShape) -> (r: JsonValue)
    ensures
        r.shape == shape,
        r.compact@ == json_compact(shape),
        trim(r.compact@).len() > 0,
        nests_within(shape, 100) ==> written_as(r.compact@, shape),
{
    let v = json_node_of(&shape);
    JsonValue { compact: v.to_string(), pretty: serde_json::to_string_pretty(&v).ok(), shape }
}

/// Converts a shape into a `serde_json::Value`, one node for one node:
/// strings, booleans and nulls as they are, a number from its unsigned
/// value (else its signed one, else null), arrays and objects with their
/// children converted.
#[verifier::external_body]
fn json_node_of(shape: &JsonShape) -> serde_json::Value {
    match shape {
        JsonShape::Text(s) => serde_json::Value::String(s.clone()),
        JsonShape::List(vs) => serde_json::Value::Array(vs.iter().map(|x| json_node_of(&x.shape)).collect()),
        JsonShape::Record(es) => serde_json::Value::Object(
            es.iter().map(|(k, x)| (k.clone(), json_node_of(&x.shape))).collect(),
        ),
        JsonShape::Flag(b) => serde_json::Value::Bool(*b),
        JsonShape::Number { unsigned: Some(u), .. } => serde_json::Value::from(*u),
        JsonShape::Number { signed: Some(i), .. } => serde_json::Value::from(*i),
        JsonShape::Number { .. } | JsonShape::Null => serde_json::Value::Null,
    }
}

/// The first member of `entries` named `key`.
pub open spec fn field_of(entries: Seq<(String, JsonValue)>, key: Seq<char>) -> Option<JsonValue>
    decreases entries.len(),
{
    if entries.len() == 0 {
        None
    } else if entries[0].0@ == key {
        Some(entries[0].1)
    } else {
        field_of(entries.drop_first(), key)
    }
}

/// The member `key` of `v` when `v` is an object (`Value::get` with a name).
pub open spec fn member(v: JsonValue, key: Seq<char>) -> Option<JsonValue> {
    match v.shape {
        JsonShape::Record(es) => field_of(es@, key),
        _ => None,
    }
}

/// The value reached from `v` by following the member names `parts`.
pub open spec fn follow_path(v: JsonValue, parts: Seq<Seq<char>>) -> Option<JsonValue>
    decreases parts.len(),
{
    if parts.len() == 0 {
        Some(v)
    } else {
        match member(v, parts[0]) {
            Some(c) => follow_path(c, parts.drop_first()),
            None => None,
        }
    }
}

/// The text a value reads as: a string's contents, otherwise its JSON.
pub open spec fn value_text(v: JsonValue) -> Seq<char> {
    match v.shape {
        JsonShape::Text(s) => s@,
        _ => v.compact@,
    }
}

/// The contents of `v` when it is a string (`Value::as_str`).
pub open spec fn as_text(v: JsonValue) -> Option<Seq<char>> {
    match v.shape {
        JsonShape::Text(s) => Some(s@),
        _ => None,
    }
}

/// The value of `v` when it is a boolean (`Value::as_bool`).
pub open spec fn as_flag(v: JsonValue) -> Option<bool> {
    match v.shape {
        JsonShape::Flag(b) => Some(b),
        _ => None,
    }
}

/// The value of `v` when it is an integer within `u64` (`Value::as_u64`).
pub open spec fn as_unsigned(v: JsonValue) -> Option<u64> {
    match v.shape {
        JsonShape::Number { unsigned, .. } => unsigned,
        _ => None,
    }
}

/// The value of `v` when it is an integer within `i64` (`Value::as_i64`).
pub open spec fn as_signed(v: JsonValue) -> Option<i64> {
    match v.shape {
        JsonShape::Number { signed, .. } => signed,
        _ => None,
    }
}

/// The pieces of `s` between the separators `sep` (`str::split`): one more
/// piece than there are separators, empty pieces included.
pub open spec fn split_on(s: Seq<char>, sep: char) -> Seq<Seq<char>>
    decreases s.len(),
{
    if s.len() == 0 {
        seq![Seq::<char>::empty()]
    } else {
        let p = split_on(s.drop_last(), sep);
        if s.last() == sep {
            p.push(Seq::<char>::empty())
        } else {
            p.update(p.len() - 1, p.last().push(s.last()))
        }
    }
}

proof fn lemma_split_len(s: Seq<char>, sep: char)
    ensures
        split_on(s, sep).len() >= 1,
    decreases s.len(),
{
    if s.len() > 0 {
        lemma_split_len(s.drop_last(), sep);
    }
}

/// The pieces of `s` between separators `sep`.
pub fn split_text(s: &str, sep: char) -> (r: Vec<String>)
    ensures
        r@.map_values(|x: String| x@) == split_on(s@, sep),
{
    let v = chars_of(s);
    let mut parts: Vec<String> = Vec::new();
    let mut start: usize = 0;
    let mut i: usize = 0;
    assert(v@.take(0) =~= Seq::<char>::empty());
    assert(v@.subrange(0, 0) =~= Seq::<char>::empty());
    assert(parts@.map_values(|x: String| x@).push(v@.subrange(0, 0)) =~= split_on(v@.take(0), sep));
    while i < v.len()
        invariant
            v@ == s@,
            start <= i <= v@.len(),
            parts@.map_values(|x: String| x@).push(v@.subrange(start as int, i as int))
                == split_on(v@.take(i as int), sep),
        decreases v.len() - i,
    {
        proof {
            lemma_split_len(v@.take(i as int), sep);
            assert(v@.take(i + 1).drop_last() =~= v@.take(i as int));
            assert(v@.take(i + 1).last() == v@[i as int]);
        }
        if v[i] == sep {
            let piece = string_of_range(&v, start, i);
            proof {
                assert((parts@.push(piece)).map_values(|x: String| x@) =~= parts@.map_values(
                    |x: String| x@,
                ).push(piece@));
                assert(v@.subrange(i + 1, i + 1) =~= Seq::<char>::empty());
            }
            parts.push(piece);
            start = i + 1;
            proof {
                assert(parts@.map_values(|x: String| x@).push(v@.subrange(start as int, i + 1))
                    =~= split_on(v@.take(i + 1), sep));
            }
        } else {
            proof {
                assert(v@.subrange(start as int, i + 1) =~= v@.subrange(start as int, i as int).push(v@[i as int]));
                assert(parts@.map_values(|x: String| x@).push(v@.subrange(start as int, i + 1))
                    =~= split_on(v@.take(i + 1), sep));
            }
        }
        i = i + 1;
    }
    let last = string_of_range(&v, start, v.len());
    proof {
        assert(v@.take(v@.len() as int) =~= v@);
        assert((parts@.push(last)).map_values(|x: String| x@) =~= parts@.map_values(
            |x: String| x@,
        ).push(last@));
    }
    parts.push(last);
    parts
}

/// The member `key` of `v`, when `v` is an object that has one.
pub fn json_member<'a>(v: &'a JsonValue, key: &str) -> (r: Option<&'a JsonValue>)
    ensures
        r is None <==> member(*v, key@) is None,
        r matches Some(c) ==> member(*v, key@) == Some(*c),
{
    match &v.shape {
        JsonShape::Record(es) => {
            let mut i: usize = 0;
            assert(es@.skip(0) =~= es@);
            while i < es.len()
                invariant
                    i <= es@.len(),
                    member(*v, key@) == field_of(es@, key@),
                    field_of(es@, key@) == field_of(es@.skip(i as int), key@),
                decreases es.len() - i,
            {
                assert(es@.skip(i as int).drop_first() =~= es@.skip(i + 1));
                assert(es@.skip(i as int)[0] == es@[i as int]);
                if same_text(es[i].0.as_str(), key) {
                    assert(field_of(es@.skip(i as int), key@) == Some(es@[i as int].1));
                    return Some(&es[i].1);
                }
                i = i + 1;
            }
            None
        },
        _ => None,
    }
}

/// The text of the value at the dotted `path` in `doc` (empty when the
/// document is missing or the path leads nowhere).
pub open spec fn path_text(doc: Option<JsonValue>, path: Seq<char>) -> Seq<char> {
    match doc {
        Some(v) => match follow_path(v, split_on(path, '.')) {
            Some(x) => value_text(x),
            None => Seq::empty(),
        },
        None => Seq::empty(),
    }
}

/// The text a value reads as.
pub fn json_value_text(v: &JsonValue) -> (r: String)
    ensures
        r@ == value_text(*v),
{
    match &v.shape {
        JsonShape::Text(s) => s.clone(),
        _ => v.compact.clone(),
    }
}

/// The text of the value at the dotted `path` in `doc`.
pub fn json_path_text(doc: &Option<JsonValue>, path: &str) -> (r: String)
    ensures
        r@ == path_text(*doc, path@),
{
    match doc {
        None => String::new(),
        Some(root) => {
            let parts = split_text(path, '.');
            let ghost ps = parts@.map_values(|x: String| x@);
            let mut cur: &JsonValue = root;
            let mut i: usize = 0;
            assert(ps.skip(0) =~= ps);
            while i < parts.len()
                invariant
                    i <= parts@.len(),
                    *doc == Some(*root),
                    ps == parts@.map_values(|x: String| x@),
                    ps == split_on(path@, '.'),
                    follow_path(*root, ps) == follow_path(*cur, ps.skip(i as int)),
                decreases parts.len() - i,
            {
                assert(ps.skip(i as int)[0] == parts@[i as int]@);
                assert(ps.skip(i as int).drop_first() =~= ps.skip(i + 1));
                match json_member(cur, parts[i].as_str()) {
                    Some(next) => {
                        cur = next;
                    },
                    None => {
                        assert(follow_path(*cur, ps.skip(i as int)) is None);
                        return String::new();
                    },
                }
                i = i + 1;
            }
            assert(ps.skip(i as int) =~= Seq::<Seq<char>>::empty());
            json_value_text(cur)
        },
    }
}

/// The text at the dotted `path` of the JSON document `text`.
pub fn lookup_json_path(text: &str, path: &str) -> (r: String)
    ensures
        r@ == path_text(json_document(text@), path@),
{
    let doc = parse_json(text);
    json_path_text(&doc, path)
}

} // verus!
