//! Advanced filter expressions over messages: parsing and evaluation.
//!
//! Supported forms: `field = "value"`, `field != "value"`,
//! `field contains "value"` (the keyword in any case), and plain text,
//! which matches as a substring of the body or the routing key.
//! Fields: `body`, `routing_key`, `exchange`, `content_type`, `redelivered`,
//! `header.<name>` (or `headers.<name>`), and `body.<json.path>`.

use vstd::prelude::*;
use crate::json::{json_document, lookup_json_path, path_text};
use crate::model::MessageInfo;
use crate::text::{
    ascii_lower, ascii_lower_char, ascii_text, lemma_find, chars_of, contains, contains_text, find, find_chars, has_prefix, matches_at,
    lowercase, owned, same_text, starts_with, string_of_range, to_lower, trim, trim_quotes, trimmed,
    trimmed_quotes,
};

verus! {

/// Filter expression for advanced message filtering.
#[derive(Debug)]
pub enum FilterExpr {
    Substring(String),
    FieldEquals { field: String, value: String },
    FieldContains { field: String, value: String },
    FieldNotEquals { field: String, value: String },
}

/// A filter expression, with its strings as character sequences.
pub enum FilterView {
    Substring(Seq<char>),
    FieldEquals(Seq<char>, Seq<char>),
    FieldContains(Seq<char>, Seq<char>),
    FieldNotEquals(Seq<char>, Seq<char>),
}

impl View for FilterExpr {
    type V = FilterView;

    open spec fn view(&self) -> FilterView {
        match self {
            FilterExpr::Substring(s) => FilterView::Substring(s@),
            FilterExpr::FieldEquals { field, value } => FilterView::FieldEquals(field@, value@),
            FilterExpr::FieldContains { field, value } => FilterView::FieldContains(field@, value@),
            FilterExpr::FieldNotEquals { field, value } => FilterView::FieldNotEquals(
                field@,
                value@,
            ),
        }
    }
}

/// The keyword of the `contains` form, with its surrounding spaces.
pub open spec fn contains_keyword() -> Seq<char> {
    seq![' ', 'c', 'o', 'n', 't', 'a', 'i', 'n', 's', ' ']
}

/// `s` with ASCII letters in lower case.
pub open spec fn ascii_folded(s: Seq<char>) -> Seq<char> {
    s.map_values(|c: char| ascii_lower(c))
}

/// The left side of an operator found at `i` with length `n`, and its right
/// side with surrounding double quotes removed.
pub open spec fn split_operands(t: Seq<char>, i: int, n: int) -> (Seq<char>, Seq<char>) {
    (trim(t.take(i)), trim_quotes(trim(t.skip(i + n))))
}

/// What `parse_filter_expr` reads from `input`: the first `contains`
/// keyword (in any ASCII case), else the first `!=`, else the first `=`,
/// else the whole trimmed input in lower case as a substring filter.
pub open spec fn parse_filter_spec(input: Seq<char>) -> FilterView {
    let t = trim(input);
    match find(ascii_folded(t), contains_keyword()) {
        Some(i) => FilterView::FieldContains(
            split_operands(t, i, 10).0,
            split_operands(t, i, 10).1,
        ),
        None => match find(t, seq!['!', '=']) {
            Some(i) => FilterView::FieldNotEquals(
                split_operands(t, i, 2).0,
                split_operands(t, i, 2).1,
            ),
            None => match find(t, seq!['=']) {
                Some(i) => FilterView::FieldEquals(
                    split_operands(t, i, 1).0,
                    split_operands(t, i, 1).1,
                ),
                None => FilterView::Substring(lowercase(t)),
            },
        },
    }
}

/// The text after the first `.` of `field`.
pub open spec fn after_first_dot(field: Seq<char>) -> Seq<char> {
    match find(field, seq!['.']) {
        Some(i) => field.skip(i + 1),
        None => Seq::empty(),
    }
}

/// The value of the first header whose name equals `key` when both are in
/// lower case; empty when there is none.
pub open spec fn header_value(headers: Seq<(String, String)>, key: Seq<char>) -> Seq<char>
    decreases headers.len(),
{
    if headers.len() == 0 {
        Seq::empty()
    } else if lowercase(headers[0].0@) == lowercase(key) {
        headers[0].1@
    } else {
        header_value(headers.drop_first(), key)
    }
}

/// The value that the field path `field` names in `msg`; empty for an
/// unknown field.
pub open spec fn resolve_spec(field: Seq<char>, msg: MessageInfo) -> Seq<char> {
    if field == "body"@ {
        msg.body@
    } else if field == "routing_key"@ {
        msg.routing_key@
    } else if field == "exchange"@ {
        msg.exchange@
    } else if field == "content_type"@ {
        msg.content_type@
    } else if field == "redelivered"@ {
        if msg.redelivered {
            "true"@
        } else {
            "false"@
        }
    } else if starts_with(field, "header."@) || starts_with(field, "headers."@) {
        header_value(msg.headers@, after_first_dot(field))
    } else if starts_with(field, "body."@) {
        path_text(json_document(msg.body@), after_first_dot(field))
    } else {
        Seq::empty()
    }
}

/// Whether `msg` passes the filter `e`. All comparisons ignore case.
pub open spec fn eval_spec(e: FilterView, msg: MessageInfo) -> bool {
    match e {
        FilterView::Substring(s) => contains(lowercase(msg.body@), s) || contains(
            lowercase(msg.routing_key@),
            s,
        ),
        FilterView::FieldEquals(f, v) => lowercase(resolve_spec(f, msg)) == lowercase(v),
        FilterView::FieldContains(f, v) => contains(lowercase(resolve_spec(f, msg)), lowercase(v)),
        FilterView::FieldNotEquals(f, v) => lowercase(resolve_spec(f, msg)) != lowercase(v),
    }
}

/// How the filter forms relate: `!=` passes exactly when `=` fails, `=`
/// passing implies `contains` passing, and a substring filter passes when
/// its (lower-case) text occurs in the body or the routing key taken in
/// lower case.
pub proof fn lemma_filter_forms(field: Seq<char>, value: Seq<char>, text: Seq<char>, msg: MessageInfo)
    ensures
        eval_spec(FilterView::FieldNotEquals(field, value), msg) == !eval_spec(
            FilterView::FieldEquals(field, value),
            msg,
        ),
        eval_spec(FilterView::FieldEquals(field, value), msg) ==> eval_spec(
            FilterView::FieldContains(field, value),
            msg,
        ),
        eval_spec(FilterView::Substring(text), msg) == (contains(lowercase(msg.body@), text) || contains(
            lowercase(msg.routing_key@),
            text,
        )),
{
    let a = lowercase(resolve_spec(field, msg));
    if eval_spec(FilterView::FieldEquals(field, value), msg) {
        assert(a.subrange(0, lowercase(value).len() as int) =~= lowercase(value));
        assert(matches_at(a, lowercase(value), 0));
    }
}

/// Field filters ignore letter case: changing the case of ASCII letters
/// in an ASCII value changes no `=`, `!=` or `contains` result. (Beyond
/// ASCII, lower-casing depends on context, as a final sigma does.)
pub proof fn lemma_field_filters_ignore_ascii_case(
    field: Seq<char>,
    v: Seq<char>,
    w: Seq<char>,
    msg: MessageInfo,
)
    requires
        ascii_text(v),
        ascii_text(w),
        ascii_folded(v) == ascii_folded(w),
    ensures
        eval_spec(FilterView::FieldEquals(field, v), msg) == eval_spec(FilterView::FieldEquals(field, w), msg),
        eval_spec(FilterView::FieldContains(field, v), msg) == eval_spec(
            FilterView::FieldContains(field, w),
            msg,
        ),
        eval_spec(FilterView::FieldNotEquals(field, v), msg) == eval_spec(
            FilterView::FieldNotEquals(field, w),
            msg,
        ),
{
    assert(lowercase(v) =~= ascii_folded(v));
    assert(lowercase(w) =~= ascii_folded(w));
}

/// The operands around an operator of length `n` found at `i` in `t`.
fn operands(t: &Vec<char>, i: usize, n: usize) -> (r: (String, String))
    requires
        i + n <= t@.len(),
    ensures
        r.0@ == split_operands(t@, i as int, n as int).0,
        r.1@ == split_operands(t@, i as int, n as int).1,
{
    assert(t@.len() == t.len());
    let left = string_of_range(t, 0, i);
    let right = string_of_range(t, i + n, t.len());
    assert(left@ =~= t@.take(i as int));
    assert(right@ =~= t@.skip(i + n));
    let f = trimmed(left.as_str());
    let v0 = trimmed(right.as_str());
    let v = trimmed_quotes(v0.as_str());
    (f, v)
}

/// Parses a filter expression.
pub fn parse_filter_expr(input: &str) -> (r: FilterExpr)
    ensures
        r@ == parse_filter_spec(input@),
{
    let ts = trimmed(input);
    let t = chars_of(ts.as_str());
    let mut folded: Vec<char> = Vec::new();
    let mut k: usize = 0;
    while k < t.len()
        invariant
            k <= t@.len(),
            folded@ == ascii_folded(t@).take(k as int),
        decreases t.len() - k,
    {
        folded.push(ascii_lower_char(t[k]));
        k = k + 1;
        assert(folded@ =~= ascii_folded(t@).take(k as int));
    }
    assert(folded@ =~= ascii_folded(t@));
    let keyword = vec![' ', 'c', 'o', 'n', 't', 'a', 'i', 'n', 's', ' '];
    assert(keyword@ =~= contains_keyword());
    match find_chars(&folded, &keyword) {
        Some(i) => {
            let (f, v) = operands(&t, i, 10);
            return FilterExpr::FieldContains { field: f, value: v };
        },
        None => {},
    }
    let not_equals = vec!['!', '='];
    assert(not_equals@ =~= seq!['!', '=']);
    match find_chars(&t, &not_equals) {
        Some(i) => {
            let (f, v) = operands(&t, i, 2);
            return FilterExpr::FieldNotEquals { field: f, value: v };
        },
        None => {},
    }
    let equals = vec!['='];
    assert(equals@ =~= seq!['=']);
    match find_chars(&t, &equals) {
        Some(i) => {
            let (f, v) = operands(&t, i, 1);
            FilterExpr::FieldEquals { field: f, value: v }
        },
        None => FilterExpr::Substring(to_lower(ts.as_str())),
    }
}

/// The text after the first `.` of `field`.
fn text_after_dot(field: &str) -> (r: String)
    ensures
        r@ == after_first_dot(field@),
{
    let v = chars_of(field);
    let dot = vec!['.'];
    assert(dot@ =~= seq!['.']);
    assert(dot@.len() == 1);
    let vlen = v.len();
    let found = find_chars(&v, &dot);
    proof {
        lemma_find(v@, dot@);
    }
    match found {
        Some(i) => {
            assert(i + 1 <= v@.len());
            let r = string_of_range(&v, i + 1, vlen);
            assert(r@ =~= v@.skip(i + 1));
            r
        },
        None => String::new(),
    }
}

/// The value of the first header whose name matches `key` ignoring case.
pub fn find_header(headers: &Vec<(String, String)>, key: &str) -> (r: String)
    ensures
        r@ == header_value(headers@, key@),
{
    let want = to_lower(key);
    let mut i: usize = 0;
    assert(headers@.skip(0) =~= headers@);
    while i < headers.len()
        invariant
            i <= headers@.len(),
            want@ == lowercase(key@),
            header_value(headers@, key@) == header_value(headers@.skip(i as int), key@),
        decreases headers.len() - i,
    {
        assert(headers@.skip(i as int)[0] == headers@[i as int]);
        assert(headers@.skip(i as int).drop_first() =~= headers@.skip(i + 1));
        let name = to_lower(headers[i].0.as_str());
        if same_text(name.as_str(), want.as_str()) {
            return headers[i].1.clone();
        }
        i = i + 1;
    }
    String::new()
}

/// Resolves a field path to a value of `msg`.
pub fn resolve_field(field: &str, msg: &MessageInfo) -> (r: String)
    ensures
        r@ == resolve_spec(field@, *msg),
{
    if same_text(field, "body") {
        msg.body.clone()
    } else if same_text(field, "routing_key") {
        msg.routing_key.clone()
    } else if same_text(field, "exchange") {
        msg.exchange.clone()
    } else if same_text(field, "content_type") {
        msg.content_type.clone()
    } else if same_text(field, "redelivered") {
        if msg.redelivered {
            owned("true")
        } else {
            owned("false")
        }
    } else if has_prefix(field, "header.") || has_prefix(field, "headers.") {
        let key = text_after_dot(field);
        find_header(&msg.headers, key.as_str())
    } else if has_prefix(field, "body.") {
        let path = text_after_dot(field);
        lookup_json_path(msg.body.as_str(), path.as_str())
    } else {
        String::new()
    }
}

/// Whether `msg` passes the filter `expr`.
pub fn eval_filter_expr(expr: &FilterExpr, msg: &MessageInfo) -> (r: bool)
    ensures
        r == eval_spec(expr@, *msg),
{
    match expr {
        FilterExpr::Substring(s) => {
            let body = to_lower(msg.body.as_str());
            let key = to_lower(msg.routing_key.as_str());
            contains_text(body.as_str(), s.as_str()) || contains_text(key.as_str(), s.as_str())
        },
        FilterExpr::FieldEquals { field, value } => {
            let resolved = to_lower(resolve_field(field.as_str(), msg).as_str());
            let want = to_lower(value.as_str());
            same_text(resolved.as_str(), want.as_str())
        },
        FilterExpr::FieldContains { field, value } => {
            let resolved = to_lower(resolve_field(field.as_str(), msg).as_str());
            let want = to_lower(value.as_str());
            contains_text(resolved.as_str(), want.as_str())
        },
        FilterExpr::FieldNotEquals { field, value } => {
            let resolved = to_lower(resolve_field(field.as_str(), msg).as_str());
            let want = to_lower(value.as_str());
            !same_text(resolved.as_str(), want.as_str())
        },
    }
}

} // verus!
