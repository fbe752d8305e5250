//! Diffing two messages: the header fields that differ, and a line diff
//! of the bodies (as indented JSON when they are JSON).

use vstd::prelude::*;
use crate::model::MessageInfo;
use crate::payload::{format_message_body, json_or_text};
use crate::text::{chars_of, is_white, is_whitespace, owned, same_text, string_of_range, strip_back};

verus! {

/// How a line of a diff relates the two texts.
#[derive(Debug, Clone, Copy, PartialEq, Eq, Structural)]
pub enum ChangeKind {
    /// In both texts.
    Equal,
    /// Only in the first text.
    Delete,
    /// Only in the second text.
    Insert,
}

/// The line diff that `similar` computes from `old` to `new` (Myers'
/// algorithm over lines that keep their line endings).
pub uninterp spec fn line_diff(old: Seq<char>, new: Seq<char>) -> Seq<(ChangeKind, Seq<char>)>;

/// The first text, read back from a diff: the lines in both texts and
/// those only in the first, in order.
pub open spec fn old_side(cs: Seq<(ChangeKind, Seq<char>)>) -> Seq<char>
    decreases cs.len(),
{
    if cs.len() == 0 {
        seq![]
    } else {
        old_side(cs.drop_last()) + if cs.last().0 == ChangeKind::Insert {
            Seq::<char>::empty()
        } else {
            cs.last().1
        }
    }
}

/// The second text, read back from a diff: the lines in both texts and
/// those only in the second, in order.
pub open spec fn new_side(cs: Seq<(ChangeKind, Seq<char>)>) -> Seq<char>
    decreases cs.len(),
{
    if cs.len() == 0 {
        seq![]
    } else {
        new_side(cs.drop_last()) + if cs.last().0 == ChangeKind::Delete {
            Seq::<char>::empty()
        } else {
            cs.last().1
        }
    }
}

pub open spec fn changes_view(v: Seq<(ChangeKind, String)>) -> Seq<(ChangeKind, Seq<char>)> {
    v.map_values(|c: (ChangeKind, String)| (c.0, c.1@))
}

/// `similar::TextDiff::from_lines(old, new).iter_all_changes()`, each
/// change as its kind and its line: the result is named `line_diff`.
/// Claimed from the crate's documentation and source: the lines (which
/// keep their endings) of both texts are all there, in order, so the
/// first text is the unchanged and deleted lines, and the second the
/// unchanged and inserted ones.
#[verifier::external_body]
fn line_changes(old: &str, new: &str) -> (r: Vec<(ChangeKind, String)>)
    ensures
        changes_view(r@) == line_diff(old@, new@),
        old_side(changes_view(r@)) == old@,
        new_side(changes_view(r@)) == new@,
{
    similar::TextDiff::from_lines(old, new).iter_all_changes().map(
        |c| {
            let kind = match c.tag() {
                similar::ChangeTag::Equal => ChangeKind::Equal,
                similar::ChangeTag::Delete => ChangeKind::Delete,
                similar::ChangeTag::Insert => ChangeKind::Insert,
            };
            (kind, c.value().to_string())
        },
    ).collect()
}

/// A row of the body diff: its kind and the line without trailing white
/// space.
pub struct DiffRow {
    pub kind: ChangeKind,
    pub text: String,
}

/// The diff of two messages.
pub struct MessageDiff {
    /// The header fields that differ: name, value in the first message,
    /// value in the second.
    pub headers: Vec<(String, String, String)>,
    /// The body diff, line by line.
    pub rows: Vec<DiffRow>,
}

/// The compared header fields that differ, in the order routing key,
/// exchange, content type.
pub open spec fn header_changes(a: MessageInfo, b: MessageInfo) -> Seq<(Seq<char>, Seq<char>, Seq<char>)> {
    (if a.routing_key@ != b.routing_key@ {
        seq![("routing_key"@, a.routing_key@, b.routing_key@)]
    } else {
        seq![]
    }) + (if a.exchange@ != b.exchange@ {
        seq![("exchange"@, a.exchange@, b.exchange@)]
    } else {
        seq![]
    }) + (if a.content_type@ != b.content_type@ {
        seq![("content_type"@, a.content_type@, b.content_type@)]
    } else {
        seq![]
    })
}

/// The body diff's rows: the diff of the bodies (indented when JSON), each
/// line without trailing white space.
pub open spec fn diff_rows(a: MessageInfo, b: MessageInfo) -> Seq<(ChangeKind, Seq<char>)> {
    line_diff(json_or_text(a.body@), json_or_text(b.body@)).map_values(
        |c: (ChangeKind, Seq<char>)| (c.0, strip_back(c.1, |ch: char| is_white(ch))),
    )
}

pub open spec fn triples_view(v: Seq<(String, String, String)>) -> Seq<(Seq<char>, Seq<char>, Seq<char>)> {
    v.map_values(|t: (String, String, String)| (t.0@, t.1@, t.2@))
}

pub open spec fn rows_view(v: Seq<DiffRow>) -> Seq<(ChangeKind, Seq<char>)> {
    v.map_values(|r: DiffRow| (r.kind, r.text@))
}

proof fn lemma_strip_back_step(s: Seq<char>)
    requires
        s.len() > 0,
        is_white(s.last()),
    ensures
        strip_back(s, |c: char| is_white(c)) == strip_back(s.drop_last(), |c: char| is_white(c)),
{
}

/// `s` without trailing white space (`str::trim_end`).
fn trimmed_end(s: &str) -> (r: String)
    ensures
        r@ == strip_back(s@, |c: char| is_white(c)),
{
    let v = chars_of(s);
    let mut n: usize = v.len();
    assert(v@.take(n as int) =~= v@);
    while n > 0 && is_whitespace(v[n - 1])
        invariant
            n <= v@.len(),
            strip_back(v@, |c: char| is_white(c)) == strip_back(v@.take(n as int), |c: char| is_white(c)),
        decreases n,
    {
        proof {
            lemma_strip_back_step(v@.take(n as int));
            assert(v@.take(n as int).drop_last() =~= v@.take(n - 1));
        }
        n = n - 1;
    }
    assert(strip_back(v@.take(n as int), |c: char| is_white(c)) == v@.take(n as int));
    assert(v@.subrange(0, n as int) =~= v@.take(n as int));
    string_of_range(&v, 0, n)
}

fn push_if_different(out: &mut Vec<(String, String, String)>, name: &str, a: &String, b: &String)
    ensures
        triples_view(final(out)@) == triples_view(old(out)@) + if a@ != b@ {
            seq![(name@, a@, b@)]
        } else {
            seq![]
        },
{
    let ghost before = out@;
    if !same_text(a.as_str(), b.as_str()) {
        out.push((owned(name), owned(a.as_str()), owned(b.as_str())));
        assert(triples_view(out@) =~= triples_view(before) + seq![(name@, a@, b@)]);
    } else {
        assert(triples_view(out@) =~= triples_view(before) + seq![]);
    }
}

/// The diff of two messages.
pub fn message_diff(a: &MessageInfo, b: &MessageInfo) -> (r: MessageDiff)
    ensures
        triples_view(r.headers@) == header_changes(*a, *b),
        rows_view(r.rows@) == diff_rows(*a, *b),
{
    let mut headers: Vec<(String, String, String)> = Vec::new();
    push_if_different(&mut headers, "routing_key", &a.routing_key, &b.routing_key);
    assert(triples_view(headers@) =~= Seq::empty() + if a.routing_key@ != b.routing_key@ {
        seq![("routing_key"@, a.routing_key@, b.routing_key@)]
    } else {
        seq![]
    });
    push_if_different(&mut headers, "exchange", &a.exchange, &b.exchange);
    push_if_different(&mut headers, "content_type", &a.content_type, &b.content_type);
    assert(triples_view(headers@) =~= header_changes(*a, *b));
    let body_a = format_message_body(a.body.as_str());
    let body_b = format_message_body(b.body.as_str());
    let changes = line_changes(body_a.as_str(), body_b.as_str());
    let ghost spec_rows = diff_rows(*a, *b);
    let mut rows: Vec<DiffRow> = Vec::new();
    let mut i: usize = 0;
    while i < changes.len()
        invariant
            i <= changes@.len(),
            changes_view(changes@) == line_diff(json_or_text(a.body@), json_or_text(b.body@)),
            spec_rows == diff_rows(*a, *b),
            rows_view(rows@) == spec_rows.take(i as int),
        decreases changes.len() - i,
    {
        let text = trimmed_end(changes[i].1.as_str());
        let ghost before = rows@;
        rows.push(DiffRow { kind: changes[i].0, text });
        proof {
            assert(changes_view(changes@)[i as int] == (changes@[i as int].0, changes@[i as int].1@));
            assert(rows_view(rows@) =~= rows_view(before).push((changes@[i as int].0, text@)));
            assert(spec_rows.take(i + 1) =~= spec_rows.take(i as int).push(spec_rows[i as int]));
        }
        i = i + 1;
    }
    assert(spec_rows.take(changes@.len() as int) =~= spec_rows);
    MessageDiff { headers, rows }
}

} // verus!
