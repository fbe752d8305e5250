//! The message detail screen: the header fields and the payload as shown,
//! the search through the lines of the shown payload, and what each key
//! does there.

use vstd::prelude::*;
use vstd::arithmetic::div_mod::{lemma_mod_self_0, lemma_small_mod};
use crate::keys::Key;
use crate::model::MessageInfo;
use crate::payload::{decode_payload, decoded_payload, pretty_format, pretty_format_spec};
use crate::schema::DecodedMessage;
use crate::session::{dead_letter_origin, dead_letter_spec};
use crate::text::{
    chars_of, contains, contains_text, decimal, lowercase, owned, pop_char, push_char, push_decimal, push_signed,
    push_str, signed_decimal, string_of, string_of_range, to_lower,
};
use crate::timestamp::{format_timestamp, timestamp_text};

verus! {

// ---------------------------------------------------------------------------
// Lines
// ---------------------------------------------------------------------------

/// A line without the `\r` of a `\r\n` ending.
pub open spec fn strip_cr(line: Seq<char>) -> Seq<char> {
    if line.len() > 0 && line.last() == '\r' {
        line.drop_last()
    } else {
        line
    }
}

/// Reading `s` from the start: the lines ended so far by `\n`, and the
/// characters of the line not yet ended.
pub open spec fn lines_run(s: Seq<char>) -> (Seq<Seq<char>>, Seq<char>)
    decreases s.len(),
{
    if s.len() == 0 {
        (seq![], seq![])
    } else {
        let (done, cur) = lines_run(s.drop_last());
        if s.last() == '\n' {
            (done.push(strip_cr(cur)), seq![])
        } else {
            (done, cur.push(s.last()))
        }
    }
}

/// The lines of `s` as `str::lines` gives them: split at `\n` or `\r\n`,
/// without the endings; a last ending adds no empty line.
pub open spec fn text_lines(s: Seq<char>) -> Seq<Seq<char>> {
    let (done, cur) = lines_run(s);
    if cur.len() > 0 {
        done.push(cur)
    } else {
        done
    }
}

/// The numbers of the lines in `ls` whose lower-case form contains `q`,
/// in order.
pub open spec fn matching_lines(ls: Seq<Seq<char>>, q: Seq<char>) -> Seq<int>
    decreases ls.len(),
{
    if ls.len() == 0 {
        seq![]
    } else {
        let rest = matching_lines(ls.drop_last(), q);
        if contains(lowercase(ls.last()), q) {
            rest.push(ls.len() - 1)
        } else {
            rest
        }
    }
}

/// The line numbers (as the screen keeps them, in 16 bits) of the lines
/// of `text` that contain `query`, both taken in lower case.
pub open spec fn search_hits(text: Seq<char>, query: Seq<char>) -> Seq<u16> {
    matching_lines(text_lines(text), lowercase(query)).map_values(|i: int| i as u16)
}

proof fn lemma_matching_push(ls: Seq<Seq<char>>, l: Seq<char>, q: Seq<char>)
    ensures
        matching_lines(ls.push(l), q) == if contains(lowercase(l), q) {
            matching_lines(ls, q).push(ls.len() as int)
        } else {
            matching_lines(ls, q)
        },
{
    assert(ls.push(l).drop_last() =~= ls);
}

/// Whether the line `line` matches the lower-case query `lq`.
fn line_matches(line: &str, lq: &str) -> (r: bool)
    ensures
        r == contains(lowercase(line@), lq@),
{
    let low = to_lower(line);
    contains_text(low.as_str(), lq)
}

/// The numbers of the lines of `text` that contain `query`, ignoring case.
pub fn search_lines(text: &str, query: &str) -> (r: Vec<u16>)
    ensures
        r@ == search_hits(text@, query@),
{
    let lq = to_lower(query);
    let cs = chars_of(text);
    let mut hits: Vec<u16> = Vec::new();
    let mut cur: Vec<char> = Vec::new();
    let mut count: usize = 0;
    let mut i: usize = 0;
    assert(cs@.take(0) =~= Seq::<char>::empty());
    while i < cs.len()
        invariant
            cs@ == text@,
            i <= cs@.len(),
            count <= i,
            lines_run(cs@.take(i as int)).1 == cur@,
            lines_run(cs@.take(i as int)).0.len() == count,
            hits@ == matching_lines(lines_run(cs@.take(i as int)).0, lq@).map_values(
                |j: int| j as u16,
            ),
        decreases cs.len() - i,
    {
        let ghost before = cs@.take(i as int);
        assert(cs@.take(i + 1).drop_last() =~= before);
        assert(cs@.take(i + 1).last() == cs@[i as int]);
        let c = cs[i];
        if c == '\n' {
            let line = if cur.len() > 0 && cur[cur.len() - 1] == '\r' {
                string_of_range(&cur, 0, cur.len() - 1)
            } else {
                string_of(&cur)
            };
            assert(line@ == strip_cr(cur@)) by {
                if cur@.len() > 0 && cur@.last() == '\r' {
                    assert(cur@.subrange(0, cur@.len() - 1) =~= cur@.drop_last());
                }
            }
            let ghost done = lines_run(before).0;
            proof {
                lemma_matching_push(done, line@, lq@);
            }
            if line_matches(line.as_str(), lq.as_str()) {
                hits.push(count as u16);
                assert(matching_lines(done.push(line@), lq@).map_values(|j: int| j as u16)
                    =~= matching_lines(done, lq@).map_values(|j: int| j as u16).push(
                    count as u16,
                ));
            }
            count = count + 1;
            cur = Vec::new();
        } else {
            cur.push(c);
        }
        i = i + 1;
    }
    assert(cs@.take(cs@.len() as int) =~= cs@);
    let ghost done = lines_run(cs@).0;
    if cur.len() > 0 {
        let line = string_of(&cur);
        proof {
            lemma_matching_push(done, line@, lq@);
        }
        if line_matches(line.as_str(), lq.as_str()) {
            hits.push(count as u16);
            assert(matching_lines(done.push(line@), lq@).map_values(|j: int| j as u16)
                =~= matching_lines(done, lq@).map_values(|j: int| j as u16).push(count as u16));
        }
    }
    hits
}

// ---------------------------------------------------------------------------
// What the screen shows
// ---------------------------------------------------------------------------

/// The body of a schema-decoded message, if there is one.
pub open spec fn schema_body(schema: Option<DecodedMessage>) -> Option<Seq<char>> {
    match schema {
        Some(m) => Some(m.decoded_body@),
        None => None,
    }
}

/// The payload before pretty-printing: the schema-decoded body when there
/// is one, else the body decoded from base64 or gzip when decoding is on,
/// else the body itself.
pub open spec fn unformatted_body(body: Seq<char>, schema: Option<Seq<char>>, decoded: bool) -> Seq<
    char,
> {
    match schema {
        Some(b) => b,
        None => if decoded {
            decoded_payload(body).0
        } else {
            body
        },
    }
}

/// The payload text the screen shows: pretty-printed when that is on.
pub open spec fn shown_body(body: Seq<char>, schema: Option<Seq<char>>, decoded: bool, pretty: bool) -> Seq<
    char,
> {
    let d = unformatted_body(body, schema, decoded);
    if pretty {
        pretty_format_spec(d).0
    } else {
        d
    }
}

/// How the payload was decoded: the schema's kind and id (`avro#7`), the
/// binary decoding's label, or nothing.
pub open spec fn decode_label(body: Seq<char>, schema: Option<DecodedMessage>, decoded: bool) -> Seq<
    char,
> {
    match schema {
        Some(m) => m.schema_type@ + "#"@ + signed_decimal(m.schema_id as int),
        None => if decoded {
            decoded_payload(body).1
        } else {
            ""@
        },
    }
}

/// The label over the payload: its format (`json`, `xml`, `text`) when
/// pretty-printed, else `raw`, followed by `+` and the decoding when there
/// is one.
pub open spec fn payload_label(body: Seq<char>, schema: Option<DecodedMessage>, decoded: bool, pretty: bool) -> Seq<
    char,
> {
    let dl = decode_label(body, schema, decoded);
    let f = if pretty {
        pretty_format_spec(unformatted_body(body, schema_body(schema), decoded)).1
    } else {
        "raw"@
    };
    if dl.len() == 0 {
        f
    } else {
        f + "+"@ + dl
    }
}

/// The payload as the screen shows it, and its label. `schema` is the
/// message decoded by its registry schema, when schema decoding is on and
/// it succeeded.
pub fn shown_payload(body: &str, schema: Option<&DecodedMessage>, decoded: bool, pretty: bool) -> (r: (
    String,
    String,
))
    ensures
        r.0@ == shown_body(
            body@,
            schema_body(
                match schema {
                    Some(m) => Some(*m),
                    None => None,
                },
            ),
            decoded,
            pretty,
        ),
        r.1@ == payload_label(
            body@,
            match schema {
                Some(m) => Some(*m),
                None => None,
            },
            decoded,
            pretty,
        ),
{
    let (d, dl) = match schema {
        Some(m) => {
            let mut l = owned(m.schema_type.as_str());
            push_str(&mut l, "#");
            push_signed(&mut l, m.schema_id as i64);
            (owned(m.decoded_body.as_str()), l)
        },
        None => if decoded {
            let (t, l) = decode_payload(body);
            (t, owned(l))
        } else {
            proof {
                reveal_strlit("");
            }
            (owned(body), owned(""))
        },
    };
    let ghost sch = match schema {
        Some(m) => Some(*m),
        None => None,
    };
    assert(d@ == unformatted_body(body@, schema_body(sch), decoded));
    assert(dl@ == decode_label(body@, sch, decoded));
    let ghost f_label = if pretty {
        pretty_format_spec(d@).1
    } else {
        "raw"@
    };
    let (text, mut label) = if pretty {
        let (t, f) = pretty_format(d.as_str());
        (t, owned(f))
    } else {
        (d, owned("raw"))
    };
    if !dl.as_str().is_empty() {
        push_str(&mut label, "+");
        push_str(&mut label, dl.as_str());
    }
    assert(label@ == if dl@.len() == 0 {
        f_label
    } else {
        f_label + "+"@ + dl@
    });
    (text, label)
}

/// `true` or `false`.
pub open spec fn bool_text(b: bool) -> Seq<char> {
    if b {
        "true"@
    } else {
        "false"@
    }
}

fn bool_string(b: bool) -> (r: String)
    ensures
        r@ == bool_text(b),
{
    if b {
        owned("true")
    } else {
        owned("false")
    }
}

/// The fields shown above the payload: routing key, exchange (`(default)`
/// for the default one), whether it was redelivered, the timestamp (`N/A`
/// without one) and the content type (`N/A` without one).
pub open spec fn header_fields_spec(m: MessageInfo) -> Seq<(Seq<char>, Seq<char>)> {
    seq![
        ("routing_key"@, m.routing_key@),
        ("exchange"@, if m.exchange@.len() == 0 { "(default)"@ } else { m.exchange@ }),
        ("redelivered"@, bool_text(m.redelivered)),
        ("timestamp"@, match m.timestamp {
            Some(t) => timestamp_text(t as int) + " UTC"@,
            None => "N/A"@,
        }),
        ("content_type"@, if m.content_type@.len() == 0 { "N/A"@ } else { m.content_type@ }),
    ]
}

/// The fields shown above the payload of `m`, as name and value.
pub fn header_fields(m: &MessageInfo) -> (r: Vec<(String, String)>)
    ensures
        r@.len() == 5,
        forall|i: int| 0 <= i < 5 ==> (r@[i].0@, r@[i].1@) == #[trigger] header_fields_spec(*m)[i],
{
    let mut r: Vec<(String, String)> = Vec::new();
    r.push((owned("routing_key"), owned(m.routing_key.as_str())));
    let exchange = if m.exchange.as_str().is_empty() {
        owned("(default)")
    } else {
        owned(m.exchange.as_str())
    };
    r.push((owned("exchange"), exchange));
    r.push((owned("redelivered"), bool_string(m.redelivered)));
    let ts = match m.timestamp {
        Some(t) => {
            let mut s = format_timestamp(t);
            push_str(&mut s, " UTC");
            s
        },
        None => owned("N/A"),
    };
    r.push((owned("timestamp"), ts));
    let ct = if m.content_type.as_str().is_empty() {
        owned("N/A")
    } else {
        owned(m.content_type.as_str())
    };
    r.push((owned("content_type"), ct));
    proof {
        let s = header_fields_spec(*m);
        assert((r@[0].0@, r@[0].1@) == s[0]);
        assert((r@[1].0@, r@[1].1@) == s[1]);
        assert((r@[2].0@, r@[2].1@) == s[2]);
        assert((r@[3].0@, r@[3].1@) == s[3]);
        assert((r@[4].0@, r@[4].1@) == s[4]);
    }
    r
}

/// The headers of a message, one `name: value` line each.
pub open spec fn header_lines(h: Seq<(String, String)>) -> Seq<char>
    decreases h.len(),
{
    if h.len() == 0 {
        seq![]
    } else {
        header_lines(h.drop_last()) + h.last().0@ + ": "@ + h.last().1@ + "\n"@
    }
}

/// The text copied for "copy headers": the routing key, exchange,
/// redelivered flag and content type, then every header, one per line.
pub open spec fn headers_text_spec(m: MessageInfo) -> Seq<char> {
    "routing_key: "@ + m.routing_key@ + "\n"@ + "exchange: "@ + m.exchange@ + "\n"@
        + "redelivered: "@ + bool_text(m.redelivered) + "\n"@ + "content_type: "@
        + m.content_type@ + "\n"@ + header_lines(m.headers@)
}

/// The text copied for "copy headers".
pub fn headers_text(m: &MessageInfo) -> (r: String)
    ensures
        r@ == headers_text_spec(*m),
{
    let mut s = owned("routing_key: ");
    push_str(&mut s, m.routing_key.as_str());
    push_str(&mut s, "\n");
    push_str(&mut s, "exchange: ");
    push_str(&mut s, m.exchange.as_str());
    push_str(&mut s, "\n");
    push_str(&mut s, "redelivered: ");
    let b = bool_string(m.redelivered);
    push_str(&mut s, b.as_str());
    push_str(&mut s, "\n");
    push_str(&mut s, "content_type: ");
    push_str(&mut s, m.content_type.as_str());
    push_str(&mut s, "\n");
    let ghost start = s@;
    let h = &m.headers;
    let mut i: usize = 0;
    assert(h@.take(0) =~= Seq::<(String, String)>::empty());
    while i < h.len()
        invariant
            i <= h@.len(),
            s@ == start + header_lines(h@.take(i as int)),
        decreases h.len() - i,
    {
        assert(h@.take(i + 1).drop_last() =~= h@.take(i as int));
        assert(h@.take(i + 1).last() == h@[i as int]);
        push_str(&mut s, h[i].0.as_str());
        push_str(&mut s, ": ");
        push_str(&mut s, h[i].1.as_str());
        push_str(&mut s, "\n");
        i = i + 1;
    }
    assert(h@.take(h@.len() as int) =~= h@);
    s
}

// ---------------------------------------------------------------------------
// The screen and its keys
// ---------------------------------------------------------------------------

/// The detail screen as the handler sees it.
pub struct DetailModel {
    pub scroll: u16,
    pub pretty: bool,
    pub decoded: bool,
    pub schema_decode: bool,
    pub search_active: bool,
    pub query: Seq<char>,
    pub matches: Seq<u16>,
    pub current: int,
}

/// The current match is one of the matches (or the first, when there are
/// none).
pub open spec fn model_wf(s: DetailModel) -> bool {
    if s.matches.len() == 0 {
        s.current == 0
    } else {
        0 <= s.current < s.matches.len()
    }
}

/// The state of the message detail screen: the scroll position, the
/// display switches, and the search with its matching line numbers.
pub struct DetailView {
    pub scroll: u16,
    pub pretty: bool,
    pub decoded: bool,
    pub schema_decode: bool,
    pub search_active: bool,
    pub query: String,
    pub matches: Vec<u16>,
    pub current: usize,
}

impl View for DetailView {
    type V = DetailModel;

    open spec fn view(&self) -> DetailModel {
        DetailModel {
            scroll: self.scroll,
            pretty: self.pretty,
            decoded: self.decoded,
            schema_decode: self.schema_decode,
            search_active: self.search_active,
            query: self.query@,
            matches: self.matches@,
            current: self.current as int,
        }
    }
}

/// What a key on the detail screen asks of the caller.
pub enum DetailEffect {
    Nothing,
    Quit,
    ShowHelp,
    CopyPayload(Seq<char>),
    CopyHeaders(Seq<char>),
    ConfirmReroute(Seq<char>, Seq<char>),
    EditMessage(Seq<char>, Seq<char>, Seq<char>),
    ClearSchemaCache,
    Back,
}

/// What a key on the detail screen asks of the caller.
pub enum DetailAction {
    Nothing,
    Quit,
    ShowHelp,
    /// Copy this text (the raw payload) to the clipboard.
    CopyPayload(String),
    /// Copy this text (the headers) to the clipboard.
    CopyHeaders(String),
    /// Ask whether to send the message back to where it was first
    /// published.
    ConfirmReroute { exchange: String, routing_key: String },
    /// Open the publish form filled with these values, on the body.
    EditMessage { routing_key: String, content_type: String, body: String },
    /// Forget the schema-decoded messages (schema decoding was switched).
    ClearSchemaCache,
    /// Back to the message list.
    Back,
}

impl View for DetailAction {
    type V = DetailEffect;

    open spec fn view(&self) -> DetailEffect {
        match self {
            DetailAction::Nothing => DetailEffect::Nothing,
            DetailAction::Quit => DetailEffect::Quit,
            DetailAction::ShowHelp => DetailEffect::ShowHelp,
            DetailAction::CopyPayload(t) => DetailEffect::CopyPayload(t@),
            DetailAction::CopyHeaders(t) => DetailEffect::CopyHeaders(t@),
            DetailAction::ConfirmReroute { exchange, routing_key } => DetailEffect::ConfirmReroute(
                exchange@,
                routing_key@,
            ),
            DetailAction::EditMessage { routing_key, content_type, body } =>
                DetailEffect::EditMessage(routing_key@, content_type@, body@),
            DetailAction::ClearSchemaCache => DetailEffect::ClearSchemaCache,
            DetailAction::Back => DetailEffect::Back,
        }
    }
}

/// A status line: its text, and whether it reports an error.
pub struct Status {
    pub text: String,
    pub error: bool,
}

pub open spec fn status_view(s: Option<Status>) -> Option<(Seq<char>, bool)> {
    match s {
        Some(st) => Some((st.text@, st.error)),
        None => None,
    }
}

/// The action a key asks for, and the status line it sets, if any.
pub struct DetailOutcome {
    pub action: DetailAction,
    pub status: Option<Status>,
}

pub open spec fn sat_add(x: u16, n: u16) -> u16 {
    if x + n > u16::MAX {
        u16::MAX
    } else {
        (x + n) as u16
    }
}

pub open spec fn sat_sub(x: u16, n: u16) -> u16 {
    if x < n {
        0
    } else {
        (x - n) as u16
    }
}

/// The schema-decoded body the screen uses: only while schema decoding is
/// on and a registry is configured.
pub open spec fn active_schema(s: DetailModel, available: bool, schema: Option<DecodedMessage>) -> Option<
    Seq<char>,
> {
    if s.schema_decode && available {
        schema_body(schema)
    } else {
        None
    }
}

/// The search run again on the shown payload: the matches start over at
/// the first, and the view scrolls to it.
pub open spec fn rescanned(s: DetailModel, msg: Option<MessageInfo>, schema: Option<Seq<char>>) -> DetailModel {
    let hits = match msg {
        Some(m) => if s.query.len() > 0 {
            search_hits(shown_body(m.body@, schema, s.decoded, s.pretty), s.query)
        } else {
            seq![]
        },
        None => seq![],
    };
    DetailModel {
        matches: hits,
        current: 0,
        scroll: if hits.len() > 0 {
            hits[0]
        } else {
            s.scroll
        },
        ..s
    }
}

/// `3/7 matches`: the current match, counted from one, and how many.
pub open spec fn match_count_text(current: int, total: int) -> Seq<char> {
    decimal((current + 1) as nat) + "/"@ + decimal(total as nat) + " matches"@
}

/// Scrolling to the current match, with the count in the status line.
pub open spec fn at_match(s: DetailModel) -> (DetailModel, DetailEffect, Option<(Seq<char>, bool)>) {
    (
        DetailModel { scroll: s.matches[s.current], ..s },
        DetailEffect::Nothing,
        Some((match_count_text(s.current, s.matches.len() as int), false)),
    )
}

pub open spec fn quiet(s: DetailModel) -> (DetailModel, DetailEffect, Option<(Seq<char>, bool)>) {
    (s, DetailEffect::Nothing, None)
}

/// What a key does while the search query is being typed.
pub open spec fn search_key_spec(
    s: DetailModel,
    k: Key,
    msg: Option<MessageInfo>,
    schema: Option<Seq<char>>,
) -> (DetailModel, DetailEffect, Option<(Seq<char>, bool)>) {
    let closed = DetailModel { search_active: false, ..s };
    match k {
        Key::Esc => quiet(closed),
        Key::Enter => if s.query.len() == 0 {
            quiet(closed)
        } else if s.matches.len() == 0 {
            (closed, DetailEffect::Nothing, Some(("Pattern not found"@, true)))
        } else {
            at_match(closed)
        },
        Key::Char(c) => quiet(rescanned(DetailModel { query: s.query.push(c), ..s }, msg, schema)),
        Key::Backspace => quiet(
            rescanned(
                DetailModel {
                    query: if s.query.len() > 0 {
                        s.query.drop_last()
                    } else {
                        s.query
                    },
                    ..s
                },
                msg,
                schema,
            ),
        ),
        _ => quiet(s),
    }
}

/// After switching a display mode the search runs again when there is a
/// query.
pub open spec fn after_switch(s: DetailModel, msg: Option<MessageInfo>, schema: Option<Seq<char>>) -> DetailModel {
    if s.query.len() > 0 {
        rescanned(s, msg, schema)
    } else {
        s
    }
}

/// What a key does on the detail screen (no popup open). `available`
/// says whether a schema registry is configured; `schema` is the message
/// as its registry schema decoded it, when it was.
pub open spec fn detail_key_spec(
    s: DetailModel,
    k: Key,
    msg: Option<MessageInfo>,
    available: bool,
    schema: Option<DecodedMessage>,
) -> (DetailModel, DetailEffect, Option<(Seq<char>, bool)>) {
    let sb = active_schema(s, available, schema);
    if s.search_active {
        search_key_spec(s, k, msg, sb)
    } else {
        match k {
            Key::Char('q') => (s, DetailEffect::Quit, None),
            Key::Char('?') => (s, DetailEffect::ShowHelp, None),
            Key::Char('j') | Key::Down => quiet(DetailModel { scroll: sat_add(s.scroll, 1), ..s }),
            Key::Char('k') | Key::Up => quiet(DetailModel { scroll: sat_sub(s.scroll, 1), ..s }),
            Key::PageDown => quiet(DetailModel { scroll: sat_add(s.scroll, 10), ..s }),
            Key::PageUp => quiet(DetailModel { scroll: sat_sub(s.scroll, 10), ..s }),
            Key::Char('p') => quiet(after_switch(DetailModel { pretty: !s.pretty, ..s }, msg, sb)),
            Key::Char('b') => (
                after_switch(DetailModel { decoded: !s.decoded, ..s }, msg, sb),
                DetailEffect::Nothing,
                Some(
                    (
                        if !s.decoded {
                            "Binary decode ON (base64/gzip)"@
                        } else {
                            "Binary decode OFF"@
                        },
                        false,
                    ),
                ),
            ),
            Key::Char('c') => match msg {
                Some(m) => (s, DetailEffect::CopyPayload(m.body@), None),
                None => quiet(s),
            },
            Key::Char('h') => match msg {
                Some(m) => (s, DetailEffect::CopyHeaders(headers_text_spec(m)), None),
                None => quiet(s),
            },
            Key::Char('L') => match msg {
                Some(m) => match dead_letter_spec(m.headers@) {
                    Some(p) => (s, DetailEffect::ConfirmReroute(p.0, p.1), None),
                    None => (
                        s,
                        DetailEffect::Nothing,
                        Some(("No x-death header found — not a dead-lettered message"@, true)),
                    ),
                },
                None => quiet(s),
            },
            Key::Char('s') => if available {
                (
                    after_switch(DetailModel { schema_decode: !s.schema_decode, ..s }, msg, None),
                    DetailEffect::ClearSchemaCache,
                    Some(
                        (
                            if !s.schema_decode {
                                "Schema decode ON"@
                            } else {
                                "Schema decode OFF"@
                            },
                            false,
                        ),
                    ),
                )
            } else {
                (
                    s,
                    DetailEffect::Nothing,
                    Some(("No Schema Registry configured for this profile"@, true)),
                )
            },
            Key::Char('E') => match msg {
                Some(m) => (
                    s,
                    DetailEffect::EditMessage(
                        m.routing_key@,
                        if m.content_type@.len() == 0 {
                            "application/json"@
                        } else {
                            m.content_type@
                        },
                        m.body@,
                    ),
                    None,
                ),
                None => quiet(s),
            },
            Key::Char('/') => quiet(
                DetailModel { search_active: true, query: seq![], matches: seq![], current: 0, ..s },
            ),
            Key::Char('n') => if s.matches.len() > 0 {
                at_match(DetailModel { current: (s.current + 1) % (s.matches.len() as int), ..s })
            } else if s.query.len() > 0 {
                (s, DetailEffect::Nothing, Some(("Pattern not found"@, true)))
            } else {
                quiet(s)
            },
            Key::Char('N') => if s.matches.len() > 0 {
                at_match(
                    DetailModel {
                        current: if s.current == 0 {
                            s.matches.len() - 1
                        } else {
                            s.current - 1
                        },
                        ..s
                    },
                )
            } else if s.query.len() > 0 {
                (s, DetailEffect::Nothing, Some(("Pattern not found"@, true)))
            } else {
                quiet(s)
            },
            Key::Esc => if s.query.len() > 0 {
                quiet(DetailModel { query: seq![], matches: seq![], current: 0, ..s })
            } else {
                (s, DetailEffect::Back, None)
            },
            _ => quiet(s),
        }
    }
}

/// A status line with this text.
fn status(text: &str, error: bool) -> (r: Option<Status>)
    ensures
        status_view(r) == Some((text@, error)),
{
    Some(Status { text: owned(text), error })
}

/// The status line after copying to the clipboard: what was copied, or
/// the clipboard's error.
pub fn copied_status(headers: bool, outcome: Result<(), String>) -> (r: Status)
    ensures
        outcome is Ok ==> !r.error && r.text@ == if headers {
            "Headers copied to clipboard"@
        } else {
            "Payload copied to clipboard"@
        },
        outcome matches Err(e) ==> r.error && r.text@ == e@,
{
    match outcome {
        Ok(()) => Status {
            text: owned(
                if headers {
                    "Headers copied to clipboard"
                } else {
                    "Payload copied to clipboard"
                },
            ),
            error: false,
        },
        Err(e) => Status { text: e, error: true },
    }
}

pub open spec fn message_model(msg: Option<&MessageInfo>) -> Option<MessageInfo> {
    match msg {
        Some(m) => Some(*m),
        None => None,
    }
}

pub open spec fn schema_model(schema: Option<&DecodedMessage>) -> Option<DecodedMessage> {
    match schema {
        Some(m) => Some(*m),
        None => None,
    }
}

impl DetailView {
    pub open spec fn wf(&self) -> bool {
        model_wf(self@)
    }

    /// The screen before any message was shown: pretty-printing on, binary
    /// and schema decoding off, no search.
    pub fn new() -> (r: Self)
        ensures
            r.wf(),
            r@ == (DetailModel {
                scroll: 0,
                pretty: true,
                decoded: false,
                schema_decode: false,
                search_active: false,
                query: seq![],
                matches: seq![],
                current: 0,
            }),
    {
        DetailView {
            scroll: 0,
            pretty: true,
            decoded: false,
            schema_decode: false,
            search_active: false,
            query: String::new(),
            matches: Vec::new(),
            current: 0,
        }
    }

    /// Showing another message: back to the top, with no search; the
    /// display switches stay.
    pub fn open_message(&mut self)
        ensures
            final(self).wf(),
            final(self)@ == (DetailModel {
                scroll: 0,
                search_active: false,
                query: seq![],
                matches: seq![],
                current: 0,
                ..old(self)@
            }),
    {
        self.scroll = 0;
        self.search_active = false;
        self.query = String::new();
        self.matches = Vec::new();
        self.current = 0;
    }

    /// Runs the search again on the shown payload of `msg`.
    fn rescan(&mut self, msg: Option<&MessageInfo>, schema: Option<&DecodedMessage>)
        ensures
            final(self)@ == rescanned(old(self)@, message_model(msg), schema_body(schema_model(schema))),
            model_wf(final(self)@),
    {
        self.matches = Vec::new();
        self.current = 0;
        if self.query.as_str().is_empty() {
            return;
        }
        match msg {
            None => {},
            Some(m) => {
                let (shown, _) = shown_payload(m.body.as_str(), schema, self.decoded, self.pretty);
                self.matches = search_lines(shown.as_str(), self.query.as_str());
                if self.matches.len() > 0 {
                    self.scroll = self.matches[0];
                }
            },
        }
    }

    /// Scrolls to the current match and reports the count.
    fn go_to_match(&mut self) -> (r: DetailOutcome)
        requires
            old(self)@.matches.len() > 0,
            model_wf(old(self)@),
        ensures
            (final(self)@, r.action@, status_view(r.status)) == at_match(old(self)@),
            model_wf(final(self)@),
    {
        let n = self.matches.len();
        assert(self.current < n);
        self.scroll = self.matches[self.current];
        let mut t = String::new();
        push_decimal(&mut t, (self.current + 1) as u64);
        push_str(&mut t, "/");
        push_decimal(&mut t, n as u64);
        push_str(&mut t, " matches");
        DetailOutcome { action: DetailAction::Nothing, status: Some(Status { text: t, error: false }) }
    }
}

/// Going to the next match and then to the previous one comes back to the
/// same match, and the other way round; the view ends on that match's line.
pub proof fn lemma_next_then_previous(
    s: DetailModel,
    msg: Option<MessageInfo>,
    available: bool,
    schema: Option<DecodedMessage>,
)
    requires
        model_wf(s),
        !s.search_active,
        s.matches.len() > 0,
    ensures
        ({
            let a = detail_key_spec(s, Key::Char('n'), msg, available, schema).0;
            let b = detail_key_spec(a, Key::Char('N'), msg, available, schema).0;
            b.current == s.current && b.scroll == s.matches[s.current]
        }),
        ({
            let a = detail_key_spec(s, Key::Char('N'), msg, available, schema).0;
            let b = detail_key_spec(a, Key::Char('n'), msg, available, schema).0;
            b.current == s.current && b.scroll == s.matches[s.current]
        }),
{
    let n = s.matches.len() as int;
    if s.current + 1 < n {
        lemma_small_mod((s.current + 1) as nat, n as nat);
    } else {
        lemma_mod_self_0(n);
    }
    if s.current > 0 {
        lemma_small_mod(s.current as nat, n as nat);
    } else {
        lemma_mod_self_0(n);
    }
}

fn nothing() -> (r: DetailOutcome)
    ensures
        r.action@ == DetailEffect::Nothing,
        r.status is None,
{
    DetailOutcome { action: DetailAction::Nothing, status: None }
}

/// What a key does while the search query is being typed.
fn search_key(
    view: &mut DetailView,
    k: Key,
    msg: Option<&MessageInfo>,
    schema: Option<&DecodedMessage>,
) -> (r: DetailOutcome)
    requires
        old(view).wf(),
    ensures
        (final(view)@, r.action@, status_view(r.status)) == search_key_spec(
            old(view)@,
            k,
            message_model(msg),
            schema_body(schema_model(schema)),
        ),
        final(view).wf(),
{
    match k {
        Key::Esc => {
            view.search_active = false;
            nothing()
        },
        Key::Enter => {
            view.search_active = false;
            if view.query.as_str().is_empty() {
                nothing()
            } else if view.matches.len() == 0 {
                DetailOutcome { action: DetailAction::Nothing, status: status("Pattern not found", true) }
            } else {
                view.go_to_match()
            }
        },
        Key::Char(c) => {
            push_char(&mut view.query, c);
            view.rescan(msg, schema);
            nothing()
        },
        Key::Backspace => {
            let _ = pop_char(&mut view.query);
            view.rescan(msg, schema);
            nothing()
        },
        _ => nothing(),
    }
}

/// Runs the search again after a display switch, when there is a query.
fn rescan_if_searching(view: &mut DetailView, msg: Option<&MessageInfo>, schema: Option<&DecodedMessage>)
    requires
        old(view).wf(),
    ensures
        final(view)@ == after_switch(old(view)@, message_model(msg), schema_body(schema_model(schema))),
        final(view).wf(),
{
    if !view.query.as_str().is_empty() {
        view.rescan(msg, schema);
    }
}

/// What a key does on the message detail screen when no popup is open:
/// the screen's state changes in place, and the action for the caller and
/// the status line to set come back. `msg` is the message shown,
/// `available` whether a schema registry is configured, and `schema` the
/// shown message as its registry schema decoded it, when it did.
#[verifier::spinoff_prover]
#[verifier::rlimit(50)]
pub fn handle_message_detail_key(
    view: &mut DetailView,
    k: Key,
    msg: Option<&MessageInfo>,
    available: bool,
    schema: Option<&DecodedMessage>,
) -> (r: DetailOutcome)
    requires
        old(view).wf(),
    ensures
        (final(view)@, r.action@, status_view(r.status)) == detail_key_spec(
            old(view)@,
            k,
            message_model(msg),
            available,
            schema_model(schema),
        ),
        final(view).wf(),
{
    let active = if view.schema_decode && available {
        schema
    } else {
        None
    };
    if view.search_active {
        return search_key(view, k, msg, active);
    }
    match k {
        Key::Char('q') => DetailOutcome { action: DetailAction::Quit, status: None },
        Key::Char('?') => DetailOutcome { action: DetailAction::ShowHelp, status: None },
        Key::Char('j') | Key::Down => {
            view.scroll = if view.scroll == u16::MAX {
                u16::MAX
            } else {
                view.scroll + 1
            };
            nothing()
        },
        Key::Char('k') | Key::Up => {
            view.scroll = if view.scroll == 0 {
                0
            } else {
                view.scroll - 1
            };
            nothing()
        },
        Key::PageDown => {
            view.scroll = if view.scroll > u16::MAX - 10 {
                u16::MAX
            } else {
                view.scroll + 10
            };
            nothing()
        },
        Key::PageUp => {
            view.scroll = if view.scroll < 10 {
                0
            } else {
                view.scroll - 10
            };
            nothing()
        },
        Key::Char('p') => {
            view.pretty = !view.pretty;
            rescan_if_searching(view, msg, active);
            nothing()
        },
        Key::Char('b') => {
            view.decoded = !view.decoded;
            let st = if view.decoded {
                status("Binary decode ON (base64/gzip)", false)
            } else {
                status("Binary decode OFF", false)
            };
            rescan_if_searching(view, msg, active);
            DetailOutcome { action: DetailAction::Nothing, status: st }
        },
        Key::Char('c') => match msg {
            Some(m) => DetailOutcome {
                action: DetailAction::CopyPayload(owned(m.body.as_str())),
                status: None,
            },
            None => nothing(),
        },
        Key::Char('h') => match msg {
            Some(m) => DetailOutcome { action: DetailAction::CopyHeaders(headers_text(m)), status: None },
            None => nothing(),
        },
        Key::Char('L') => match msg {
            Some(m) => match dead_letter_origin(&m.headers) {
                Some((exchange, routing_key)) => DetailOutcome {
                    action: DetailAction::ConfirmReroute { exchange, routing_key },
                    status: None,
                },
                None => DetailOutcome {
                    action: DetailAction::Nothing,
                    status: status("No x-death header found — not a dead-lettered message", true),
                },
            },
            None => nothing(),
        },
        Key::Char('s') => {
            if available {
                view.schema_decode = !view.schema_decode;
                let st = if view.schema_decode {
                    status("Schema decode ON", false)
                } else {
                    status("Schema decode OFF", false)
                };
                rescan_if_searching(view, msg, None);
                DetailOutcome { action: DetailAction::ClearSchemaCache, status: st }
            } else {
                DetailOutcome {
                    action: DetailAction::Nothing,
                    status: status("No Schema Registry configured for this profile", true),
                }
            }
        },
        Key::Char('E') => match msg {
            Some(m) => {
                let content_type = if m.content_type.as_str().is_empty() {
                    owned("application/json")
                } else {
                    owned(m.content_type.as_str())
                };
                DetailOutcome {
                    action: DetailAction::EditMessage {
                        routing_key: owned(m.routing_key.as_str()),
                        content_type,
                        body: owned(m.body.as_str()),
                    },
                    status: None,
                }
            },
            None => nothing(),
        },
        Key::Char('/') => {
            view.search_active = true;
            view.query = String::new();
            view.matches = Vec::new();
            view.current = 0;
            nothing()
        },
        Key::Char('n') => {
            let n = view.matches.len();
            if n > 0 {
                view.current = (view.current + 1) % n;
                view.go_to_match()
            } else if !view.query.as_str().is_empty() {
                DetailOutcome { action: DetailAction::Nothing, status: status("Pattern not found", true) }
            } else {
                nothing()
            }
        },
        Key::Char('N') => {
            let n = view.matches.len();
            if n > 0 {
                view.current = if view.current == 0 {
                    n - 1
                } else {
                    view.current - 1
                };
                view.go_to_match()
            } else if !view.query.as_str().is_empty() {
                DetailOutcome { action: DetailAction::Nothing, status: status("Pattern not found", true) }
            } else {
                nothing()
            }
        },
        Key::Esc => {
            if !view.query.as_str().is_empty() {
                view.query = String::new();
                view.matches = Vec::new();
                view.current = 0;
                nothing()
            } else {
                DetailOutcome { action: DetailAction::Back, status: None }
            }
        },
        _ => nothing(),
    }
}

} // verus!
