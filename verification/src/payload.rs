//! How message bodies are shown: decoded from base64 or gzip when they
//! are, and pretty-printed as JSON or XML.

use std::io::Read;
use base64::Engine;
use vstd::prelude::*;
use vstd::utf8::{decode_utf8, encode_utf8, valid_utf8};
use crate::json::{json_document, parse_json};
use crate::text::{
    chars_of, contains, contains_text, ends_with, has_prefix, owned, push_char, push_str,
    same_text, starts_with, trim, trimmed, is_white, strip_front,
};

verus! {

// ---------------------------------------------------------------------------
// Decoding
// ---------------------------------------------------------------------------

/// The bytes that base64 with the standard alphabet and padding reads from
/// `text`, or `None` when `text` is not such base64.
pub uninterp spec fn base64_standard(text: Seq<char>) -> Option<Seq<u8>>;

/// The bytes that base64 with the URL-safe alphabet and padding reads from
/// `text`, or `None` when `text` is not such base64.
pub uninterp spec fn base64_url_safe(text: Seq<char>) -> Option<Seq<u8>>;

/// The text that the first gzip member of `bytes` inflates to, or `None`
/// when `bytes` is no valid gzip data or inflates to invalid UTF-8.
pub uninterp spec fn gzip_text(bytes: Seq<u8>) -> Option<Seq<char>>;

/// `base64::engine::general_purpose::STANDARD.decode`: the result is named
/// `base64_standard` of the text; which texts decode, and to what, is left
/// to the `base64` crate.
#[verifier::external_body]
fn decode_base64_standard(text: &str) -> (r: Option<Vec<u8>>)
    ensures
        match r {
            Some(b) => base64_standard(text@) == Some(b@),
            None => base64_standard(text@) is None,
        },
{
    base64::engine::general_purpose::STANDARD.decode(text).ok()
}

/// `base64::engine::general_purpose::URL_SAFE.decode`: the result is named
/// `base64_url_safe` of the text.
#[verifier::external_body]
fn decode_base64_url_safe(text: &str) -> (r: Option<Vec<u8>>)
    ensures
        match r {
            Some(b) => base64_url_safe(text@) == Some(b@),
            None => base64_url_safe(text@) is None,
        },
{
    base64::engine::general_purpose::URL_SAFE.decode(text).ok()
}

/// `flate2::read::GzDecoder` read to a string: the result is named
/// `gzip_text` of the bytes.
#[verifier::external_body]
fn gunzip_text(bytes: &[u8]) -> (r: Option<String>)
    ensures
        match r {
            Some(t) => gzip_text(bytes@) == Some(t@),
            None => gzip_text(bytes@) is None,
        },
{
    let mut out = String::new();
    match flate2::read::GzDecoder::new(bytes).read_to_string(&mut out) {
        Ok(_) => Some(out),
        Err(_) => None,
    }
}

/// `String::from_utf8`: the text the bytes encode, when they are valid
/// UTF-8, as its documentation says.
#[verifier::external_body]
fn utf8_text(bytes: Vec<u8>) -> (r: Option<String>)
    ensures
        r is Some <==> valid_utf8(bytes@),
        r matches Some(t) ==> t@ == decode_utf8(bytes@),
{
    String::from_utf8(bytes).ok()
}

/// Whether `b` starts with the gzip magic bytes.
pub open spec fn gzip_magic(b: Seq<u8>) -> bool {
    b.len() >= 2 && b[0] == 0x1f && b[1] == 0x8b
}

fn has_gzip_magic(b: &[u8]) -> (r: bool)
    ensures
        r == gzip_magic(b@),
{
    b.len() >= 2 && b[0] == 0x1f && b[1] == 0x8b
}

/// A body as decoded, with the label of the decoding: base64 of gzip
/// (`b64+gz`), base64 of UTF-8 (`b64`), URL-safe base64 of UTF-8
/// (`b64url`), raw gzip (`gzip`), or the body itself with no label.
pub open spec fn decoded_payload(body: Seq<char>) -> (Seq<char>, Seq<char>) {
    let t = trim(body);
    let std = base64_standard(t);
    let gz = match std {
        Some(b) => if gzip_magic(b) {
            gzip_text(b)
        } else {
            None
        },
        None => None,
    };
    let plain = match std {
        Some(b) => if valid_utf8(b) {
            Some(decode_utf8(b))
        } else {
            None
        },
        None => None,
    };
    let url = match base64_url_safe(t) {
        Some(b) => if valid_utf8(b) {
            Some(decode_utf8(b))
        } else {
            None
        },
        None => None,
    };
    let raw = encode_utf8(t);
    let raw_gz = if gzip_magic(raw) {
        gzip_text(raw)
    } else {
        None
    };
    if gz is Some {
        (gz->0, "b64+gz"@)
    } else if plain is Some {
        (plain->0, "b64"@)
    } else if url is Some {
        (url->0, "b64url"@)
    } else if raw_gz is Some {
        (raw_gz->0, "gzip"@)
    } else {
        (body, ""@)
    }
}

/// Decodes a body that is base64 and/or gzip; returns the text and the
/// label of the decoding, or the body itself with an empty label.
pub fn decode_payload(body: &str) -> (r: (String, &'static str))
    ensures
        r.0@ == decoded_payload(body@).0,
        r.1@ == decoded_payload(body@).1,
{
    let t = trimmed(body);
    let std = decode_base64_standard(t.as_str());
    if let Some(bytes) = std {
        if has_gzip_magic(bytes.as_slice()) {
            if let Some(text) = gunzip_text(bytes.as_slice()) {
                return (text, "b64+gz");
            }
        }
        if let Some(text) = utf8_text(bytes) {
            return (text, "b64");
        }
    }
    if let Some(bytes) = decode_base64_url_safe(t.as_str()) {
        if let Some(text) = utf8_text(bytes) {
            return (text, "b64url");
        }
    }
    let raw = t.as_str().as_bytes();
    if has_gzip_magic(raw) {
        if let Some(text) = gunzip_text(raw) {
            return (text, "gzip");
        }
    }
    (owned(body), "")
}

// ---------------------------------------------------------------------------
// Pretty-printing
// ---------------------------------------------------------------------------

/// `n` levels of two-space indentation.
pub open spec fn indentation(n: nat) -> Seq<char>
    decreases n,
{
    if n == 0 {
        Seq::empty()
    } else {
        indentation((n - 1) as nat) + "  "@
    }
}

/// The state of the XML formatter: the lines written so far, the depth,
/// and the text of the tag or content being read.
pub struct XmlState {
    pub out: Seq<char>,
    pub depth: nat,
    pub pending: Seq<char>,
}

/// `s` after writing `line` at the current depth.
pub open spec fn write_line(s: XmlState, line: Seq<char>) -> Seq<char> {
    s.out + indentation(s.depth) + line + "\n"@
}

/// The formatter after reading `c`: a `<` ends the text before it, which
/// goes on a line of its own when it is not blank; a `>` ends a tag, which
/// goes on its own line, one level deeper after an opening tag and one
/// level shallower for a closing one.
pub open spec fn xml_step(s: XmlState, c: char) -> XmlState {
    if c == '<' {
        let t = trim(s.pending);
        XmlState {
            out: if t.len() > 0 {
                write_line(s, t)
            } else {
                s.out
            },
            depth: s.depth,
            pending: seq!['<'],
        }
    } else if c == '>' {
        let tag = trim(s.pending.push('>'));
        if starts_with(tag, "</"@) {
            let d = if s.depth > 0 {
                (s.depth - 1) as nat
            } else {
                0
            };
            XmlState {
                out: write_line(XmlState { out: s.out, depth: d, pending: s.pending }, tag),
                depth: d,
                pending: Seq::empty(),
            }
        } else if ends_with(tag, "/>"@) || starts_with(tag, "<?"@) || starts_with(tag, "<!"@) {
            XmlState { out: write_line(s, tag), depth: s.depth, pending: Seq::empty() }
        } else {
            XmlState { out: write_line(s, tag), depth: s.depth + 1, pending: Seq::empty() }
        }
    } else {
        XmlState { out: s.out, depth: s.depth, pending: s.pending.push(c) }
    }
}

/// The formatter after reading `x`.
pub open spec fn xml_run(x: Seq<char>) -> XmlState
    decreases x.len(),
{
    if x.len() == 0 {
        XmlState { out: Seq::empty(), depth: 0, pending: Seq::empty() }
    } else {
        xml_step(xml_run(x.drop_last()), x.last())
    }
}

/// `xml` laid out one tag or text per line, indented by depth.
pub open spec fn pretty_xml_spec(xml: Seq<char>) -> Seq<char> {
    let s = xml_run(xml);
    let t = trim(s.pending);
    if t.len() > 0 {
        write_line(s, t)
    } else {
        s.out
    }
}

/// Appends `n` levels of indentation.
fn push_indent(s: &mut String, n: usize)
    ensures
        final(s)@ == old(s)@ + indentation(n as nat),
{
    let mut i: usize = 0;
    while i < n
        invariant
            i <= n,
            s@ == old(s)@ + indentation(i as nat),
        decreases n - i,
    {
        push_str(s, "  ");
        i = i + 1;
        assert(s@ =~= old(s)@ + indentation(i as nat));
    }
}

/// Appends `line` at depth `n`, then a line break.
fn push_line(s: &mut String, n: usize, line: &str)
    ensures
        final(s)@ == old(s)@ + indentation(n as nat) + line@ + "\n"@,
{
    push_indent(s, n);
    push_str(s, line);
    push_str(s, "\n");
    assert(s@ =~= old(s)@ + indentation(n as nat) + line@ + "\n"@);
}

/// Lays out XML one tag or text per line, indented two spaces per level.
pub fn pretty_xml(xml: &str) -> (r: String)
    ensures
        r@ == pretty_xml_spec(xml@),
{
    let chars = chars_of(xml);
    let mut result = String::new();
    let mut indent: usize = 0;
    let mut tag = String::new();
    let mut i: usize = 0;
    assert(chars@.take(0) =~= Seq::<char>::empty());
    while i < chars.len()
        invariant
            i <= chars@.len(),
            chars@ == xml@,
            indent <= i,
            xml_run(chars@.take(i as int)) == (XmlState {
                out: result@,
                depth: indent as nat,
                pending: tag@,
            }),
        decreases chars.len() - i,
    {
        let c = chars[i];
        proof {
            assert(chars@.take(i + 1).drop_last() =~= chars@.take(i as int));
            assert(chars@.take(i + 1).last() == c);
        }
        if c == '<' {
            let t = trimmed(tag.as_str());
            if !t.as_str().is_empty() {
                push_line(&mut result, indent, t.as_str());
            }
            tag = String::new();
            push_char(&mut tag, '<');
            assert(tag@ =~= seq!['<']);
        } else if c == '>' {
            push_char(&mut tag, '>');
            let t = trimmed(tag.as_str());
            if has_prefix(t.as_str(), "</") {
                if indent > 0 {
                    indent = indent - 1;
                }
                push_line(&mut result, indent, t.as_str());
            } else if ends_with_text(t.as_str(), "/>") || has_prefix(t.as_str(), "<?")
                || has_prefix(t.as_str(), "<!") {
                push_line(&mut result, indent, t.as_str());
            } else {
                push_line(&mut result, indent, t.as_str());
                indent = indent + 1;
            }
            tag = String::new();
        } else {
            push_char(&mut tag, c);
        }
        i = i + 1;
    }
    assert(chars@.take(chars@.len() as int) =~= chars@);
    let t = trimmed(tag.as_str());
    if !t.as_str().is_empty() {
        push_line(&mut result, indent, t.as_str());
    }
    result
}

proof fn lemma_xml_run_push(p: Seq<char>, c: char)
    ensures
        xml_run(p.push(c)) == xml_step(xml_run(p), c),
{
    assert(p.push(c).drop_last() =~= p);
}

/// Reading characters that are neither `<` nor `>` only adds them to the
/// text being read.
proof fn lemma_xml_run_text(p: Seq<char>, b: Seq<char>)
    requires
        forall|i: int| 0 <= i < b.len() ==> b[i] != '<' && b[i] != '>',
    ensures
        xml_run(p + b) == (XmlState {
            out: xml_run(p).out,
            depth: xml_run(p).depth,
            pending: xml_run(p).pending + b,
        }),
    decreases b.len(),
{
    if b.len() == 0 {
        assert(p + b =~= p);
        assert(xml_run(p).pending + b =~= xml_run(p).pending);
    } else {
        let c = b.last();
        assert(b[b.len() - 1] != '<' && b[b.len() - 1] != '>');
        assert forall|i: int| 0 <= i < b.drop_last().len() implies b.drop_last()[i] != '<'
            && b.drop_last()[i] != '>' by {
            assert(b.drop_last()[i] == b[i]);
        }
        lemma_xml_run_text(p, b.drop_last());
        assert(p + b =~= (p + b.drop_last()).push(c));
        lemma_xml_run_push(p + b.drop_last(), c);
        assert((xml_run(p).pending + b.drop_last()).push(c) =~= xml_run(p).pending + b);
    }
}

/// Trimming keeps a text that neither starts nor ends with white space.
proof fn lemma_trim_tag(t: Seq<char>)
    requires
        t.len() > 0,
        t[0] == '<',
        t.last() == '>',
    ensures
        trim(t) == t,
{
    assert(!is_white(t[0]));
    assert(strip_front(t, |c: char| is_white(c)) == t);
    assert(!is_white(t.last()));
}

/// Reading `<` followed by `b` and `>`, from state `s` with `b` free of
/// `<` and `>`: the text read before goes out, and the tag read is `<b>`.
proof fn lemma_xml_run_tag(p: Seq<char>, b: Seq<char>)
    requires
        forall|i: int| 0 <= i < b.len() ==> b[i] != '<' && b[i] != '>',
    ensures
        ({
            let q = p.push('<');
            let tag = seq!['<'] + b + seq!['>'];
            &&& xml_run(p + tag) == xml_step(
                XmlState { out: xml_run(q).out, depth: xml_run(p).depth, pending: seq!['<'] + b },
                '>',
            )
            &&& xml_run(q).depth == xml_run(p).depth
            &&& trim((seq!['<'] + b).push('>')) == tag
        }),
{
    let q = p.push('<');
    let tag = seq!['<'] + b + seq!['>'];
    lemma_xml_run_push(p, '<');
    lemma_xml_run_text(q, b);
    assert(xml_run(q).pending =~= seq!['<']);
    assert(p + tag =~= (q + b).push('>'));
    lemma_xml_run_push(q + b, '>');
    assert((seq!['<'] + b).push('>') =~= tag);
    lemma_trim_tag(tag);
}

/// A self-closing tag keeps the depth: after `<b/>` (a name and
/// attributes `b` without `<` or `>`, not starting with `/`) the layout is
/// at the depth it was at before, and the tag stands on a line of its own
/// at that depth.
pub proof fn lemma_self_closing_tag_keeps_depth(before: Seq<char>, b: Seq<char>)
    requires
        b.len() > 0,
        b[0] != '/',
        forall|i: int| 0 <= i < b.len() ==> b[i] != '<' && b[i] != '>',
    ensures
        xml_run(before + (seq!['<'] + b + seq!['/', '>'])).depth == xml_run(before).depth,
        xml_run(before + (seq!['<'] + b + seq!['/', '>'])).pending.len() == 0,
        xml_run(before + (seq!['<'] + b + seq!['/', '>'])).out == xml_run(before.push('<')).out
            + indentation(xml_run(before).depth) + (seq!['<'] + b + seq!['/', '>']) + seq!['\n'],
{
    let b2 = b.push('/');
    assert(seq!['<'] + b + seq!['/', '>'] =~= seq!['<'] + b2 + seq!['>']);
    lemma_xml_run_tag(before, b2);
    let tag = seq!['<'] + b2 + seq!['>'];
    reveal_strlit("</");
    reveal_strlit("/>");
    reveal_strlit("\n");
    assert(tag.subrange(0, 2)[1] == b[0]);
    assert(!starts_with(tag, "</"@));
    assert(tag.subrange(tag.len() - 2, tag.len() as int) =~= "/>"@);
    assert(ends_with(tag, "/>"@));
}

/// An opening tag `<n ...>` goes on a line of its own at the current
/// depth, and what follows it is one level deeper.
proof fn lemma_opening_tag(before: Seq<char>, n: Seq<char>)
    requires
        n.len() > 0,
        n[0] != '/' && n[0] != '?' && n[0] != '!',
        n.last() != '/',
        forall|i: int| 0 <= i < n.len() ==> n[i] != '<' && n[i] != '>',
    ensures
        xml_run(before + (seq!['<'] + n + seq!['>'])).depth == xml_run(before).depth + 1,
        xml_run(before + (seq!['<'] + n + seq!['>'])).pending.len() == 0,
        xml_run(before + (seq!['<'] + n + seq!['>'])).out == xml_run(before.push('<')).out
            + indentation(xml_run(before).depth) + (seq!['<'] + n + seq!['>']) + seq!['\n'],
{
    let open = seq!['<'] + n + seq!['>'];
    reveal_strlit("</");
    reveal_strlit("/>");
    reveal_strlit("<?");
    reveal_strlit("<!");
    reveal_strlit("\n");
    lemma_xml_run_tag(before, n);
    assert(open.subrange(0, 2)[1] == n[0]);
    assert(!starts_with(open, "</"@));
    assert(!starts_with(open, "<?"@));
    assert(!starts_with(open, "<!"@));
    assert(open.subrange(open.len() - 2, open.len() as int)[0] == n.last());
    assert(!ends_with(open, "/>"@));
}

/// A closing tag `</n>` read one level down or deeper goes on a line of its
/// own one level up, where what follows it stays.
proof fn lemma_closing_tag(before: Seq<char>, n: Seq<char>)
    requires
        xml_run(before).depth > 0,
        forall|i: int| 0 <= i < n.len() ==> n[i] != '<' && n[i] != '>',
    ensures
        xml_run(before + (seq!['<', '/'] + n + seq!['>'])).depth == xml_run(before).depth - 1,
        xml_run(before + (seq!['<', '/'] + n + seq!['>'])).pending.len() == 0,
        xml_run(before + (seq!['<', '/'] + n + seq!['>'])).out == xml_run(before.push('<')).out
            + indentation((xml_run(before).depth - 1) as nat) + (seq!['<', '/'] + n + seq!['>']) + seq!['\n'],
{
    let close = seq!['<', '/'] + n + seq!['>'];
    let n2 = seq!['/'] + n;
    assert(close =~= seq!['<'] + n2 + seq!['>']);
    lemma_xml_run_tag(before, n2);
    reveal_strlit("</");
    reveal_strlit("\n");
    assert(close.subrange(0, 2) =~= "</"@);
}

/// Nothing is left unwritten after a tag, so the next `<` writes nothing.
proof fn lemma_xml_next_tag_writes_nothing(p: Seq<char>)
    requires
        xml_run(p).pending.len() == 0,
    ensures
        xml_run(p.push('<')).out == xml_run(p).out,
        xml_run(p.push('<')).depth == xml_run(p).depth,
{
    lemma_xml_run_push(p, '<');
    assert(xml_run(p).pending =~= Seq::<char>::empty());
    assert(trim(xml_run(p).pending).len() == 0);
}

/// Closing tags are indented as their opening tags and self-closing tags
/// keep the depth: an element `<n>` holding one self-closing element
/// `<b/>` is laid out as `<n>` at the depth reached before it, `<b/>` one
/// level deeper, and `</n>` back at the depth of `<n>`, where the layout
/// then stays.
pub proof fn lemma_element_layout(before: Seq<char>, n: Seq<char>, b: Seq<char>)
    requires
        n.len() > 0,
        n[0] != '/' && n[0] != '?' && n[0] != '!',
        n.last() != '/',
        forall|i: int| 0 <= i < n.len() ==> n[i] != '<' && n[i] != '>',
        b.len() > 0,
        b[0] != '/',
        forall|i: int| 0 <= i < b.len() ==> b[i] != '<' && b[i] != '>',
    ensures
        ({
            let open = seq!['<'] + n + seq!['>'];
            let child = seq!['<'] + b + seq!['/', '>'];
            let close = seq!['<', '/'] + n + seq!['>'];
            let d = xml_run(before).depth;
            &&& xml_run(before + open + child + close).depth == d
            &&& pretty_xml_spec(before + open + child + close) == xml_run(before.push('<')).out
                + indentation(d) + open + seq!['\n'] + indentation(d + 1) + child + seq!['\n']
                + indentation(d) + close + seq!['\n']
        }),
{
    let open = seq!['<'] + n + seq!['>'];
    let child = seq!['<'] + b + seq!['/', '>'];
    let close = seq!['<', '/'] + n + seq!['>'];
    let d = xml_run(before).depth;
    lemma_opening_tag(before, n);
    let p1 = before + open;
    lemma_self_closing_tag_keeps_depth(p1, b);
    lemma_xml_next_tag_writes_nothing(p1);
    let p2 = p1 + child;
    assert(before + open + child =~= p2);
    lemma_closing_tag(p2, n);
    lemma_xml_next_tag_writes_nothing(p2);
    let p3 = p2 + close;
    assert(before + open + child + close =~= p3);
    assert(xml_run(p3).pending =~= Seq::<char>::empty());
    assert(trim(xml_run(p3).pending).len() == 0);
}

/// Whether `h` ends with `p`.
fn ends_with_text(h: &str, p: &str) -> (r: bool)
    ensures
        r == ends_with(h@, p@),
{
    let hv = chars_of(h);
    let pv = chars_of(p);
    if pv.len() > hv.len() {
        return false;
    }
    let off = hv.len() - pv.len();
    assert(hv@.len() <= usize::MAX);
    let mut k: usize = 0;
    while k < pv.len()
        invariant
            hv@ == h@,
            pv@ == p@,
            pv@.len() <= hv@.len() <= usize::MAX,
            off == hv@.len() - pv@.len(),
            k <= pv@.len(),
            forall|j: int| 0 <= j < k ==> hv@[off + j] == pv@[j],
        decreases pv.len() - k,
    {
        if hv[off + k] != pv[k] {
            assert(h@.subrange(off as int, h@.len() as int)[k as int] != p@[k as int]);
            return false;
        }
        k = k + 1;
    }
    assert(h@.subrange(off as int, h@.len() as int) =~= p@);
    true
}

/// A body pretty-printed, with the label of its format: indented JSON
/// (`json`) when it looks like and parses as JSON, laid-out XML (`xml`)
/// when it looks like XML and the layout changes it, or else the body
/// itself (`text`).
pub open spec fn pretty_format_spec(body: Seq<char>) -> (Seq<char>, Seq<char>) {
    let t = trim(body);
    let json = if starts_with(t, "{"@) || starts_with(t, "["@) {
        match json_document(t) {
            Some(v) => v.pretty,
            None => None,
        }
    } else {
        None
    };
    if json is Some {
        (json->0@, "json"@)
    } else if starts_with(t, "<"@) && contains(t, ">"@) && pretty_xml_spec(t) != t {
        (pretty_xml_spec(t), "xml"@)
    } else {
        (body, "text"@)
    }
}

/// Pretty-prints a body as JSON or XML when it is one of them.
pub fn pretty_format(body: &str) -> (r: (String, &'static str))
    ensures
        r.0@ == pretty_format_spec(body@).0,
        r.1@ == pretty_format_spec(body@).1,
{
    let t = trimmed(body);
    if has_prefix(t.as_str(), "{") || has_prefix(t.as_str(), "[") {
        if let Some(v) = parse_json(t.as_str()) {
            if let Some(p) = v.pretty {
                return (p, "json");
            }
        }
    }
    if has_prefix(t.as_str(), "<") && contains_text(t.as_str(), ">") {
        let formatted = pretty_xml(t.as_str());
        if !same_text(formatted.as_str(), t.as_str()) {
            return (formatted, "xml");
        }
    }
    (owned(body), "text")
}

/// A body as indented JSON when it parses as JSON, else as it is.
pub open spec fn json_or_text(body: Seq<char>) -> Seq<char> {
    match json_document(body) {
        Some(v) => match v.pretty {
            Some(p) => p@,
            None => body,
        },
        None => body,
    }
}

/// A body as indented JSON when it parses as JSON, else as it is (for
/// the message list and for diffs).
pub fn format_message_body(body: &str) -> (r: String)
    ensures
        r@ == json_or_text(body@),
{
    match parse_json(body) {
        Some(v) => match v.pretty {
            Some(p) => p,
            None => owned(body),
        },
        None => owned(body),
    }
}

} // verus!
