//! Colouring the payload on the message detail screen: JSON and XML lines
//! cut into pieces that are drawn in different tones, and the pieces cut
//! again around the hits of a search.

use vstd::prelude::*;
use crate::comparison::texts_view;
use crate::detail::{lines_run, strip_cr, text_lines};
use crate::text::{
    chars_of, find_chars_from, find_from, is_white, is_whitespace, lemma_find_from, lowercase, push_char, push_str,
    string_of, string_of_range, to_lower,
};

verus! {

/// The tone a piece of the payload is drawn in.
#[derive(Debug, Clone, Copy, PartialEq, Eq, Structural)]
pub enum Tone {
    /// A JSON object key: a string followed (after blanks) by `:`.
    Key,
    /// Any other JSON string.
    Str,
    /// A JSON number, boolean or null.
    Scalar,
    /// JSON punctuation: braces, brackets, `:` and `,`.
    Punct,
    /// Blanks between JSON tokens.
    Blank,
    /// The `<`, `>` and `/>` of an XML tag.
    Angle,
    /// The name of an XML tag.
    TagName,
    /// The attributes of an XML tag, after a blank.
    Attrs,
    /// Text between XML tags.
    Content,
    /// Text that is not highlighted.
    Body,
}

/// A piece of a line and its tone.
#[derive(Debug)]
pub struct Piece {
    pub tone: Tone,
    pub text: String,
}

pub open spec fn pieces_view(ps: Seq<Piece>) -> Seq<(Tone, Seq<char>)> {
    ps.map_values(|p: Piece| (p.tone, p.text@))
}

/// The text of the pieces, one after the other.
pub open spec fn joined(ps: Seq<(Tone, Seq<char>)>) -> Seq<char>
    decreases ps.len(),
{
    if ps.len() == 0 {
        seq![]
    } else {
        ps[0].1 + joined(ps.drop_first())
    }
}

// ---------------------------------------------------------------------------
// JSON
// ---------------------------------------------------------------------------

/// Where a JSON string whose text starts at `j` ends: the index of its
/// closing quote (a backslash escapes the next character), or the end of
/// the line when it is not closed.
pub open spec fn string_close(cs: Seq<char>, j: int) -> int
    decreases cs.len() - j,
{
    if j < 0 || j >= cs.len() {
        cs.len() as int
    } else if cs[j] == '\\' && j + 1 < cs.len() {
        string_close(cs, j + 2)
    } else if cs[j] == '"' {
        j
    } else {
        string_close(cs, j + 1)
    }
}

/// The first index at or after `j` that is not a space.
pub open spec fn spaces_end(cs: Seq<char>, j: int) -> int
    decreases cs.len() - j,
{
    if 0 <= j < cs.len() && cs[j] == ' ' {
        spaces_end(cs, j + 1)
    } else {
        j
    }
}

pub open spec fn is_blank(c: char) -> bool {
    c == ' ' || c == '\t'
}

/// The first index at or after `j` that is not a blank.
pub open spec fn blanks_end(cs: Seq<char>, j: int) -> int
    decreases cs.len() - j,
{
    if 0 <= j < cs.len() && is_blank(cs[j]) {
        blanks_end(cs, j + 1)
    } else {
        j
    }
}

/// The characters that end a number, boolean or null.
pub open spec fn ends_scalar(c: char) -> bool {
    c == ',' || c == '}' || c == ']' || c == ' ' || c == '\t' || c == '\n'
}

/// The first index at or after `j` that ends a number, boolean or null.
pub open spec fn scalar_end(cs: Seq<char>, j: int) -> int
    decreases cs.len() - j,
{
    if 0 <= j < cs.len() && !ends_scalar(cs[j]) {
        scalar_end(cs, j + 1)
    } else {
        j
    }
}

pub open spec fn is_json_punct(c: char) -> bool {
    c == '{' || c == '}' || c == '[' || c == ']' || c == ':' || c == ','
}

/// The tone of the piece of JSON that starts at `i`, and where it ends.
pub open spec fn json_piece(cs: Seq<char>, i: int) -> (Tone, int) {
    let c = cs[i];
    if c == '"' {
        let q = string_close(cs, i + 1);
        let next = if q < cs.len() {
            q + 1
        } else {
            cs.len() as int
        };
        let k = spaces_end(cs, next);
        (if k < cs.len() && cs[k] == ':' {
            Tone::Key
        } else {
            Tone::Str
        }, next)
    } else if is_json_punct(c) {
        (Tone::Punct, i + 1)
    } else if is_blank(c) {
        (Tone::Blank, blanks_end(cs, i))
    } else {
        (Tone::Scalar, scalar_end(cs, i))
    }
}

/// The pieces of a line of JSON from index `i` on.
pub open spec fn json_pieces(cs: Seq<char>, i: int) -> Seq<(Tone, Seq<char>)>
    decreases cs.len() - i,
{
    if i < 0 || i >= cs.len() {
        seq![]
    } else {
        let (t, next) = json_piece(cs, i);
        if next <= i || next > cs.len() {
            seq![]
        } else {
            seq![(t, cs.subrange(i, next))] + json_pieces(cs, next)
        }
    }
}

proof fn lemma_string_close(cs: Seq<char>, j: int)
    requires
        0 <= j,
    ensures
        j <= string_close(cs, j) || string_close(cs, j) == cs.len(),
        string_close(cs, j) <= cs.len(),
    decreases cs.len() - j,
{
    if j < cs.len() {
        if cs[j] == '\\' && j + 1 < cs.len() {
            lemma_string_close(cs, j + 2);
        } else if cs[j] != '"' {
            lemma_string_close(cs, j + 1);
        }
    }
}

proof fn lemma_blanks_end(cs: Seq<char>, j: int)
    requires
        0 <= j <= cs.len(),
    ensures
        j <= blanks_end(cs, j) <= cs.len(),
    decreases cs.len() - j,
{
    if j < cs.len() && is_blank(cs[j]) {
        lemma_blanks_end(cs, j + 1);
    }
}

proof fn lemma_scalar_end(cs: Seq<char>, j: int)
    requires
        0 <= j <= cs.len(),
    ensures
        j <= scalar_end(cs, j) <= cs.len(),
    decreases cs.len() - j,
{
    if j < cs.len() && !ends_scalar(cs[j]) {
        lemma_scalar_end(cs, j + 1);
    }
}

/// In a line without a line break every piece moves on, and stays inside
/// the line.
proof fn lemma_json_piece_moves(cs: Seq<char>, i: int)
    requires
        0 <= i < cs.len(),
        cs[i] != '\n',
    ensures
        i < json_piece(cs, i).1 <= cs.len(),
{
    let c = cs[i];
    if c == '"' {
        lemma_string_close(cs, i + 1);
    } else if is_json_punct(c) {
    } else if is_blank(c) {
        lemma_blanks_end(cs, i + 1);
    } else {
        lemma_scalar_end(cs, i + 1);
    }
}

/// The pieces of a line of JSON give back the line, character for
/// character.
pub proof fn lemma_json_pieces_join(cs: Seq<char>, i: int)
    requires
        0 <= i <= cs.len(),
        forall|k: int| 0 <= k < cs.len() ==> cs[k] != '\n',
    ensures
        joined(json_pieces(cs, i)) == cs.subrange(i, cs.len() as int),
        forall|k: int| 0 <= k < json_pieces(cs, i).len() ==> #[trigger] json_pieces(cs, i)[k].1.len() > 0,
    decreases cs.len() - i,
{
    if i < cs.len() {
        lemma_json_piece_moves(cs, i);
        let (t, next) = json_piece(cs, i);
        lemma_json_pieces_join(cs, next);
        let ps = json_pieces(cs, i);
        assert(ps.drop_first() =~= json_pieces(cs, next));
        assert(cs.subrange(i, next) + cs.subrange(next, cs.len() as int) =~= cs.subrange(
            i,
            cs.len() as int,
        ));
        assert forall|k: int| 0 <= k < ps.len() implies #[trigger] ps[k].1.len() > 0 by {
            if k > 0 {
                assert(ps[k] == json_pieces(cs, next)[k - 1]);
            }
        }
    } else {
        assert(cs.subrange(i, cs.len() as int) =~= Seq::<char>::empty());
    }
}

fn close_of_string(cs: &Vec<char>, j: usize) -> (r: usize)
    requires
        j <= cs@.len(),
    ensures
        r == string_close(cs@, j as int),
{
    let mut k = j;
    while k < cs.len()
        invariant
            j <= k <= cs@.len(),
            string_close(cs@, k as int) == string_close(cs@, j as int),
        decreases cs.len() - k,
    {
        if cs[k] == '\\' && k + 1 < cs.len() {
            k = k + 2;
        } else if cs[k] == '"' {
            return k;
        } else {
            k = k + 1;
        }
    }
    cs.len()
}

fn end_of_spaces(cs: &Vec<char>, j: usize) -> (r: usize)
    requires
        j <= cs@.len(),
    ensures
        r == spaces_end(cs@, j as int),
{
    let mut k = j;
    while k < cs.len() && cs[k] == ' '
        invariant
            j <= k <= cs@.len(),
            spaces_end(cs@, k as int) == spaces_end(cs@, j as int),
        decreases cs.len() - k,
    {
        k = k + 1;
    }
    k
}

fn end_of_blanks(cs: &Vec<char>, j: usize) -> (r: usize)
    requires
        j <= cs@.len(),
    ensures
        r == blanks_end(cs@, j as int),
{
    let mut k = j;
    while k < cs.len() && (cs[k] == ' ' || cs[k] == '\t')
        invariant
            j <= k <= cs@.len(),
            blanks_end(cs@, k as int) == blanks_end(cs@, j as int),
        decreases cs.len() - k,
    {
        k = k + 1;
    }
    k
}

fn end_of_scalar(cs: &Vec<char>, j: usize) -> (r: usize)
    requires
        j <= cs@.len(),
    ensures
        r == scalar_end(cs@, j as int),
{
    let mut k = j;
    while k < cs.len() && !(cs[k] == ',' || cs[k] == '}' || cs[k] == ']' || cs[k] == ' ' || cs[k] == '\t'
        || cs[k] == '\n')
        invariant
            j <= k <= cs@.len(),
            scalar_end(cs@, k as int) == scalar_end(cs@, j as int),
        decreases cs.len() - k,
    {
        k = k + 1;
    }
    k
}

fn json_piece_at(cs: &Vec<char>, i: usize) -> (r: (Tone, usize))
    requires
        i < cs@.len(),
    ensures
        (r.0, r.1 as int) == json_piece(cs@, i as int),
{
    let n = cs.len();
    let c = cs[i];
    if c == '"' {
        let q = close_of_string(cs, i + 1);
        proof {
            lemma_string_close(cs@, i + 1);
        }
        let next = if q < cs.len() {
            q + 1
        } else {
            cs.len()
        };
        let k = end_of_spaces(cs, next);
        if k < cs.len() && cs[k] == ':' {
            (Tone::Key, next)
        } else {
            (Tone::Str, next)
        }
    } else if c == '{' || c == '}' || c == '[' || c == ']' || c == ':' || c == ',' {
        (Tone::Punct, i + 1)
    } else if c == ' ' || c == '\t' {
        (Tone::Blank, end_of_blanks(cs, i))
    } else {
        (Tone::Scalar, end_of_scalar(cs, i))
    }
}

/// The pieces of one line of JSON.
fn json_line(line: &str) -> (r: Vec<Piece>)
    requires
        forall|k: int| 0 <= k < line@.len() ==> line@[k] != '\n',
    ensures
        pieces_view(r@) == json_pieces(line@, 0),
{
    let cs = chars_of(line);
    let mut out: Vec<Piece> = Vec::new();
    let mut i: usize = 0;
    while i < cs.len()
        invariant
            cs@ == line@,
            forall|k: int| 0 <= k < cs@.len() ==> cs@[k] != '\n',
            i <= cs@.len(),
            pieces_view(out@) + json_pieces(cs@, i as int) == json_pieces(cs@, 0),
        decreases cs.len() - i,
    {
        proof {
            lemma_json_piece_moves(cs@, i as int);
        }
        let (t, next) = json_piece_at(&cs, i);
        let ghost before = out@;
        let piece = Piece { tone: t, text: string_of_range(&cs, i, next) };
        out.push(piece);
        assert(pieces_view(out@) =~= pieces_view(before).push((t, cs@.subrange(i as int, next as int))));
        assert(json_pieces(cs@, i as int) == seq![(t, cs@.subrange(i as int, next as int))] + json_pieces(
            cs@,
            next as int,
        ));
        assert(pieces_view(before) + json_pieces(cs@, i as int) =~= pieces_view(out@) + json_pieces(
            cs@,
            next as int,
        ));
        i = next;
    }
    assert(pieces_view(out@) + json_pieces(cs@, i as int) =~= pieces_view(out@));
    out
}

// ---------------------------------------------------------------------------
// Lines
// ---------------------------------------------------------------------------

proof fn lemma_run_unbroken(s: Seq<char>)
    ensures
        forall|l: int, k: int|
            0 <= l < lines_run(s).0.len() && 0 <= k < lines_run(s).0[l].len() ==> lines_run(s).0[l][k]
                != '\n',
        forall|k: int| 0 <= k < lines_run(s).1.len() ==> lines_run(s).1[k] != '\n',
    decreases s.len(),
{
    if s.len() > 0 {
        lemma_run_unbroken(s.drop_last());
        let (done, cur) = lines_run(s.drop_last());
        if s.last() == '\n' {
            let line = strip_cr(cur);
            assert forall|k: int| 0 <= k < line.len() implies line[k] != '\n' by {
                assert(line[k] == cur[k]);
            }
            assert forall|l: int, k: int|
                0 <= l < done.push(line).len() && 0 <= k < done.push(line)[l].len() implies done.push(
                line,
            )[l][k] != '\n' by {
                if l < done.len() {
                    assert(done.push(line)[l] == done[l]);
                }
            }
        }
    }
}

/// No line of `s` holds a line break.
pub proof fn lemma_lines_unbroken(s: Seq<char>)
    ensures
        forall|l: int, k: int|
            0 <= l < text_lines(s).len() && 0 <= k < text_lines(s)[l].len() ==> text_lines(s)[l][k]
                != '\n',
{
    lemma_run_unbroken(s);
    let (done, cur) = lines_run(s);
    if cur.len() > 0 {
        assert forall|l: int, k: int|
            0 <= l < done.push(cur).len() && 0 <= k < done.push(cur)[l].len() implies done.push(cur)[l][k]
                != '\n' by {
            if l < done.len() {
                assert(done.push(cur)[l] == done[l]);
            }
        }
    }
}

/// The lines of `text`, as `str::lines` gives them.
pub fn lines_of(text: &str) -> (r: Vec<String>)
    ensures
        texts_view(r@) == text_lines(text@),
{
    let cs = chars_of(text);
    let mut out: Vec<String> = Vec::new();
    let mut cur: Vec<char> = Vec::new();
    let mut i: usize = 0;
    assert(cs@.take(0) =~= Seq::<char>::empty());
    while i < cs.len()
        invariant
            cs@ == text@,
            i <= cs@.len(),
            lines_run(cs@.take(i as int)).1 == cur@,
            lines_run(cs@.take(i as int)).0 == texts_view(out@),
        decreases cs.len() - i,
    {
        let ghost before = cs@.take(i as int);
        assert(cs@.take(i + 1).drop_last() =~= before);
        assert(cs@.take(i + 1).last() == cs@[i as int]);
        let c = cs[i];
        if c == '\n' {
            let line = if cur.len() > 0 && cur[cur.len() - 1] == '\r' {
                string_of_range(&cur, 0, cur.len() - 1)
            } else {
                string_of(&cur)
            };
            assert(line@ == strip_cr(cur@)) by {
                if cur@.len() > 0 && cur@.last() == '\r' {
                    assert(cur@.subrange(0, cur@.len() - 1) =~= cur@.drop_last());
                }
            }
            let ghost old_out = out@;
            out.push(line);
            assert(texts_view(out@) =~= texts_view(old_out).push(line@));
            cur = Vec::new();
        } else {
            cur.push(c);
        }
        i = i + 1;
    }
    assert(cs@.take(cs@.len() as int) =~= cs@);
    if cur.len() > 0 {
        let line = string_of(&cur);
        let ghost old_out = out@;
        out.push(line);
        assert(texts_view(out@) =~= texts_view(old_out).push(line@));
    }
    out
}

/// The pieces of a line, each line of `text` taken as JSON.
pub open spec fn json_text(text: Seq<char>) -> Seq<Seq<(Tone, Seq<char>)>> {
    text_lines(text).map_values(|l: Seq<char>| json_pieces(l, 0))
}

pub open spec fn lines_view(v: Seq<Vec<Piece>>) -> Seq<Seq<(Tone, Seq<char>)>> {
    v.map_values(|l: Vec<Piece>| pieces_view(l@))
}

/// `text` as pretty-printed JSON is shown: each line cut into keys,
/// strings, numbers, punctuation and blanks. Nothing is lost or added:
/// the pieces of each line give back the line.
pub fn highlight_json(text: &str) -> (r: Vec<Vec<Piece>>)
    ensures
        lines_view(r@) == json_text(text@),
        forall|l: int| 0 <= l < r@.len() ==> joined(#[trigger] lines_view(r@)[l]) == text_lines(text@)[l],
        forall|l: int, k: int|
            0 <= l < r@.len() && 0 <= k < lines_view(r@)[l].len() ==> lines_view(r@)[l][k].1.len() > 0,
{
    let lines = lines_of(text);
    proof {
        lemma_lines_unbroken(text@);
    }
    let mut out: Vec<Vec<Piece>> = Vec::new();
    let mut i: usize = 0;
    while i < lines.len()
        invariant
            texts_view(lines@) == text_lines(text@),
            i <= lines@.len(),
            lines_view(out@) == json_text(text@).take(i as int),
            forall|l: int, k: int|
                0 <= l < text_lines(text@).len() && 0 <= k < text_lines(text@)[l].len() ==> text_lines(
                    text@,
                )[l][k] != '\n',
        decreases lines.len() - i,
    {
        assert(lines@[i as int]@ == text_lines(text@)[i as int]);
        let pieces = json_line(lines[i].as_str());
        let ghost old_out = out@;
        out.push(pieces);
        assert(lines_view(out@) =~= json_text(text@).take(i + 1)) by {
            assert(lines_view(out@) =~= lines_view(old_out).push(pieces_view(pieces@)));
        }
        i = i + 1;
    }
    assert(json_text(text@).take(lines@.len() as int) =~= json_text(text@));
    proof {
        assert forall|l: int| 0 <= l < out@.len() implies joined(#[trigger] lines_view(out@)[l])
            == text_lines(text@)[l] by {
            lemma_json_pieces_join(text_lines(text@)[l], 0);
            assert(text_lines(text@)[l].subrange(0, text_lines(text@)[l].len() as int) =~= text_lines(
                text@,
            )[l]);
        }
        assert forall|l: int, k: int|
            0 <= l < out@.len() && 0 <= k < lines_view(out@)[l].len() implies lines_view(out@)[l][k].1.len()
                > 0 by {
            lemma_json_pieces_join(text_lines(text@)[l], 0);
            assert(lines_view(out@)[l] == json_pieces(text_lines(text@)[l], 0));
        }
    }
    out
}

// ---------------------------------------------------------------------------
// XML
// ---------------------------------------------------------------------------

/// The first index at or after `j` holding `c`, or the end of the line.
pub open spec fn index_from(cs: Seq<char>, c: char, j: int) -> int
    decreases cs.len() - j,
{
    if 0 <= j < cs.len() && cs[j] != c {
        index_from(cs, c, j + 1)
    } else {
        j
    }
}

/// `s` without its leading `c` characters (`str::trim_start_matches`).
pub open spec fn drop_front(s: Seq<char>, c: char) -> Seq<char>
    decreases s.len(),
{
    if s.len() > 0 && s[0] == c {
        drop_front(s.drop_first(), c)
    } else {
        s
    }
}

/// `s` without its trailing `c` characters (`str::trim_end_matches`).
pub open spec fn drop_back(s: Seq<char>, c: char) -> Seq<char>
    decreases s.len(),
{
    if s.len() > 0 && s.last() == c {
        drop_back(s.drop_last(), c)
    } else {
        s
    }
}

/// The first index at or after `j` holding whitespace, or the end.
pub open spec fn white_from(s: Seq<char>, j: int) -> int
    decreases s.len() - j,
{
    if 0 <= j < s.len() && !is_white(s[j]) {
        white_from(s, j + 1)
    } else {
        j
    }
}

/// A tag without its angle brackets and closing slash.
pub open spec fn tag_inner(tag: Seq<char>) -> Seq<char> {
    drop_back(drop_back(drop_front(tag, '<'), '>'), '/')
}

/// A tag shown as `<`, its name, its attributes after a blank (when there
/// is whitespace after the name) and `/>` or `>`.
pub open spec fn tag_pieces(tag: Seq<char>) -> Seq<(Tone, Seq<char>)> {
    let inner = tag_inner(tag);
    let w = white_from(inner, 0);
    let close = if tag.len() >= 2 && tag[tag.len() - 2] == '/' && tag.last() == '>' {
        seq!['/', '>']
    } else {
        seq!['>']
    };
    seq![(Tone::Angle, seq!['<']), (Tone::TagName, inner.take(w))] + (if w < inner.len() {
        seq![(Tone::Attrs, seq![' '] + inner.skip(w + 1))]
    } else {
        seq![]
    }) + seq![(Tone::Angle, close)]
}

/// The pieces of a line of XML from index `i` on: each tag (up to its `>`,
/// or the end of the line) and the text between tags.
pub open spec fn xml_pieces(cs: Seq<char>, i: int) -> Seq<(Tone, Seq<char>)>
    decreases cs.len() - i,
{
    if i < 0 || i >= cs.len() {
        seq![]
    } else if cs[i] == '<' {
        let k = index_from(cs, '>', i);
        let next = if k < cs.len() {
            k + 1
        } else {
            cs.len() as int
        };
        if next <= i {
            seq![]
        } else {
            tag_pieces(cs.subrange(i, next)) + xml_pieces(cs, next)
        }
    } else {
        let next = index_from(cs, '<', i);
        if next <= i || next > cs.len() {
            seq![]
        } else {
            seq![(Tone::Content, cs.subrange(i, next))] + xml_pieces(cs, next)
        }
    }
}

proof fn lemma_index_from(cs: Seq<char>, c: char, j: int)
    requires
        0 <= j <= cs.len(),
    ensures
        j <= index_from(cs, c, j) <= cs.len(),
        index_from(cs, c, j) < cs.len() ==> cs[index_from(cs, c, j)] == c,
    decreases cs.len() - j,
{
    if j < cs.len() && cs[j] != c {
        lemma_index_from(cs, c, j + 1);
    }
}

fn index_of_from(cs: &Vec<char>, c: char, j: usize) -> (r: usize)
    requires
        j <= cs@.len(),
    ensures
        r == index_from(cs@, c, j as int),
{
    let mut k = j;
    while k < cs.len() && cs[k] != c
        invariant
            j <= k <= cs@.len(),
            index_from(cs@, c, k as int) == index_from(cs@, c, j as int),
        decreases cs.len() - k,
    {
        k = k + 1;
    }
    k
}

/// Where `cs[from..to]` starts once its leading `c` are dropped.
fn front_run(cs: &Vec<char>, from: usize, to: usize, c: char) -> (r: usize)
    requires
        from <= to <= cs@.len(),
    ensures
        from <= r <= to,
        cs@.subrange(r as int, to as int) == drop_front(cs@.subrange(from as int, to as int), c),
{
    let mut k = from;
    while k < to && cs[k] == c
        invariant
            from <= k <= to <= cs@.len(),
            drop_front(cs@.subrange(k as int, to as int), c) == drop_front(
                cs@.subrange(from as int, to as int),
                c,
            ),
        decreases to - k,
    {
        assert(cs@.subrange(k as int, to as int).drop_first() =~= cs@.subrange(k + 1, to as int));
        k = k + 1;
    }
    k
}

/// Where `cs[from..to]` ends once its trailing `c` are dropped.
fn back_run(cs: &Vec<char>, from: usize, to: usize, c: char) -> (r: usize)
    requires
        from <= to <= cs@.len(),
    ensures
        from <= r <= to,
        cs@.subrange(from as int, r as int) == drop_back(cs@.subrange(from as int, to as int), c),
{
    let mut k = to;
    while k > from && cs[k - 1] == c
        invariant
            from <= k <= to <= cs@.len(),
            drop_back(cs@.subrange(from as int, k as int), c) == drop_back(
                cs@.subrange(from as int, to as int),
                c,
            ),
        decreases k - from,
    {
        assert(cs@.subrange(from as int, k as int).drop_last() =~= cs@.subrange(from as int, k - 1));
        k = k - 1;
    }
    k
}

/// The first whitespace in `cs[from..to]`, as an index of `cs`, or `to`.
fn white_run(cs: &Vec<char>, from: usize, to: usize) -> (r: usize)
    requires
        from <= to <= cs@.len(),
    ensures
        from <= r <= to,
        r - from == white_from(cs@.subrange(from as int, to as int), 0),
{
    let ghost s = cs@.subrange(from as int, to as int);
    let mut k = from;
    while k < to
        invariant
            from <= k <= to <= cs@.len(),
            s == cs@.subrange(from as int, to as int),
            white_from(s, k - from) == white_from(s, 0),
        decreases to - k,
    {
        assert(s[k - from] == cs@[k as int]);
        if is_whitespace(cs[k]) {
            return k;
        }
        k = k + 1;
    }
    k
}

/// The pieces of the tag `cs[i..next]`, put after `out`.
fn push_tag(out: &mut Vec<Piece>, cs: &Vec<char>, i: usize, next: usize)
    requires
        i < next <= cs@.len(),
    ensures
        pieces_view(final(out)@) == pieces_view(old(out)@) + tag_pieces(cs@.subrange(i as int, next as int)),
{
    let ghost tag = cs@.subrange(i as int, next as int);
    let a = front_run(cs, i, next, '<');
    let b = back_run(cs, a, next, '>');
    let e = back_run(cs, a, b, '/');
    assert(cs@.subrange(a as int, e as int) == tag_inner(tag));
    let ghost inner = cs@.subrange(a as int, e as int);
    let w = white_run(cs, a, e);
    let ghost start = pieces_view(out@);
    let ghost wi = white_from(inner, 0);
    assert(w - a == wi);
    let mut lt = String::new();
    push_char(&mut lt, '<');
    assert(lt@ =~= seq!['<']);
    out.push(Piece { tone: Tone::Angle, text: lt });
    let name = string_of_range(cs, a, w);
    assert(inner.take(wi) =~= name@);
    out.push(Piece { tone: Tone::TagName, text: name });
    let ghost attrs_part: Seq<(Tone, Seq<char>)> = if wi < inner.len() {
        seq![(Tone::Attrs, seq![' '] + inner.skip(wi + 1))]
    } else {
        seq![]
    };
    assert(pieces_view(out@) =~= start + seq![(Tone::Angle, seq!['<']), (Tone::TagName, inner.take(wi))]);
    if w < e {
        let mut attrs = String::new();
        push_char(&mut attrs, ' ');
        let rest = string_of_range(cs, w + 1, e);
        push_str(&mut attrs, rest.as_str());
        assert(attrs@ =~= seq![' '] + inner.skip(wi + 1));
        let ghost before = pieces_view(out@);
        out.push(Piece { tone: Tone::Attrs, text: attrs });
        assert(pieces_view(out@) =~= before + attrs_part);
    } else {
        assert(pieces_view(out@) =~= pieces_view(out@) + attrs_part);
    }
    assert(pieces_view(out@) =~= start + seq![(Tone::Angle, seq!['<']), (Tone::TagName, inner.take(wi))]
        + attrs_part);
    let self_closing = next - i >= 2 && cs[next - 2] == '/' && cs[next - 1] == '>';
    assert(self_closing == (tag.len() >= 2 && tag[tag.len() - 2] == '/' && tag.last() == '>'));
    let mut close = String::new();
    if self_closing {
        push_char(&mut close, '/');
    }
    push_char(&mut close, '>');
    let ghost close_text: Seq<char> = if self_closing {
        seq!['/', '>']
    } else {
        seq!['>']
    };
    assert(close@ =~= close_text);
    let ghost before_close = pieces_view(out@);
    out.push(Piece { tone: Tone::Angle, text: close });
    assert(pieces_view(out@) =~= before_close + seq![(Tone::Angle, close_text)]);
    assert(pieces_view(out@) =~= start + tag_pieces(tag));
}

/// The pieces of one line of XML.
fn xml_line(line: &str) -> (r: Vec<Piece>)
    ensures
        pieces_view(r@) == xml_pieces(line@, 0),
{
    let cs = chars_of(line);
    let mut out: Vec<Piece> = Vec::new();
    let mut i: usize = 0;
    while i < cs.len()
        invariant
            cs@ == line@,
            i <= cs@.len(),
            pieces_view(out@) + xml_pieces(cs@, i as int) == xml_pieces(cs@, 0),
        decreases cs.len() - i,
    {
        let ghost before = pieces_view(out@);
        if cs[i] == '<' {
            let k = index_of_from(&cs, '>', i);
            proof {
                lemma_index_from(cs@, '>', i as int);
            }
            let next = if k < cs.len() {
                k + 1
            } else {
                cs.len()
            };
            push_tag(&mut out, &cs, i, next);
            assert(xml_pieces(cs@, i as int) == tag_pieces(cs@.subrange(i as int, next as int)) + xml_pieces(
                cs@,
                next as int,
            ));
            assert(before + xml_pieces(cs@, i as int) =~= pieces_view(out@) + xml_pieces(cs@, next as int));
            i = next;
        } else {
            let next = index_of_from(&cs, '<', i);
            proof {
                lemma_index_from(cs@, '<', i + 1);
            }
            assert(next > i);
            out.push(Piece { tone: Tone::Content, text: string_of_range(&cs, i, next) });
            assert(pieces_view(out@) =~= before.push((Tone::Content, cs@.subrange(i as int, next as int))));
            assert(xml_pieces(cs@, i as int) == seq![(Tone::Content, cs@.subrange(i as int, next as int))]
                + xml_pieces(cs@, next as int));
            assert(before + xml_pieces(cs@, i as int) =~= pieces_view(out@) + xml_pieces(cs@, next as int));
            i = next;
        }
    }
    assert(pieces_view(out@) + xml_pieces(cs@, i as int) =~= pieces_view(out@));
    out
}

/// The pieces of each line of `text` taken as XML.
pub open spec fn xml_text(text: Seq<char>) -> Seq<Seq<(Tone, Seq<char>)>> {
    text_lines(text).map_values(|l: Seq<char>| xml_pieces(l, 0))
}

/// `text` as pretty-printed XML is shown: each tag cut into its brackets,
/// its name and its attributes, and the text between tags.
pub fn highlight_xml(text: &str) -> (r: Vec<Vec<Piece>>)
    ensures
        lines_view(r@) == xml_text(text@),
{
    let lines = lines_of(text);
    let mut out: Vec<Vec<Piece>> = Vec::new();
    let mut i: usize = 0;
    while i < lines.len()
        invariant
            texts_view(lines@) == text_lines(text@),
            i <= lines@.len(),
            lines_view(out@) == xml_text(text@).take(i as int),
        decreases lines.len() - i,
    {
        assert(lines@[i as int]@ == text_lines(text@)[i as int]);
        let pieces = xml_line(lines[i].as_str());
        let ghost old_out = out@;
        out.push(pieces);
        assert(lines_view(out@) =~= xml_text(text@).take(i + 1)) by {
            assert(lines_view(out@) =~= lines_view(old_out).push(pieces_view(pieces@)));
        }
        i = i + 1;
    }
    assert(xml_text(text@).take(lines@.len() as int) =~= xml_text(text@));
    out
}

/// Each line of `text` as one piece, in the tone of plain text.
pub open spec fn plain_text(text: Seq<char>) -> Seq<Seq<(Tone, Seq<char>)>> {
    text_lines(text).map_values(|l: Seq<char>| seq![(Tone::Body, l)])
}

/// `text` shown without highlighting: one piece a line.
pub fn plain_lines(text: &str) -> (r: Vec<Vec<Piece>>)
    ensures
        lines_view(r@) == plain_text(text@),
{
    let lines = lines_of(text);
    let mut out: Vec<Vec<Piece>> = Vec::new();
    let mut i: usize = 0;
    while i < lines.len()
        invariant
            texts_view(lines@) == text_lines(text@),
            i <= lines@.len(),
            lines_view(out@) == plain_text(text@).take(i as int),
        decreases lines.len() - i,
    {
        assert(lines@[i as int]@ == text_lines(text@)[i as int]);
        let mut line: Vec<Piece> = Vec::new();
        line.push(Piece { tone: Tone::Body, text: lines[i].clone() });
        assert(pieces_view(line@) =~= seq![(Tone::Body, text_lines(text@)[i as int])]);
        let ghost old_out = out@;
        out.push(line);
        assert(lines_view(out@) =~= plain_text(text@).take(i + 1)) by {
            assert(lines_view(out@) =~= lines_view(old_out).push(pieces_view(line@)));
        }
        i = i + 1;
    }
    assert(plain_text(text@).take(lines@.len() as int) =~= plain_text(text@));
    out
}

/// The payload as the detail screen colours it: JSON or XML by the format
/// that pretty-printing found, anything else as plain text.
pub open spec fn styled_spec(text: Seq<char>, format: Seq<char>) -> Seq<Seq<(Tone, Seq<char>)>> {
    if format == seq!['j', 's', 'o', 'n'] {
        json_text(text)
    } else if format == seq!['x', 'm', 'l'] {
        xml_text(text)
    } else {
        plain_text(text)
    }
}

/// The payload as the detail screen colours it.
pub fn styled_payload(text: &str, format: &str) -> (r: Vec<Vec<Piece>>)
    ensures
        lines_view(r@) == styled_spec(text@, format@),
{
    let f = chars_of(format);
    if f.len() == 4 && f[0] == 'j' && f[1] == 's' && f[2] == 'o' && f[3] == 'n' {
        assert(format@ =~= seq!['j', 's', 'o', 'n']);
        highlight_json(text)
    } else if f.len() == 3 && f[0] == 'x' && f[1] == 'm' && f[2] == 'l' {
        assert(format@ =~= seq!['x', 'm', 'l']);
        assert(format@ != seq!['j', 's', 'o', 'n']);
        highlight_xml(text)
    } else {
        assert(format@ != seq!['j', 's', 'o', 'n']) by {
            if format@ == seq!['j', 's', 'o', 'n'] {
                assert(f@.len() == 4);
            }
        }
        assert(format@ != seq!['x', 'm', 'l']) by {
            if format@ == seq!['x', 'm', 'l'] {
                assert(f@.len() == 3);
            }
        }
        plain_lines(text)
    }
}

// ---------------------------------------------------------------------------
// Search hits
// ---------------------------------------------------------------------------

/// How a piece is drawn once the search has marked its hits.
#[derive(Debug, Clone, Copy, PartialEq, Eq, Structural)]
pub enum Mark {
    /// As before.
    Plain,
    /// As before, on the screen's background (the line of the current hit).
    Backed,
    /// A hit on another line than the current hit's.
    Hit,
    /// A hit on the line of the current hit.
    CurrentHit,
}

/// A piece of a line, its tone and its mark.
#[derive(Debug)]
pub struct Painted {
    pub tone: Tone,
    pub mark: Mark,
    pub text: String,
}

pub open spec fn painted_view(ps: Seq<Painted>) -> Seq<(Tone, Mark, Seq<char>)> {
    ps.map_values(|p: Painted| (p.tone, p.mark, p.text@))
}

pub open spec fn painted_lines_view(v: Seq<Vec<Painted>>) -> Seq<Seq<(Tone, Mark, Seq<char>)>> {
    v.map_values(|l: Vec<Painted>| painted_view(l@))
}

pub open spec fn rest_mark(current: bool) -> Mark {
    if current {
        Mark::Backed
    } else {
        Mark::Plain
    }
}

pub open spec fn hit_mark(current: bool) -> Mark {
    if current {
        Mark::CurrentHit
    } else {
        Mark::Hit
    }
}

/// The pieces of `content` from `last` on: the hits of `q` found in its
/// lower-case form `lower`, one after the other, and the text around them.
pub open spec fn hit_pieces(
    t: Tone,
    content: Seq<char>,
    lower: Seq<char>,
    q: Seq<char>,
    last: int,
    current: bool,
) -> Seq<(Tone, Mark, Seq<char>)>
    decreases content.len() - last,
{
    if q.len() == 0 || last < 0 || last > content.len() {
        seq![]
    } else {
        match find_from(lower, q, last) {
            Some(abs) => if abs < last || abs + q.len() > content.len() {
                seq![]
            } else {
                (if abs > last {
                    seq![(t, rest_mark(current), content.subrange(last, abs))]
                } else {
                    seq![]
                }) + seq![(t, hit_mark(current), content.subrange(abs, abs + q.len()))] + hit_pieces(
                    t,
                    content,
                    lower,
                    q,
                    abs + q.len(),
                    current,
                )
            },
            None => if last < content.len() {
                seq![(t, rest_mark(current), content.subrange(last, content.len() as int))]
            } else if last == 0 {
                seq![(t, Mark::Plain, content)]
            } else {
                seq![]
            },
        }
    }
}

/// One piece on a line with a hit, searched for the lower-case query `q`.
/// Hits are found in the piece's lower-case form and cut out of the piece
/// at the same places; a piece whose lower-case form has another length
/// is left whole.
pub open spec fn span_pieces(t: Tone, content: Seq<char>, q: Seq<char>, current: bool) -> Seq<
    (Tone, Mark, Seq<char>),
> {
    let lower = lowercase(content);
    if lower.len() != content.len() {
        seq![(t, Mark::Plain, content)]
    } else {
        hit_pieces(t, content, lower, q, 0, current)
    }
}

/// A line after the search: on a line with a hit each piece is cut around
/// its hits, other lines stay as they were.
pub open spec fn search_line(line: Seq<(Tone, Seq<char>)>, q: Seq<char>, hit_line: bool, current: bool) -> Seq<
    (Tone, Mark, Seq<char>),
>
    decreases line.len(),
{
    if line.len() == 0 {
        seq![]
    } else {
        search_line(line.drop_last(), q, hit_line, current) + if hit_line {
            span_pieces(line.last().0, line.last().1, q, current)
        } else {
            seq![(line.last().0, Mark::Plain, line.last().1)]
        }
    }
}

/// The lines after a search for `query`: a line is marked when its number
/// (in 16 bits) is among `matches`, and is the current one when it is the
/// number at `current` in `matches`.
pub open spec fn search_marks(
    lines: Seq<Seq<(Tone, Seq<char>)>>,
    query: Seq<char>,
    matches: Seq<u16>,
    current: int,
) -> Seq<Seq<(Tone, Mark, Seq<char>)>> {
    let q = lowercase(query);
    Seq::new(
        lines.len(),
        |l: int|
            search_line(
                lines[l],
                q,
                q.len() > 0 && matches.contains(l as u16),
                0 <= current < matches.len() && matches[current] == l as u16,
            ),
    )
}

/// Puts the pieces of `content` after `out`, cut around the hits of `lq`.
fn push_span_hits(out: &mut Vec<Painted>, t: Tone, content: &String, lq: &Vec<char>, current: bool)
    requires
        lq@.len() > 0,
    ensures
        painted_view(final(out)@) == painted_view(old(out)@) + span_pieces(t, content@, lq@, current),
{
    let ghost start = painted_view(out@);
    let lower = to_lower(content.as_str());
    let cv = chars_of(content.as_str());
    let lv = chars_of(lower.as_str());
    if lv.len() != cv.len() {
        out.push(Painted { tone: t, mark: Mark::Plain, text: content.clone() });
        assert(painted_view(out@) =~= start + span_pieces(t, content@, lq@, current));
        return;
    }
    let ghost q = lq@;
    let ghost whole = hit_pieces(t, cv@, lv@, q, 0, current);
    let lv_len = lv.len();
    let mut last: usize = 0;
    let mut done = false;
    let rest = if current {
        Mark::Backed
    } else {
        Mark::Plain
    };
    let hit = if current {
        Mark::CurrentHit
    } else {
        Mark::Hit
    };
    while !done
        invariant
            cv@ == content@,
            lv@ == lowercase(content@),
            lv@.len() == cv@.len(),
            lv_len == lv@.len(),
            q == lq@,
            q.len() > 0,
            rest == rest_mark(current),
            hit == hit_mark(current),
            last <= cv@.len(),
            whole == hit_pieces(t, cv@, lv@, q, 0, current),
            painted_view(out@) + (if done {
                seq![]
            } else {
                hit_pieces(t, cv@, lv@, q, last as int, current)
            }) == start + whole,
        decreases cv@.len() - last + (if done {
            0int
        } else {
            1int
        }),
    {
        let ghost before = painted_view(out@);
        proof {
            lemma_find_from(lv@, q, last as int);
        }
        match find_chars_from(&lv, lq, last) {
            Some(abs) => {
                if abs > last {
                    out.push(Painted { tone: t, mark: rest, text: string_of_range(&cv, last, abs) });
                }
                let ghost mid = painted_view(out@);
                out.push(Painted { tone: t, mark: hit, text: string_of_range(&cv, abs, abs + lq.len()) });
                let ghost pre: Seq<(Tone, Mark, Seq<char>)> = if abs > last {
                    seq![(t, rest, cv@.subrange(last as int, abs as int))]
                } else {
                    seq![]
                };
                assert(mid =~= before + pre);
                assert(painted_view(out@) =~= before + pre + seq![
                    (t, hit, cv@.subrange(abs as int, abs + q.len())),
                ]);
                assert(hit_pieces(t, cv@, lv@, q, last as int, current) == pre + seq![
                    (t, hit, cv@.subrange(abs as int, abs + q.len())),
                ] + hit_pieces(t, cv@, lv@, q, abs + q.len(), current));
                last = abs + lq.len();
            },
            None => {
                if last < cv.len() {
                    out.push(Painted { tone: t, mark: rest, text: string_of_range(&cv, last, cv.len()) });
                    assert(painted_view(out@) =~= before + seq![
                        (t, rest, cv@.subrange(last as int, cv@.len() as int)),
                    ]);
                } else if last == 0 {
                    out.push(Painted { tone: t, mark: Mark::Plain, text: content.clone() });
                    assert(painted_view(out@) =~= before + seq![(t, Mark::Plain, cv@)]);
                } else {
                    assert(painted_view(out@) =~= before + seq![]);
                }
                done = true;
            },
        }
    }
    assert(painted_view(out@) =~= start + whole);
}

/// A line after the search for the lower-case query `lq`.
fn search_one_line(line: &Vec<Piece>, lq: &Vec<char>, hit_line: bool, current: bool) -> (r: Vec<Painted>)
    requires
        lq@.len() > 0,
    ensures
        painted_view(r@) == search_line(pieces_view(line@), lq@, hit_line, current),
{
    let mut out: Vec<Painted> = Vec::new();
    let mut i: usize = 0;
    while i < line.len()
        invariant
            lq@.len() > 0,
            i <= line@.len(),
            painted_view(out@) == search_line(pieces_view(line@).take(i as int), lq@, hit_line, current),
        decreases line.len() - i,
    {
        let ghost before = painted_view(out@);
        let ghost shown = pieces_view(line@).take(i + 1);
        assert(shown.drop_last() =~= pieces_view(line@).take(i as int));
        assert(shown.last() == (line@[i as int].tone, line@[i as int].text@));
        if hit_line {
            push_span_hits(&mut out, line[i].tone, &line[i].text, lq, current);
        } else {
            out.push(Painted { tone: line[i].tone, mark: Mark::Plain, text: line[i].text.clone() });
            assert(painted_view(out@) =~= before + seq![(line@[i as int].tone, Mark::Plain, line@[i as int].text@)]);
        }
        i = i + 1;
    }
    assert(pieces_view(line@).take(line@.len() as int) =~= pieces_view(line@));
    out
}

fn holds_line(v: &Vec<u16>, n: u16) -> (r: bool)
    ensures
        r == v@.contains(n),
{
    let mut i: usize = 0;
    while i < v.len()
        invariant
            i <= v@.len(),
            forall|k: int| 0 <= k < i ==> v@[k] != n,
        decreases v.len() - i,
    {
        if v[i] == n {
            assert(v@[i as int] == n);
            return true;
        }
        i = i + 1;
    }
    false
}

/// The payload's lines with the hits of a search for `query` marked, as
/// the detail screen draws them: `matches` are the numbers of the lines
/// with a hit and `current` the position of the current hit among them.
pub fn highlight_search(lines: &Vec<Vec<Piece>>, query: &str, matches: &Vec<u16>, current: usize) -> (r: Vec<
    Vec<Painted>,
>)
    ensures
        painted_lines_view(r@) == search_marks(lines_view(lines@), query@, matches@, current as int),
{
    let lower = to_lower(query);
    let lq = chars_of(lower.as_str());
    let current_line: Option<u16> = if current < matches.len() {
        Some(matches[current])
    } else {
        None
    };
    let mut out: Vec<Vec<Painted>> = Vec::new();
    let mut i: usize = 0;
    while i < lines.len()
        invariant
            lq@ == lowercase(query@),
            i <= lines@.len(),
            current_line == (if current < matches@.len() {
                Some(matches@[current as int])
            } else {
                None
            }),
            painted_lines_view(out@) == search_marks(lines_view(lines@), query@, matches@, current as int).take(
                i as int,
            ),
        decreases lines.len() - i,
    {
        let n = i as u16;
        let hit_line = lq.len() > 0 && holds_line(matches, n);
        let is_current = current_line == Some(n);
        let ghost want = search_marks(lines_view(lines@), query@, matches@, current as int)[i as int];
        let ghost old_out = out@;
        if lq.len() > 0 {
            let painted = search_one_line(&lines[i], &lq, hit_line, is_current);
            assert(painted_view(painted@) == want);
            out.push(painted);
        } else {
            let mut painted: Vec<Painted> = Vec::new();
            let line = &lines[i];
            let mut k: usize = 0;
            while k < line.len()
                invariant
                    k <= line@.len(),
                    painted_view(painted@) == search_line(pieces_view(line@).take(k as int), lq@, false, is_current),
                decreases line.len() - k,
            {
                let ghost shown = pieces_view(line@).take(k + 1);
                assert(shown.drop_last() =~= pieces_view(line@).take(k as int));
                let ghost before = painted_view(painted@);
                painted.push(Painted { tone: line[k].tone, mark: Mark::Plain, text: line[k].text.clone() });
                assert(painted_view(painted@) =~= before + seq![(line@[k as int].tone, Mark::Plain, line@[k as int].text@)]);
                k = k + 1;
            }
            assert(pieces_view(line@).take(line@.len() as int) =~= pieces_view(line@));
            assert(painted_view(painted@) == want);
            out.push(painted);
        }
        assert(painted_lines_view(out@) =~= search_marks(lines_view(lines@), query@, matches@, current as int).take(
            i + 1,
        )) by {
            assert(painted_lines_view(out@) =~= painted_lines_view(old_out).push(want));
        }
        i = i + 1;
    }
    assert(search_marks(lines_view(lines@), query@, matches@, current as int).take(lines@.len() as int)
        =~= search_marks(lines_view(lines@), query@, matches@, current as int));
    out
}

/// The text of painted pieces, one after the other.
pub open spec fn painted_text(ps: Seq<(Tone, Mark, Seq<char>)>) -> Seq<char>
    decreases ps.len(),
{
    if ps.len() == 0 {
        seq![]
    } else {
        ps[0].2 + painted_text(ps.drop_first())
    }
}

proof fn lemma_painted_text_one(x: (Tone, Mark, Seq<char>))
    ensures
        painted_text(seq![x]) == x.2,
{
    let e = Seq::<(Tone, Mark, Seq<char>)>::empty();
    assert(seq![x].drop_first() =~= e);
    assert(painted_text(e) == Seq::<char>::empty());
    assert(x.2 + Seq::<char>::empty() =~= x.2);
}

proof fn lemma_painted_text_append(a: Seq<(Tone, Mark, Seq<char>)>, b: Seq<(Tone, Mark, Seq<char>)>)
    ensures
        painted_text(a + b) == painted_text(a) + painted_text(b),
    decreases a.len(),
{
    if a.len() == 0 {
        assert(a + b =~= b);
        assert(painted_text(a) + painted_text(b) =~= painted_text(b));
    } else {
        assert((a + b).drop_first() =~= a.drop_first() + b);
        lemma_painted_text_append(a.drop_first(), b);
        assert(painted_text(a) + painted_text(b) =~= a[0].2 + (painted_text(a.drop_first()) + painted_text(b)));
    }
}

proof fn lemma_joined_push(a: Seq<(Tone, Seq<char>)>, x: (Tone, Seq<char>))
    ensures
        joined(a.push(x)) == joined(a) + x.1,
    decreases a.len(),
{
    if a.len() == 0 {
        let e = Seq::<(Tone, Seq<char>)>::empty();
        assert(a.push(x).drop_first() =~= e);
        assert(joined(e) == Seq::<char>::empty());
        assert(joined(a.push(x)) =~= x.1);
        assert(joined(a) == Seq::<char>::empty());
        assert(joined(a) + x.1 =~= x.1);
    } else {
        assert(a.push(x).drop_first() =~= a.drop_first().push(x));
        lemma_joined_push(a.drop_first(), x);
        assert(joined(a.push(x)) =~= joined(a) + x.1);
    }
}

proof fn lemma_hit_pieces_text(
    t: Tone,
    content: Seq<char>,
    lower: Seq<char>,
    q: Seq<char>,
    last: int,
    current: bool,
)
    requires
        q.len() > 0,
        0 <= last <= content.len(),
        lower.len() == content.len(),
    ensures
        painted_text(hit_pieces(t, content, lower, q, last, current)) == content.subrange(
            last,
            content.len() as int,
        ),
    decreases content.len() - last,
{
    lemma_find_from(lower, q, last);
    let ps = hit_pieces(t, content, lower, q, last, current);
    match find_from(lower, q, last) {
        Some(abs) => {
            let next = abs + q.len();
            lemma_hit_pieces_text(t, content, lower, q, next, current);
            let pre: Seq<(Tone, Mark, Seq<char>)> = if abs > last {
                seq![(t, rest_mark(current), content.subrange(last, abs))]
            } else {
                seq![]
            };
            let hit = seq![(t, hit_mark(current), content.subrange(abs, next))];
            let rest = hit_pieces(t, content, lower, q, next, current);
            assert(ps == pre + hit + rest);
            lemma_painted_text_append(pre + hit, rest);
            lemma_painted_text_append(pre, hit);
            lemma_painted_text_one((t, hit_mark(current), content.subrange(abs, next)));
            assert(painted_text(pre) =~= content.subrange(last, abs)) by {
                if abs > last {
                    lemma_painted_text_one((t, rest_mark(current), content.subrange(last, abs)));
                } else {
                    assert(painted_text(pre) == Seq::<char>::empty());
                }
            }
            assert(content.subrange(last, abs) + content.subrange(abs, next) + content.subrange(
                next,
                content.len() as int,
            ) =~= content.subrange(last, content.len() as int));
        },
        None => {
            if last < content.len() {
                lemma_painted_text_one((t, rest_mark(current), content.subrange(last, content.len() as int)));
            } else if last == 0 {
                lemma_painted_text_one((t, Mark::Plain, content));
                assert(content.subrange(0, 0) =~= content);
            } else {
                assert(content.subrange(last, content.len() as int) =~= Seq::<char>::empty());
            }
        },
    }
}

proof fn lemma_search_line_text(line: Seq<(Tone, Seq<char>)>, q: Seq<char>, hit_line: bool, current: bool)
    requires
        hit_line ==> q.len() > 0,
    ensures
        painted_text(search_line(line, q, hit_line, current)) == joined(line),
    decreases line.len(),
{
    if line.len() == 0 {
        assert(joined(line) =~= Seq::<char>::empty());
    } else {
        let init = line.drop_last();
        let x = line.last();
        lemma_search_line_text(init, q, hit_line, current);
        let tail = if hit_line {
            span_pieces(x.0, x.1, q, current)
        } else {
            seq![(x.0, Mark::Plain, x.1)]
        };
        lemma_painted_text_append(search_line(init, q, hit_line, current), tail);
        assert(painted_text(tail) == x.1) by {
            if hit_line {
                let lower = lowercase(x.1);
                if lower.len() != x.1.len() {
                    lemma_painted_text_one((x.0, Mark::Plain, x.1));
                } else {
                    lemma_hit_pieces_text(x.0, x.1, lower, q, 0, current);
                    assert(x.1.subrange(0, x.1.len() as int) =~= x.1);
                }
            } else {
                lemma_painted_text_one((x.0, Mark::Plain, x.1));
            }
        }
        lemma_joined_push(init, x);
        assert(init.push(x) =~= line);
    }
}

/// Marking the hits of a search changes how the payload is drawn, never
/// its text: each line's painted pieces give back the line's pieces.
pub proof fn lemma_search_keeps_text(
    lines: Seq<Seq<(Tone, Seq<char>)>>,
    query: Seq<char>,
    matches: Seq<u16>,
    current: int,
)
    ensures
        search_marks(lines, query, matches, current).len() == lines.len(),
        forall|l: int|
            0 <= l < lines.len() ==> painted_text(#[trigger] search_marks(lines, query, matches, current)[l])
                == joined(lines[l]),
{
    let q = lowercase(query);
    assert forall|l: int| 0 <= l < lines.len() implies painted_text(
        #[trigger] search_marks(lines, query, matches, current)[l],
    ) == joined(lines[l]) by {
        lemma_search_line_text(
            lines[l],
            q,
            q.len() > 0 && matches.contains(l as u16),
            0 <= current < matches.len() && matches[current] == l as u16,
        );
    }
}

} // verus!
