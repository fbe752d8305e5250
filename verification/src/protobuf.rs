//! Protobuf payloads decoded without their schema, field by field, in the
//! text form of `protoc --decode_raw`: each field on a line of its own as
//! its number and value, embedded messages and groups between braces.

use vstd::prelude::*;
use crate::text::{decimal, push_char, push_decimal, push_str};

verus! {

// ---------------------------------------------------------------------------
// Reading numbers
// ---------------------------------------------------------------------------

/// The varint at `p` of `b`, from its `k`th byte on, with the bits read so
/// far in `acc`: its value (the low 64 bits) and the position after it.
/// None when the bytes end first or the varint runs past ten bytes.
pub open spec fn varint_from(b: Seq<u8>, p: int, k: nat, acc: u64) -> Option<(u64, int)>
    decreases 10 - k,
{
    if k >= 10 || p < 0 || p + k >= b.len() {
        None
    } else {
        let byte = b[p + k];
        let acc2 = acc | (((byte & 0x7f) as u64) << ((7 * k) as u64));
        if byte < 128 {
            Some((acc2, p + k + 1))
        } else {
            varint_from(b, p, k + 1, acc2)
        }
    }
}

/// The varint that starts at `p` of `b`.
pub open spec fn varint_at(b: Seq<u8>, p: int) -> Option<(u64, int)> {
    varint_from(b, p, 0, 0)
}

proof fn lemma_varint_from(b: Seq<u8>, p: int, k: nat, acc: u64)
    requires
        0 <= p,
    ensures
        varint_from(b, p, k, acc) matches Some((v, q)) ==> p + k < q <= b.len() && q <= p + 10,
    decreases 10 - k,
{
    if k < 10 && p + k < b.len() && b[p + k] >= 128 {
        lemma_varint_from(b, p, k + 1, acc | (((b[p + k] & 0x7f) as u64) << ((7 * k) as u64)));
    }
}

/// A varint ends after its start, and inside the bytes.
pub proof fn lemma_varint_at(b: Seq<u8>, p: int)
    requires
        0 <= p,
    ensures
        varint_at(b, p) matches Some((v, q)) ==> p < q <= b.len(),
{
    lemma_varint_from(b, p, 0, 0);
}

/// The little-endian number of the `n` bytes at `p` (`n` is 4 or 8).
pub open spec fn little_endian(b: Seq<u8>, p: int, n: nat) -> u64
    decreases n,
{
    if n == 0 {
        0
    } else {
        (b[p + n - 1] as u64) << ((8 * (n - 1)) as u64) | little_endian(b, p, (n - 1) as nat)
    }
}

/// Reads the varint at `p`.
fn read_varint(b: &Vec<u8>, p: usize) -> (r: Option<(u64, usize)>)
    ensures
        r is None <==> varint_at(b@, p as int) is None,
        r matches Some((v, q)) ==> varint_at(b@, p as int) == Some((v, q as int)),
{
    proof {
        lemma_varint_from(b@, p as int, 0, 0);
    }
    let mut k: usize = 0;
    let mut acc: u64 = 0;
    while k < 10
        invariant
            k <= 10,
            varint_from(b@, p as int, k as nat, acc) == varint_at(b@, p as int),
        decreases 10 - k,
    {
        if p >= b.len() || k >= b.len() - p {
            return None;
        }
        let byte = b[p + k];
        let shift = (7 * k) as u64;
        assert(shift < 64);
        acc = acc | (((byte & 0x7f) as u64) << shift);
        if byte < 128 {
            return Some((acc, p + k + 1));
        }
        k = k + 1;
    }
    None
}

/// Reads the `n` bytes at `p` as a little-endian number.
fn read_little_endian(b: &Vec<u8>, p: usize, n: usize) -> (r: u64)
    requires
        n == 4 || n == 8,
        p + n <= b@.len(),
    ensures
        r == little_endian(b@, p as int, n as nat),
{
    let len = b.len();
    let mut k: usize = 0;
    let mut acc: u64 = 0;
    while k < n
        invariant
            n == 4 || n == 8,
            len == b@.len(),
            p + n <= b@.len(),
            k <= n,
            acc == little_endian(b@, p as int, k as nat),
        decreases n - k,
    {
        let shift = (8 * k) as u64;
        assert(shift < 64);
        acc = ((b[p + k] as u64) << shift) | acc;
        k = k + 1;
    }
    acc
}

// ---------------------------------------------------------------------------
// Writing values
// ---------------------------------------------------------------------------

/// Two spaces for each level of nesting.
pub open spec fn indent(depth: nat) -> Seq<char> {
    Seq::new(2 * depth, |i: int| ' ')
}

/// The lower-case hexadecimal digit of `d` (below 16).
pub open spec fn hex_char(d: u64) -> char {
    if d < 10 {
        ((48 + d) as u8) as char
    } else {
        ((87 + d) as u8) as char
    }
}

/// The last `n` hexadecimal digits of `v`, most significant first.
pub open spec fn hex_digits(v: u64, n: nat) -> Seq<char>
    decreases n,
{
    if n == 0 {
        seq![]
    } else {
        hex_digits(v / 16, (n - 1) as nat).push(hex_char(v % 16))
    }
}

/// The octal digit `d` (below 8).
pub open spec fn octal_char(d: u8) -> char {
    ((48 + d) as u8) as char
}

/// A byte of a string as C escapes it: the usual backslash escapes,
/// printable ASCII as it is, anything else as three octal digits.
pub open spec fn escaped_byte(x: u8) -> Seq<char> {
    if x == 10 {
        seq!['\\', 'n']
    } else if x == 13 {
        seq!['\\', 'r']
    } else if x == 9 {
        seq!['\\', 't']
    } else if x == 34 {
        seq!['\\', '"']
    } else if x == 39 {
        seq!['\\', '\'']
    } else if x == 92 {
        seq!['\\', '\\']
    } else if 32 <= x < 127 {
        seq![x as char]
    } else {
        seq!['\\', octal_char(x / 64), octal_char((x / 8) % 8), octal_char(x % 8)]
    }
}

/// The bytes of a string as C escapes them.
pub open spec fn escaped(b: Seq<u8>) -> Seq<char>
    decreases b.len(),
{
    if b.len() == 0 {
        seq![]
    } else {
        escaped(b.drop_last()) + escaped_byte(b.last())
    }
}

/// A field on a line of its own: its number, then `rest`.
pub open spec fn field_line(depth: nat, field: u64, rest: Seq<char>) -> Seq<char> {
    indent(depth) + decimal(field as nat) + rest + seq!['\n']
}

/// An embedded message or group: its number and its fields between braces.
pub open spec fn field_block(depth: nat, field: u64, inner: Seq<char>) -> Seq<char> {
    indent(depth) + decimal(field as nat) + seq![' ', '{', '\n'] + inner + indent(depth) + seq!['}', '\n']
}

// ---------------------------------------------------------------------------
// Fields
// ---------------------------------------------------------------------------

/// The fields of `b` from `pos` on, written at nesting `depth`, up to the
/// end of the bytes or, inside a group, up to the group's end: their text
/// and where they end. None when the bytes are not a message: a field
/// numbered 0, an unknown wire type, a value cut short, or a group that
/// does not end as it began.
///
/// Varints are written in decimal, fixed 32- and 64-bit values in
/// hexadecimal; length-delimited values as an embedded message when they
/// read as one, else as a quoted string.
pub open spec fn proto_fields(b: Seq<u8>, pos: int, depth: nat, group: Option<u64>) -> Option<(Seq<char>, int)>
    decreases b.len() - pos,
{
    if pos < 0 || pos > b.len() {
        None
    } else if pos == b.len() {
        if group is None {
            Some((seq![], pos))
        } else {
            None
        }
    } else {
        match varint_at(b, pos) {
            None => None,
            Some((tag, p1)) => {
                let field = tag >> 3u64;
                let wt = tag & 7u64;
                if field == 0 || p1 <= pos || p1 > b.len() {
                    None
                } else if wt == 4 {
                    if group == Some(field) {
                        Some((seq![], p1))
                    } else {
                        None
                    }
                } else {
                    let item: Option<(Seq<char>, int)> = if wt == 0 {
                        match varint_at(b, p1) {
                            Some((v, p2)) => Some(
                                (field_line(depth, field, seq![':', ' '] + decimal(v as nat)), p2),
                            ),
                            None => None,
                        }
                    } else if wt == 1 {
                        if p1 + 8 <= b.len() {
                            Some(
                                (
                                    field_line(
                                        depth,
                                        field,
                                        seq![':', ' ', '0', 'x'] + hex_digits(little_endian(b, p1, 8), 16),
                                    ),
                                    p1 + 8,
                                ),
                            )
                        } else {
                            None
                        }
                    } else if wt == 5 {
                        if p1 + 4 <= b.len() {
                            Some(
                                (
                                    field_line(
                                        depth,
                                        field,
                                        seq![':', ' ', '0', 'x'] + hex_digits(little_endian(b, p1, 4), 8),
                                    ),
                                    p1 + 4,
                                ),
                            )
                        } else {
                            None
                        }
                    } else if wt == 2 {
                        match varint_at(b, p1) {
                            None => None,
                            Some((n, p2)) => if p2 <= p1 || p2 + n > b.len() {
                                None
                            } else {
                                let sub = b.subrange(p2, p2 + n);
                                let nested = if n > 0 {
                                    proto_fields(sub, 0, depth + 1, None)
                                } else {
                                    None
                                };
                                match nested {
                                    Some((t, _)) => Some((field_block(depth, field, t), p2 + n)),
                                    None => Some(
                                        (
                                            field_line(
                                                depth,
                                                field,
                                                seq![':', ' ', '"'] + escaped(sub) + seq!['"'],
                                            ),
                                            p2 + n,
                                        ),
                                    ),
                                }
                            },
                        }
                    } else if wt == 3 {
                        match proto_fields(b, p1, depth + 1, Some(field)) {
                            Some((t, p2)) => Some((field_block(depth, field, t), p2)),
                            None => None,
                        }
                    } else {
                        None
                    };
                    match item {
                        None => None,
                        Some((t, p2)) => if p2 <= pos || p2 > b.len() {
                            None
                        } else {
                            match proto_fields(b, p2, depth, group) {
                                None => None,
                                Some((rest, e)) => Some((t + rest, e)),
                            }
                        },
                    }
                }
            },
        }
    }
}

/// A payload decoded without its schema, or None when it is not a
/// message.
pub open spec fn decode_raw(b: Seq<u8>) -> Option<Seq<char>> {
    match proto_fields(b, 0, 0, None) {
        Some((t, _)) => Some(t),
        None => None,
    }
}

// ---------------------------------------------------------------------------
// Decoding
// ---------------------------------------------------------------------------

fn push_indent(s: &mut String, depth: usize)
    ensures
        final(s)@ == old(s)@ + indent(depth as nat),
{
    let ghost start = s@;
    let mut k: usize = 0;
    assert(indent(0) =~= Seq::<char>::empty());
    while k < depth
        invariant
            k <= depth,
            s@ == start + indent(k as nat),
        decreases depth - k,
    {
        push_char(s, ' ');
        push_char(s, ' ');
        assert(indent((k + 1) as nat) =~= indent(k as nat).push(' ').push(' '));
        k = k + 1;
    }
}

fn hex_char_of(d: u64) -> (c: char)
    requires
        d < 16,
    ensures
        c == hex_char(d),
{
    if d < 10 {
        ((48 + d) as u8) as char
    } else {
        ((87 + d) as u8) as char
    }
}

fn push_hex(s: &mut String, v: u64, n: usize)
    ensures
        final(s)@ == old(s)@ + hex_digits(v, n as nat),
    decreases n,
{
    if n > 0 {
        push_hex(s, v / 16, n - 1);
        let ghost mid = s@;
        push_char(s, hex_char_of(v % 16));
        assert(s@ =~= old(s)@ + hex_digits(v, n as nat));
    } else {
        assert(s@ =~= old(s)@ + hex_digits(v, 0));
    }
}

fn octal_char_of(d: u8) -> (c: char)
    requires
        d < 8,
    ensures
        c == octal_char(d),
{
    ((48 + d) as u8) as char
}

fn push_escaped_byte(s: &mut String, x: u8)
    ensures
        final(s)@ == old(s)@ + escaped_byte(x),
{
    if x == 10 {
        push_char(s, '\\');
        push_char(s, 'n');
    } else if x == 13 {
        push_char(s, '\\');
        push_char(s, 'r');
    } else if x == 9 {
        push_char(s, '\\');
        push_char(s, 't');
    } else if x == 34 {
        push_char(s, '\\');
        push_char(s, '"');
    } else if x == 39 {
        push_char(s, '\\');
        push_char(s, '\'');
    } else if x == 92 {
        push_char(s, '\\');
        push_char(s, '\\');
    } else if 32 <= x && x < 127 {
        push_char(s, x as char);
    } else {
        push_char(s, '\\');
        push_char(s, octal_char_of(x / 64));
        push_char(s, octal_char_of((x / 8) % 8));
        push_char(s, octal_char_of(x % 8));
    }
    assert(s@ =~= old(s)@ + escaped_byte(x));
}

fn push_escaped(s: &mut String, b: &Vec<u8>)
    ensures
        final(s)@ == old(s)@ + escaped(b@),
{
    let ghost start = s@;
    let mut i: usize = 0;
    assert(b@.take(0) =~= Seq::<u8>::empty());
    while i < b.len()
        invariant
            i <= b@.len(),
            s@ == start + escaped(b@.take(i as int)),
        decreases b.len() - i,
    {
        assert(b@.take(i + 1).drop_last() =~= b@.take(i as int));
        assert(b@.take(i + 1).last() == b@[i as int]);
        let ghost before = s@;
        push_escaped_byte(s, b[i]);
        assert(s@ =~= start + escaped(b@.take(i + 1)));
        i = i + 1;
    }
    assert(b@.take(b@.len() as int) =~= b@);
}

/// A field on a line of its own.
fn line_text(depth: usize, field: u64, rest: &str) -> (r: String)
    ensures
        r@ == field_line(depth as nat, field, rest@),
{
    let mut t = String::new();
    push_indent(&mut t, depth);
    push_decimal(&mut t, field);
    push_str(&mut t, rest);
    push_char(&mut t, '\n');
    assert(t@ =~= field_line(depth as nat, field, rest@));
    t
}

/// An embedded message or group between braces.
fn block_text(depth: usize, field: u64, inner: &str) -> (r: String)
    ensures
        r@ == field_block(depth as nat, field, inner@),
{
    let mut t = String::new();
    push_indent(&mut t, depth);
    push_decimal(&mut t, field);
    push_char(&mut t, ' ');
    push_char(&mut t, '{');
    push_char(&mut t, '\n');
    push_str(&mut t, inner);
    push_indent(&mut t, depth);
    push_char(&mut t, '}');
    push_char(&mut t, '\n');
    assert(t@ =~= field_block(depth as nat, field, inner@));
    t
}

fn copy_range(b: &Vec<u8>, from: usize, to: usize) -> (r: Vec<u8>)
    requires
        from <= to <= b@.len(),
    ensures
        r@ == b@.subrange(from as int, to as int),
{
    let mut r: Vec<u8> = Vec::new();
    let mut i = from;
    while i < to
        invariant
            from <= i <= to <= b@.len(),
            r@ == b@.subrange(from as int, i as int),
        decreases to - i,
    {
        r.push(b[i]);
        assert(r@ =~= b@.subrange(from as int, i + 1));
        i = i + 1;
    }
    r
}

fn hex_rest(v: u64, digits: usize) -> (r: String)
    ensures
        r@ == seq![':', ' ', '0', 'x'] + hex_digits(v, digits as nat),
{
    let mut t = String::new();
    push_char(&mut t, ':');
    push_char(&mut t, ' ');
    push_char(&mut t, '0');
    push_char(&mut t, 'x');
    push_hex(&mut t, v, digits);
    assert(t@ =~= seq![':', ' ', '0', 'x'] + hex_digits(v, digits as nat));
    t
}

/// The fields of `b` from `pos` on (see `proto_fields`).
fn render_fields(b: &Vec<u8>, pos: usize, depth: usize, group: Option<u64>) -> (r: Option<(String, usize)>)
    requires
        pos <= b@.len(),
        depth + (b@.len() - pos) <= usize::MAX,
    ensures
        match proto_fields(b@, pos as int, depth as nat, group) {
            None => r is None,
            Some((t, e)) => r matches Some(x) && x.0@ == t && x.1 as int == e,
        },
    decreases b@.len() - pos,
{
    if pos == b.len() {
        return match group {
            None => Some((String::new(), pos)),
            Some(_) => None,
        };
    }
    let (tag, p1) = match read_varint(b, pos) {
        None => return None,
        Some(x) => x,
    };
    proof {
        lemma_varint_at(b@, pos as int);
    }
    let field = tag >> 3u64;
    let wt = tag & 7u64;
    if field == 0 {
        return None;
    }
    if wt == 4 {
        let closes = match group {
            Some(g) => g == field,
            None => false,
        };
        return if closes {
            Some((String::new(), p1))
        } else {
            None
        };
    }
    let item: Option<(String, usize)> = if wt == 0 {
        match read_varint(b, p1) {
            Some((v, p2)) => {
                let mut rest = String::new();
                push_char(&mut rest, ':');
                push_char(&mut rest, ' ');
                push_decimal(&mut rest, v);
                assert(rest@ =~= seq![':', ' '] + decimal(v as nat));
                Some((line_text(depth, field, rest.as_str()), p2))
            },
            None => None,
        }
    } else if wt == 1 {
        if b.len() - p1 >= 8 {
            let v = read_little_endian(b, p1, 8);
            Some((line_text(depth, field, hex_rest(v, 16).as_str()), p1 + 8))
        } else {
            None
        }
    } else if wt == 5 {
        if b.len() - p1 >= 4 {
            let v = read_little_endian(b, p1, 4);
            Some((line_text(depth, field, hex_rest(v, 8).as_str()), p1 + 4))
        } else {
            None
        }
    } else if wt == 2 {
        match read_varint(b, p1) {
            None => None,
            Some((n, p2)) => {
                proof {
                    lemma_varint_at(b@, p1 as int);
                }
                if n > (b.len() - p2) as u64 {
                    None
                } else {
                    let end = p2 + n as usize;
                    let sub = copy_range(b, p2, end);
                    let nested = if n > 0 {
                        render_fields(&sub, 0, depth + 1, None)
                    } else {
                        None
                    };
                    match nested {
                        Some((t, _)) => Some((block_text(depth, field, t.as_str()), end)),
                        None => {
                            let mut rest = String::new();
                            push_char(&mut rest, ':');
                            push_char(&mut rest, ' ');
                            push_char(&mut rest, '"');
                            push_escaped(&mut rest, &sub);
                            push_char(&mut rest, '"');
                            assert(rest@ =~= seq![':', ' ', '"'] + escaped(sub@) + seq!['"']);
                            Some((line_text(depth, field, rest.as_str()), end))
                        },
                    }
                }
            },
        }
    } else if wt == 3 {
        match render_fields(b, p1, depth + 1, Some(field)) {
            Some((t, p2)) => Some((block_text(depth, field, t.as_str()), p2)),
            None => None,
        }
    } else {
        None
    };
    match item {
        None => None,
        Some((t, p2)) => {
            if p2 <= pos || p2 > b.len() {
                return None;
            }
            match render_fields(b, p2, depth, group) {
                None => None,
                Some((rest, e)) => {
                    let mut all = t;
                    push_str(&mut all, rest.as_str());
                    Some((all, e))
                },
            }
        },
    }
}

/// Decodes a Protobuf payload without its schema, in the text form of
/// `protoc --decode_raw`; `None` when the bytes are not a message.
pub fn decode_protobuf_raw(payload: &[u8]) -> (r: Option<String>)
    ensures
        r is None <==> decode_raw(payload@) is None,
        r matches Some(t) ==> decode_raw(payload@) == Some(t@),
{
    let mut b: Vec<u8> = Vec::new();
    let mut i: usize = 0;
    while i < payload.len()
        invariant
            i <= payload@.len(),
            b@ == payload@.take(i as int),
        decreases payload.len() - i,
    {
        b.push(payload[i]);
        assert(b@ =~= payload@.take(i + 1));
        i = i + 1;
    }
    assert(payload@.take(payload@.len() as int) =~= payload@);
    match render_fields(&b, 0, 0, None) {
        Some((t, _)) => Some(t),
        None => None,
    }
}

} // verus!
