//! Character-level string helpers with exact specifications: building
//! strings, searching, trimming, case folding, and decimal numbers.

use vstd::prelude::*;

verus! {

// ---------------------------------------------------------------------------
// Building strings
// ---------------------------------------------------------------------------

/// Appends one character to a string (`String::push`).
#[verifier::external_body]
pub(crate) fn push_char(s: &mut String, c: char)
    ensures
        final(s)@ == old(s)@.push(c),
{
    s.push(c);
}

/// Removes the last character of a string, if any (`String::pop`).
#[verifier::external_body]
pub(crate) fn pop_char(s: &mut String) -> (r: Option<char>)
    ensures
        old(s)@.len() == 0 ==> final(s)@ == old(s)@ && r is None,
        old(s)@.len() > 0 ==> final(s)@ == old(s)@.drop_last() && r == Some(old(s)@.last()),
{
    s.pop()
}

/// An owned copy of `s`.
pub fn owned(s: &str) -> (r: String)
    ensures
        r@ == s@,
{
    s.to_owned()
}

/// The characters of `s`, in order.
pub fn chars_of(s: &str) -> (r: Vec<char>)
    ensures
        r@ == s@,
{
    let mut r: Vec<char> = Vec::new();
    for c in it: s.chars()
        invariant
            r@ == it.seq().take(it.index() as int),
            it.seq() == s@,
    {
        r.push(c);
    }
    r
}

/// Appends the characters `v[from..to]` to `s`.
pub fn push_range(s: &mut String, v: &Vec<char>, from: usize, to: usize)
    requires
        from <= to <= v@.len(),
    ensures
        final(s)@ == old(s)@ + v@.subrange(from as int, to as int),
{
    let mut i = from;
    while i < to
        invariant
            from <= i <= to <= v@.len(),
            s@ == old(s)@ + v@.subrange(from as int, i as int),
        decreases to - i,
    {
        push_char(s, v[i]);
        i = i + 1;
        assert(v@.subrange(from as int, i as int) == v@.subrange(from as int, i - 1).push(
            v@[i - 1],
        ));
    }
}

/// Appends all characters of `t` to `s`.
pub fn push_str(s: &mut String, t: &str)
    ensures
        final(s)@ == old(s)@ + t@,
{
    let v = chars_of(t);
    push_range(s, &v, 0, v.len());
    assert(v@.subrange(0, v@.len() as int) == v@);
}

/// The string made of `v[from..to]`.
pub fn string_of_range(v: &Vec<char>, from: usize, to: usize) -> (r: String)
    requires
        from <= to <= v@.len(),
    ensures
        r@ == v@.subrange(from as int, to as int),
{
    let mut s = String::new();
    push_range(&mut s, v, from, to);
    s
}

/// The string made of all of `v`.
pub fn string_of(v: &Vec<char>) -> (r: String)
    ensures
        r@ == v@,
{
    let r = string_of_range(v, 0, v.len());
    assert(v@.subrange(0, v@.len() as int) == v@);
    r
}

/// The concatenation of `a` and `b`.
pub fn concat(a: &str, b: &str) -> (r: String)
    ensures
        r@ == a@ + b@,
{
    let mut s = owned(a);
    push_str(&mut s, b);
    s
}

/// Whether two strings hold the same characters.
pub fn same_text(a: &str, b: &str) -> (r: bool)
    ensures
        r == (a@ == b@),
{
    let x = chars_of(a);
    let y = chars_of(b);
    if x.len() != y.len() {
        return false;
    }
    let mut i: usize = 0;
    while i < x.len()
        invariant
            x@ == a@,
            y@ == b@,
            x@.len() == y@.len(),
            i <= x@.len(),
            forall|k: int| 0 <= k < i ==> x@[k] == y@[k],
        decreases x.len() - i,
    {
        if x[i] != y[i] {
            return false;
        }
        i = i + 1;
    }
    assert(x@ =~= y@);
    true
}

// ---------------------------------------------------------------------------
// Searching
// ---------------------------------------------------------------------------

/// `n` occurs in `h` at position `i`.
pub open spec fn matches_at(h: Seq<char>, n: Seq<char>, i: int) -> bool {
    0 <= i && i + n.len() <= h.len() && h.subrange(i, i + n.len()) == n
}

/// `n` occurs somewhere in `h` (the empty string occurs everywhere).
pub open spec fn contains(h: Seq<char>, n: Seq<char>) -> bool {
    exists|i: int| matches_at(h, n, i)
}

/// The first position at or after `start` where `n` occurs in `h`.
pub open spec fn find_from(h: Seq<char>, n: Seq<char>, start: int) -> Option<int>
    decreases h.len() + 1 - start,
{
    if start < 0 || start + n.len() > h.len() {
        None
    } else if matches_at(h, n, start) {
        Some(start)
    } else {
        find_from(h, n, start + 1)
    }
}

/// The first position where `n` occurs in `h`.
pub open spec fn find(h: Seq<char>, n: Seq<char>) -> Option<int> {
    find_from(h, n, 0)
}

/// `h` begins with `p`.
pub open spec fn starts_with(h: Seq<char>, p: Seq<char>) -> bool {
    p.len() <= h.len() && h.subrange(0, p.len() as int) == p
}

/// `h` ends with `p`.
pub open spec fn ends_with(h: Seq<char>, p: Seq<char>) -> bool {
    p.len() <= h.len() && h.subrange(h.len() - p.len(), h.len() as int) == p
}

/// What `find_from` returns is the first occurrence at or after `start`.
pub proof fn lemma_find_from(h: Seq<char>, n: Seq<char>, start: int)
    requires
        0 <= start,
    ensures
        match find_from(h, n, start) {
            Some(i) => start <= i && matches_at(h, n, i) && forall|j: int|
                start <= j < i ==> !matches_at(h, n, j),
            None => forall|j: int| start <= j ==> !matches_at(h, n, j),
        },
    decreases h.len() + 1 - start,
{
    if start + n.len() > h.len() {
    } else if matches_at(h, n, start) {
    } else {
        lemma_find_from(h, n, start + 1);
    }
}

/// `find` gives the first occurrence, and none exactly when `n` does not occur.
pub proof fn lemma_find(h: Seq<char>, n: Seq<char>)
    ensures
        find(h, n) is None <==> !contains(h, n),
        find(h, n) matches Some(i) ==> matches_at(h, n, i) && forall|j: int|
            0 <= j < i ==> !matches_at(h, n, j),
{
    lemma_find_from(h, n, 0);
    if let Some(i) = find(h, n) {
        assert(matches_at(h, n, i));
    }
}

/// Whether `n` occurs in `h` at position `i`.
pub fn occurs_at(h: &Vec<char>, n: &Vec<char>, i: usize) -> (r: bool)
    ensures
        r == matches_at(h@, n@, i as int),
{
    if n.len() > h.len() || i > h.len() - n.len() {
        return false;
    }
    let mut k: usize = 0;
    while k < n.len()
        invariant
            i + n@.len() <= h@.len(),
            h@.len() == h.len(),
            n@.len() == n.len(),
            k <= n@.len(),
            forall|j: int| 0 <= j < k ==> h@[i + j] == n@[j],
        decreases n.len() - k,
    {
        if h[i + k] != n[k] {
            assert(h@.subrange(i as int, i + n@.len())[k as int] != n@[k as int]);
            return false;
        }
        k = k + 1;
    }
    assert(h@.subrange(i as int, i + n@.len()) =~= n@);
    true
}

/// The first position at or after `start` where `n` occurs in `h`.
pub fn find_chars_from(h: &Vec<char>, n: &Vec<char>, start: usize) -> (r: Option<usize>)
    ensures
        r is None <==> find_from(h@, n@, start as int) is None,
        r matches Some(i) ==> find_from(h@, n@, start as int) == Some(i as int),
        r matches Some(i) ==> i + n@.len() <= h@.len(),
{
    if n.len() > h.len() || start > h.len() - n.len() {
        return None;
    }
    let last = h.len() - n.len();
    let mut i = start;
    while i < last
        invariant
            start <= i <= last,
            last + n@.len() == h@.len(),
            find_from(h@, n@, start as int) == find_from(h@, n@, i as int),
        decreases last - i,
    {
        if occurs_at(h, n, i) {
            return Some(i);
        }
        i = i + 1;
    }
    if occurs_at(h, n, last) {
        Some(last)
    } else {
        assert(find_from(h@, n@, last + 1) is None);
        None
    }
}

/// The first position where `n` occurs in `h`.
pub fn find_chars(h: &Vec<char>, n: &Vec<char>) -> (r: Option<usize>)
    ensures
        r is None <==> find(h@, n@) is None,
        r matches Some(i) ==> find(h@, n@) == Some(i as int),
        r matches Some(i) ==> i + n@.len() <= h@.len(),
{
    find_chars_from(h, n, 0)
}

/// Whether `n` occurs in `h`.
pub fn contains_text(h: &str, n: &str) -> (r: bool)
    ensures
        r == contains(h@, n@),
{
    let hv = chars_of(h);
    let nv = chars_of(n);
    proof {
        lemma_find(h@, n@);
    }
    find_chars(&hv, &nv).is_some()
}

/// Whether `h` begins with `p`.
pub fn has_prefix(h: &str, p: &str) -> (r: bool)
    ensures
        r == starts_with(h@, p@),
{
    let hv = chars_of(h);
    let pv = chars_of(p);
    occurs_at(&hv, &pv, 0)
}

// ---------------------------------------------------------------------------
// Trimming
// ---------------------------------------------------------------------------

/// Whether `c` has the Unicode White_Space property (what
/// `char::is_whitespace` tests): tab to carriage return, space, next line,
/// no-break space, Ogham space mark, the spaces from en quad to hair space,
/// line and paragraph separators, narrow no-break space, medium
/// mathematical space and ideographic space.
pub open spec fn is_white(c: char) -> bool {
    let u = c as u32;
    (0x09 <= u && u <= 0x0d) || u == 0x20 || u == 0x85 || u == 0xa0 || u == 0x1680 || (0x2000 <= u && u
        <= 0x200a) || u == 0x2028 || u == 0x2029 || u == 0x202f || u == 0x205f || u == 0x3000
}

/// Whether `c` is whitespace in Unicode's sense.
pub(crate) fn is_whitespace(c: char) -> (r: bool)
    ensures
        r == is_white(c),
{
    let u = c as u32;
    (0x09 <= u && u <= 0x0d) || u == 0x20 || u == 0x85 || u == 0xa0 || u == 0x1680 || (0x2000 <= u && u
        <= 0x200a) || u == 0x2028 || u == 0x2029 || u == 0x202f || u == 0x205f || u == 0x3000
}

/// `s` without its leading characters that satisfy `p`.
pub open spec fn strip_front(s: Seq<char>, p: spec_fn(char) -> bool) -> Seq<char>
    decreases s.len(),
{
    if s.len() > 0 && p(s[0]) {
        strip_front(s.drop_first(), p)
    } else {
        s
    }
}

/// `s` without its trailing characters that satisfy `p`.
pub open spec fn strip_back(s: Seq<char>, p: spec_fn(char) -> bool) -> Seq<char>
    decreases s.len(),
{
    if s.len() > 0 && p(s.last()) {
        strip_back(s.drop_last(), p)
    } else {
        s
    }
}

/// `s` without leading and trailing whitespace (`str::trim`).
pub open spec fn trim(s: Seq<char>) -> Seq<char> {
    strip_back(strip_front(s, |c: char| is_white(c)), |c: char| is_white(c))
}

/// `s` without leading and trailing double quotes (`str::trim_matches('"')`).
pub open spec fn trim_quotes(s: Seq<char>) -> Seq<char> {
    strip_back(strip_front(s, |c: char| c == '"'), |c: char| c == '"')
}

/// `s` without leading `v` characters (`str::trim_start_matches('v')`).
pub open spec fn trim_leading_v(s: Seq<char>) -> Seq<char> {
    strip_front(s, |c: char| c == 'v')
}

proof fn lemma_strip_front_skip(s: Seq<char>, p: spec_fn(char) -> bool, i: int)
    requires
        0 <= i <= s.len(),
        forall|k: int| 0 <= k < i ==> p(s[k]),
    ensures
        strip_front(s, p) == strip_front(s.skip(i), p),
    decreases i,
{
    if i > 0 {
        assert(s.len() > 0 && p(s[0]));
        lemma_strip_front_skip(s.drop_first(), p, i - 1);
        assert(s.drop_first().skip(i - 1) =~= s.skip(i));
    } else {
        assert(s.skip(0) =~= s);
    }
}

proof fn lemma_strip_back_take(s: Seq<char>, p: spec_fn(char) -> bool, j: int)
    requires
        0 <= j <= s.len(),
        forall|k: int| j <= k < s.len() ==> p(s[k]),
    ensures
        strip_back(s, p) == strip_back(s.take(j), p),
    decreases s.len() - j,
{
    if j < s.len() {
        assert(p(s.last()));
        lemma_strip_back_take(s.drop_last(), p, j);
        assert(s.drop_last().take(j) =~= s.take(j));
    } else {
        assert(s.take(j) =~= s);
    }
}

/// Bounds `(from, to)` such that `v[from..to]` is `v` trimmed of whitespace
/// (`quotes == false`) or of double quotes (`quotes == true`).
fn strip_bounds(v: &Vec<char>, from: usize, to: usize, quotes: bool) -> (r: (usize, usize))
    requires
        from <= to <= v@.len(),
    ensures
        from <= r.0 <= r.1 <= to,
        !quotes ==> v@.subrange(r.0 as int, r.1 as int) == strip_back(
            strip_front(v@.subrange(from as int, to as int), |c: char| is_white(c)),
            |c: char| is_white(c),
        ),
        quotes ==> v@.subrange(r.0 as int, r.1 as int) == strip_back(
            strip_front(v@.subrange(from as int, to as int), |c: char| c == '"'),
            |c: char| c == '"',
        ),
{
    let ghost p: spec_fn(char) -> bool = if quotes {
        |c: char| c == '"'
    } else {
        |c: char| is_white(c)
    };
    let ghost s = v@.subrange(from as int, to as int);
    let mut i = from;
    while i < to
        invariant
            from <= i <= to <= v@.len(),
            s == v@.subrange(from as int, to as int),
            p == (if quotes {
                |c: char| c == '"'
            } else {
                |c: char| is_white(c)
            }),
            forall|k: int| from <= k < i ==> p(v@[k]),
        ensures
            from <= i <= to,
            forall|k: int| from <= k < i ==> p(v@[k]),
            i < to ==> !p(v@[i as int]),
        decreases to - i,
    {
        let c = v[i];
        let hit = if quotes {
            c == '"'
        } else {
            is_whitespace(c)
        };
        if !hit {
            break;
        }
        i = i + 1;
    }
    proof {
        lemma_strip_front_skip(s, p, i - from);
        assert(s.skip(i - from) =~= v@.subrange(i as int, to as int));
    }
    let mut j = to;
    while j > i
        invariant
            from <= i <= j <= to <= v@.len(),
            p == (if quotes {
                |c: char| c == '"'
            } else {
                |c: char| is_white(c)
            }),
            forall|k: int| j <= k < to ==> p(v@[k]),
        ensures
            i <= j <= to,
            forall|k: int| j <= k < to ==> p(v@[k]),
            j > i ==> !p(v@[j - 1]),
        decreases j,
    {
        let c = v[j - 1];
        let hit = if quotes {
            c == '"'
        } else {
            is_whitespace(c)
        };
        if !hit {
            break;
        }
        j = j - 1;
    }
    proof {
        let t = v@.subrange(i as int, to as int);
        lemma_strip_back_take(t, p, j - i);
        assert(t.take(j - i) =~= v@.subrange(i as int, j as int));
        let u = v@.subrange(i as int, j as int);
        if u.len() > 0 {
            assert(!p(u.last()));
        }
        if i < to {
            assert(!p(v@[i as int]));
        }
        assert(strip_front(t, p) == t);
    }
    (i, j)
}

/// `s` without leading and trailing whitespace.
pub fn trimmed(s: &str) -> (r: String)
    ensures
        r@ == trim(s@),
{
    let v = chars_of(s);
    let (a, b) = strip_bounds(&v, 0, v.len(), false);
    assert(v@.subrange(0, v@.len() as int) =~= v@);
    string_of_range(&v, a, b)
}

/// `s` without leading and trailing double quotes.
pub fn trimmed_quotes(s: &str) -> (r: String)
    ensures
        r@ == trim_quotes(s@),
{
    let v = chars_of(s);
    let (a, b) = strip_bounds(&v, 0, v.len(), true);
    assert(v@.subrange(0, v@.len() as int) =~= v@);
    string_of_range(&v, a, b)
}

/// `s` without its leading `v` characters.
pub fn trimmed_leading_v(s: &str) -> (r: String)
    ensures
        r@ == trim_leading_v(s@),
{
    let v = chars_of(s);
    let mut i: usize = 0;
    while i < v.len()
        invariant
            v@ == s@,
            i <= v@.len(),
            forall|k: int| 0 <= k < i ==> v@[k] == 'v',
        ensures
            i <= v@.len(),
            forall|k: int| 0 <= k < i ==> v@[k] == 'v',
            i < v@.len() ==> v@[i as int] != 'v',
        decreases v.len() - i,
    {
        if v[i] != 'v' {
            break;
        }
        i = i + 1;
    }
    proof {
        lemma_strip_front_skip(s@, |c: char| c == 'v', i as int);
        assert(s@.skip(i as int) =~= v@.subrange(i as int, v@.len() as int));
        let t = s@.skip(i as int);
        if t.len() > 0 {
            assert(t[0] != 'v');
        }
        assert(strip_front(t, |c: char| c == 'v') == t);
    }
    string_of_range(&v, i, v.len())
}

// ---------------------------------------------------------------------------
// Case folding
// ---------------------------------------------------------------------------

/// Every character of `s` is ASCII.
pub open spec fn ascii_text(s: Seq<char>) -> bool {
    forall|i: int| 0 <= i < s.len() ==> (s[i] as u32) < 128
}

/// What `str::to_lowercase` makes of a text that is not all ASCII (the
/// Unicode lower-case mapping, final sigma included).
pub uninterp spec fn unicode_lowercase(s: Seq<char>) -> Seq<char>;

/// `s` in lower case, as Unicode defines it (`str::to_lowercase`): on
/// ASCII text, `A` to `Z` become `a` to `z` and the rest stays.
pub open spec fn lowercase(s: Seq<char>) -> Seq<char> {
    if ascii_text(s) {
        s.map_values(|c: char| ascii_lower(c))
    } else {
        unicode_lowercase(s)
    }
}

/// `str::to_lowercase`: the Unicode lower-case mapping, which on ASCII text
/// lowers `A` to `Z` and keeps every other character; on other text the
/// result is named `unicode_lowercase`.
#[verifier::external_body]
pub(crate) fn to_lower(s: &str) -> (r: String)
    ensures
        r@ == lowercase(s@),
        !ascii_text(s@) ==> r@ == unicode_lowercase(s@),
{
    s.to_lowercase()
}

/// The ASCII lower-case form of one character; other characters stay.
pub open spec fn ascii_lower(c: char) -> char {
    if 'A' <= c && c <= 'Z' {
        ((c as u32) + 32) as char
    } else {
        c
    }
}

/// The ASCII lower-case form of one character.
pub fn ascii_lower_char(c: char) -> (r: char)
    ensures
        r == ascii_lower(c),
{
    if 'A' <= c && c <= 'Z' {
        ((c as u8) + 32) as char
    } else {
        c
    }
}

// ---------------------------------------------------------------------------
// Decimal numbers
// ---------------------------------------------------------------------------

/// The character of the decimal digit `d`.
pub open spec fn digit_char(d: nat) -> char {
    ((48 + d) as u32) as char
}

/// The decimal numeral of `n`, without leading zeros.
pub open spec fn decimal(n: nat) -> Seq<char>
    decreases n,
{
    if n < 10 {
        seq![digit_char(n)]
    } else {
        decimal(n / 10).push(digit_char(n % 10))
    }
}

/// The decimal numeral of `i`, with a leading `-` when negative.
pub open spec fn signed_decimal(i: int) -> Seq<char> {
    if i < 0 {
        seq!['-'] + decimal((-i) as nat)
    } else {
        decimal(i as nat)
    }
}

/// `k` zeros.
pub open spec fn zeros(k: int) -> Seq<char> {
    Seq::new(if k < 0 { 0 } else { k as nat }, |j: int| '0')
}

/// `i` in decimal, padded with zeros after the sign to at least `w`
/// characters (the `{:0w}` format).
pub open spec fn zero_padded(i: int, w: nat) -> Seq<char> {
    if i < 0 {
        seq!['-'] + zeros(w - 1 - decimal((-i) as nat).len()) + decimal((-i) as nat)
    } else {
        zeros(w - decimal(i as nat).len()) + decimal(i as nat)
    }
}

proof fn lemma_decimal_len(n: nat)
    ensures
        decimal(n).len() >= 1,
    decreases n,
{
    if n >= 10 {
        lemma_decimal_len(n / 10);
    }
}

/// Appends the decimal numeral of `n` to `s`.
pub fn push_decimal(s: &mut String, n: u64)
    ensures
        final(s)@ == old(s)@ + decimal(n as nat),
    decreases n,
{
    if n >= 10 {
        push_decimal(s, n / 10);
    }
    let d = (n % 10) as u8;
    let c = (48u8 + d) as char;
    assert(c == digit_char((n % 10) as nat));
    push_char(s, c);
    proof {
        if n >= 10 {
            assert(decimal(n as nat) == decimal((n / 10) as nat).push(digit_char((n % 10) as nat)));
        }
    }
}

/// The decimal numeral of `n`.
pub fn u64_text(n: u64) -> (r: String)
    ensures
        r@ == decimal(n as nat),
{
    let mut s = String::new();
    push_decimal(&mut s, n);
    assert(s@ =~= decimal(n as nat));
    s
}

/// Appends the decimal numeral of `i`, with a `-` when negative.
pub fn push_signed(s: &mut String, i: i64)
    ensures
        final(s)@ == old(s)@ + signed_decimal(i as int),
{
    if i < 0 {
        push_char(s, '-');
        let m: u64 = if i == i64::MIN {
            9223372036854775808u64
        } else {
            (-i) as u64
        };
        push_decimal(s, m);
        assert(old(s)@.push('-') + decimal(m as nat) =~= old(s)@ + (seq!['-'] + decimal(
            m as nat,
        )));
    } else {
        push_decimal(s, i as u64);
    }
}

/// The decimal numeral of `i`.
pub fn i64_text(i: i64) -> (r: String)
    ensures
        r@ == signed_decimal(i as int),
{
    let mut s = String::new();
    push_signed(&mut s, i);
    assert(s@ =~= signed_decimal(i as int));
    s
}

/// Appends `k` zeros.
fn push_zeros(s: &mut String, k: usize)
    ensures
        final(s)@ == old(s)@ + zeros(k as int),
{
    let mut i: usize = 0;
    while i < k
        invariant
            i <= k,
            s@ == old(s)@ + zeros(i as int),
        decreases k - i,
    {
        push_char(s, '0');
        i = i + 1;
        assert(zeros(i as int) =~= zeros(i - 1).push('0'));
    }
}

/// Appends `i` in the `{:0w}` format.
pub fn push_zero_padded(s: &mut String, i: i64, w: usize)
    ensures
        final(s)@ == old(s)@ + zero_padded(i as int, w as nat),
{
    let m: u64 = if i == i64::MIN {
        9223372036854775808u64
    } else if i < 0 {
        (-i) as u64
    } else {
        i as u64
    };
    let digits = u64_text(m);
    let dv = chars_of(digits.as_str());
    let len = dv.len();
    if i < 0 {
        push_char(s, '-');
        let pad: usize = if len < w {
            w - len - 1
        } else {
            0
        };
        push_zeros(s, pad);
        push_range(s, &dv, 0, len);
        assert(dv@.subrange(0, len as int) =~= dv@);
        assert(zeros(pad as int) =~= zeros(w - 1 - decimal(m as nat).len()));
        assert(s@ =~= old(s)@ + zero_padded(i as int, w as nat));
    } else {
        let pad: usize = if w >= len {
            w - len
        } else {
            0
        };
        push_zeros(s, pad);
        push_range(s, &dv, 0, len);
        assert(dv@.subrange(0, len as int) =~= dv@);
        assert(zeros(pad as int) =~= zeros(w - decimal(m as nat).len()));
        assert(s@ =~= old(s)@ + zero_padded(i as int, w as nat));
    }
}

/// Reading back a decimal numeral gives the number.
pub proof fn lemma_decimal_digits(n: nat)
    ensures
        all_digits(decimal(n)),
        digits_value(decimal(n)) == n,
        decimal(n).len() >= 1,
        is_digit(decimal(n)[0]),
    decreases n,
{
    let d0 = n % 10;
    assert((((48 + d0) as u32) as char) as u32 == 48 + d0);
    assert(digit_value(digit_char(d0)) == d0);
    if n >= 10 {
        lemma_decimal_digits(n / 10);
        let d = decimal(n / 10);
        assert(decimal(n).drop_last() =~= d);
        assert(decimal(n)[0] == d[0]);
        assert(decimal(n).last() == digit_char(d0));
        assert(digits_value(decimal(n)) == digits_value(d) * 10 + digit_value(decimal(n).last()));
    } else {
        assert(decimal(n).drop_last() =~= Seq::<char>::empty());
        assert(digits_value(decimal(n)) == digits_value(Seq::<char>::empty()) * 10 + digit_value(
            decimal(n).last(),
        ));
    }
}

/// `str::parse` reads back what decimal formatting writes.
pub proof fn lemma_parse_decimal(n: nat, max: nat)
    requires
        n <= max,
    ensures
        parse_unsigned(decimal(n), max) == Some(n),
{
    lemma_decimal_digits(n);
    assert(unsigned_body(decimal(n), '+') == decimal(n));
}

// ---------------------------------------------------------------------------
// Parsing decimal numbers
// ---------------------------------------------------------------------------

/// `c` is an ASCII decimal digit.
pub open spec fn is_digit(c: char) -> bool {
    '0' <= c && c <= '9'
}

/// The value of the ASCII digit `c`.
pub open spec fn digit_value(c: char) -> nat {
    ((c as u32) - 48) as nat
}

/// Every character of `s` is a decimal digit.
pub open spec fn all_digits(s: Seq<char>) -> bool {
    forall|k: int| 0 <= k < s.len() ==> is_digit(s[k])
}

/// The value of the decimal numeral `s` (leading zeros allowed).
pub open spec fn digits_value(s: Seq<char>) -> nat
    decreases s.len(),
{
    if s.len() == 0 {
        0
    } else {
        digits_value(s.drop_last()) * 10 + digit_value(s.last())
    }
}

/// `s` without one leading sign character `sign`, if it has one.
pub open spec fn unsigned_body(s: Seq<char>, sign: char) -> Seq<char> {
    if s.len() > 0 && s[0] == sign {
        s.drop_first()
    } else {
        s
    }
}

/// How `str::parse` reads an unsigned integer bounded by `max`: an optional
/// `+`, then at least one decimal digit, with a value of at most `max`.
pub open spec fn parse_unsigned(s: Seq<char>, max: nat) -> Option<nat> {
    let body = unsigned_body(s, '+');
    if body.len() > 0 && all_digits(body) && digits_value(body) <= max {
        Some(digits_value(body))
    } else {
        None
    }
}

/// How `str::parse::<i64>` reads a signed integer: an optional `+` or `-`,
/// then at least one decimal digit, with a value within `i64`.
pub open spec fn parse_i64_spec(s: Seq<char>) -> Option<int> {
    if s.len() > 0 && s[0] == '-' {
        let body = s.drop_first();
        if body.len() > 0 && all_digits(body) && digits_value(body) <= 9223372036854775808 {
            Some(-(digits_value(body) as int))
        } else {
            None
        }
    } else {
        match parse_unsigned(s, 9223372036854775807) {
            Some(v) => Some(v as int),
            None => None,
        }
    }
}

proof fn lemma_digits_value_prefix(s: Seq<char>, i: int)
    requires
        0 <= i <= s.len(),
    ensures
        digits_value(s.take(i)) <= digits_value(s),
    decreases s.len() - i,
{
    if i < s.len() {
        lemma_digits_value_prefix(s, i + 1);
        assert(s.take(i + 1).drop_last() =~= s.take(i));
    } else {
        assert(s.take(i) =~= s);
    }
}

/// Reads the digits of `v[from..]` as a number of at most `max`.
fn read_digits(v: &Vec<char>, from: usize, max: u64) -> (r: Option<u64>)
    requires
        from <= v@.len(),
        max >= 9,
    ensures
        ({
            let body = v@.skip(from as int);
            r == (if body.len() > 0 && all_digits(body) && digits_value(body) <= max {
                Some(digits_value(body) as u64)
            } else {
                None::<u64>
            })
        }),
{
    let ghost body = v@.skip(from as int);
    if from == v.len() {
        return None;
    }
    let mut acc: u64 = 0;
    let mut i = from;
    while i < v.len()
        invariant
            from <= i <= v@.len(),
            body == v@.skip(from as int),
            max >= 9,
            acc <= max,
            acc == digits_value(body.take(i - from)),
            all_digits(body.take(i - from)),
        decreases v.len() - i,
    {
        let c = v[i];
        if c < '0' || c > '9' {
            assert(!is_digit(body[i - from]));
            return None;
        }
        let d = ((c as u32) - 48) as u64;
        proof {
            assert(body.take(i - from + 1).drop_last() =~= body.take(i - from));
            assert(body.take(i - from + 1).last() == c);
        }
        if acc > (max - d) / 10 {
            proof {
                assert(acc * 10 + d > max) by (nonlinear_arith)
                    requires
                        acc > (max - d) / 10,
                        d <= 9,
                        max >= 9,
                ;
                lemma_digits_value_prefix(body, i - from + 1);
            }
            return None;
        }
        proof {
            assert(acc * 10 + d <= max) by (nonlinear_arith)
                requires
                    acc <= (max - d) / 10,
                    d <= max,
            ;
        }
        acc = acc * 10 + d;
        i = i + 1;
    }
    assert(body.take(i - from) =~= body);
    Some(acc)
}

/// `str::parse::<u16>`.
pub fn parse_u16(s: &str) -> (r: Option<u16>)
    ensures
        r == (match parse_unsigned(s@, 65535) {
            Some(v) => Some(v as u16),
            None => None::<u16>,
        }),
{
    let v = chars_of(s);
    let from: usize = if v.len() > 0 && v[0] == '+' {
        1
    } else {
        0
    };
    assert(unsigned_body(s@, '+') =~= v@.skip(from as int));
    match read_digits(&v, from, 65535) {
        Some(x) => Some(x as u16),
        None => None,
    }
}

/// `str::parse::<u32>`.
pub fn parse_u32(s: &str) -> (r: Option<u32>)
    ensures
        r == (match parse_unsigned(s@, 4294967295) {
            Some(v) => Some(v as u32),
            None => None::<u32>,
        }),
{
    let v = chars_of(s);
    let from: usize = if v.len() > 0 && v[0] == '+' {
        1
    } else {
        0
    };
    assert(unsigned_body(s@, '+') =~= v@.skip(from as int));
    match read_digits(&v, from, 4294967295) {
        Some(x) => Some(x as u32),
        None => None,
    }
}

/// `str::parse::<i64>`.
pub fn parse_i64(s: &str) -> (r: Option<i64>)
    ensures
        r == (match parse_i64_spec(s@) {
            Some(v) => Some(v as i64),
            None => None::<i64>,
        }),
{
    let v = chars_of(s);
    if v.len() > 0 && v[0] == '-' {
        assert(s@.drop_first() =~= v@.skip(1));
        match read_digits(&v, 1, 9223372036854775808) {
            Some(x) => {
                if x == 9223372036854775808 {
                    Some(i64::MIN)
                } else {
                    Some(-(x as i64))
                }
            },
            None => None,
        }
    } else {
        let from: usize = if v.len() > 0 && v[0] == '+' {
            1
        } else {
            0
        };
        assert(unsigned_body(s@, '+') =~= v@.skip(from as int));
        match read_digits(&v, from, 9223372036854775807) {
            Some(x) => Some(x as i64),
            None => None,
        }
    }
}

} // verus!
