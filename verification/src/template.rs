//! Payload templates: `{{counter}}`, `{{timestamp}}`, `{{uuid}}`,
//! `{{random_int}}`, and `{{env.NAME}}` placeholders. The environment is read
//! by the caller, one placeholder at a time.

use vstd::prelude::*;
use crate::operations::unix_time_secs;
use crate::text::{
    chars_of, contains, contains_text, decimal, find, find_chars, find_chars_from, find_from,
    lemma_find, lemma_find_from, matches_at, occurs_at, push_char, push_range, push_str,
    starts_with, string_of_range, u64_text,
};

verus! {

/// `s` with every occurrence of `pat`, from left to right and without
/// overlap, replaced by `rep` (`str::replace`).
pub open spec fn replace_all(s: Seq<char>, pat: Seq<char>, rep: Seq<char>) -> Seq<char>
    decreases s.len(),
{
    if s.len() == 0 {
        s
    } else if pat.len() > 0 && starts_with(s, pat) {
        rep + replace_all(s.skip(pat.len() as int), pat, rep)
    } else {
        seq![s[0]] + replace_all(s.drop_first(), pat, rep)
    }
}

/// `s` with every occurrence of the non-empty `pat` replaced by `rep`.
pub fn replace_text(s: &str, pat: &str, rep: &str) -> (r: String)
    requires
        pat@.len() > 0,
    ensures
        r@ == replace_all(s@, pat@, rep@),
{
    let v = chars_of(s);
    let p = chars_of(pat);
    let mut out = String::new();
    let mut i: usize = 0;
    assert(v@.skip(0) =~= v@);
    while i < v.len()
        invariant
            v@ == s@,
            p@ == pat@,
            p@.len() > 0,
            i <= v@.len(),
            out@ + replace_all(v@.skip(i as int), p@, rep@) == replace_all(s@, pat@, rep@),
        decreases v.len() - i,
    {
        let ghost rest = v@.skip(i as int);
        let ghost before = out@;
        let hit = occurs_at(&v, &p, i);
        proof {
            assert(rest.len() > 0);
            assert(hit == starts_with(rest, p@)) by {
                if i + p@.len() <= v@.len() {
                    assert(rest.subrange(0, p@.len() as int) =~= v@.subrange(
                        i as int,
                        i + p@.len(),
                    ));
                }
            }
        }
        if hit {
            push_str(&mut out, rep);
            proof {
                let after = v@.skip(i + p@.len());
                assert(rest.skip(p@.len() as int) =~= after);
                assert((before + rep@) + replace_all(after, p@, rep@) =~= before + (rep@
                    + replace_all(after, p@, rep@)));
            }
            i = i + p.len();
        } else {
            push_char(&mut out, v[i]);
            proof {
                let after = v@.skip(i + 1);
                assert(rest.drop_first() =~= after);
                assert(rest[0] == v@[i as int]);
                assert(before.push(v@[i as int]) + replace_all(after, p@, rep@) =~= before + (seq![
                    rest[0],
                ] + replace_all(after, p@, rep@)));
            }
            i = i + 1;
        }
    }
    assert(v@.skip(i as int) =~= Seq::<char>::empty());
    out
}

/// `s` with `pat` replaced by `rep` when `pat` occurs in it.
pub open spec fn fill(s: Seq<char>, pat: Seq<char>, rep: Seq<char>) -> Seq<char> {
    if contains(s, pat) {
        replace_all(s, pat, rep)
    } else {
        s
    }
}

/// The template `body` with its counter, timestamp, uuid and random-number
/// placeholders filled in, given the counter before the call and the values
/// drawn for this call.
pub open spec fn builtins_spec(
    body: Seq<char>,
    counter: nat,
    timestamp: u64,
    uuid: Seq<char>,
    random: u32,
) -> Seq<char> {
    let s1 = fill(body, "{{counter}}"@, decimal(counter + 1));
    let s2 = fill(s1, "{{timestamp}}"@, decimal(timestamp as nat));
    let s3 = fill(s2, "{{uuid}}"@, uuid);
    fill(s3, "{{random_int}}"@, decimal((random % 1000000) as nat))
}

/// `s` with `pat` replaced by `rep`, when `pat` occurs in it.
fn fill_text(s: String, pat: &str, rep: &str) -> (r: String)
    requires
        pat@.len() > 0,
    ensures
        r@ == fill(s@, pat@, rep@),
{
    if contains_text(s.as_str(), pat) {
        replace_text(s.as_str(), pat, rep)
    } else {
        s
    }
}

/// Fills in the counter, timestamp, uuid and random-number placeholders of
/// a template. The counter advances by one when the template uses it.
pub fn fill_placeholders(body: &str, counter: &mut u64, timestamp: u64, uuid: &str, random: u32) -> (r:
    String)
    requires
        contains(body@, "{{counter}}"@) ==> *old(counter) < u64::MAX,
    ensures
        r@ == builtins_spec(body@, *old(counter) as nat, timestamp, uuid@, random),
        *final(counter) == if contains(body@, "{{counter}}"@) {
            *old(counter) + 1
        } else {
            *old(counter) as int
        },
{
    proof {
        reveal_strlit("{{counter}}");
        reveal_strlit("{{timestamp}}");
        reveal_strlit("{{uuid}}");
        reveal_strlit("{{random_int}}");
    }
    let mut result = crate::text::owned(body);
    if contains_text(body, "{{counter}}") {
        *counter = *counter + 1;
        let n = u64_text(*counter);
        result = replace_text(result.as_str(), "{{counter}}", n.as_str());
    }
    let ts = u64_text(timestamp);
    let result = fill_text(result, "{{timestamp}}", ts.as_str());
    let result = fill_text(result, "{{uuid}}", uuid);
    let rnd = u64_text((random % 1000000) as u64);
    fill_text(result, "{{random_int}}", rnd.as_str())
}

/// A lower-case hexadecimal digit.
pub open spec fn is_lower_hex(c: char) -> bool {
    ('0' <= c && c <= '9') || ('a' <= c && c <= 'f')
}

/// The hyphenated lower-case text of a random (version 4, RFC 4122
/// variant) UUID: 36 characters, hyphens at 8, 13, 18 and 23, hexadecimal
/// digits elsewhere, `4` at 14 and one of `8`, `9`, `a`, `b` at 19.
pub open spec fn is_v4_uuid_text(u: Seq<char>) -> bool {
    &&& u.len() == 36
    &&& forall|i: int|
        0 <= i < 36 ==> if i == 8 || i == 13 || i == 18 || i == 23 {
            #[trigger] u[i] == '-'
        } else {
            is_lower_hex(u[i])
        }
    &&& u[14] == '4'
    &&& (u[19] == '8' || u[19] == '9' || u[19] == 'a' || u[19] == 'b')
}

/// A fresh random (version 4) UUID in its hyphenated text form
/// (`uuid::Uuid::new_v4().to_string()`): the version and variant bits are
/// set and the rest is random, written as lower-case hexadecimal in the
/// hyphenated layout. Which random value comes out is not claimed.
#[verifier::external_body]
pub(crate) fn new_uuid_text() -> (r: String)
    ensures
        is_v4_uuid_text(r@),
{
    uuid::Uuid::new_v4().to_string()
}

/// The nanoseconds within the current second of the clock
/// (`Duration::subsec_nanos` of the Unix time), which the documentation
/// bounds below one billion. Nothing else is claimed: it depends on the
/// clock.
#[verifier::external_body]
pub(crate) fn clock_subsec_nanos() -> (r: u32)
    ensures
        r < 1000000000,
{
    std::time::SystemTime::now().duration_since(std::time::UNIX_EPOCH).unwrap_or_default().subsec_nanos()
}

/// Fills in the counter, timestamp, uuid and random-number placeholders of
/// a template with the clock and a fresh UUID, drawn only when the template
/// uses them. `{{env.NAME}}` placeholders are left for
/// [`next_env_placeholder`].
pub fn interpolate_template(body: &str, counter: &mut u64) -> (r: String)
    requires
        contains(body@, "{{counter}}"@) ==> *old(counter) < u64::MAX,
    ensures
        exists|timestamp: u64, uuid: Seq<char>, random: u32|
            r@ == builtins_spec(body@, *old(counter) as nat, timestamp, uuid, random) && (contains(
                body@,
                "{{uuid}}"@,
            ) ==> is_v4_uuid_text(uuid)) && random < 1000000000,
        *final(counter) == if contains(body@, "{{counter}}"@) {
            *old(counter) + 1
        } else {
            *old(counter) as int
        },
{
    let timestamp = if contains_text(body, "{{timestamp}}") {
        unix_time_secs()
    } else {
        0
    };
    let uuid = if contains_text(body, "{{uuid}}") {
        new_uuid_text()
    } else {
        String::new()
    };
    let random = if contains_text(body, "{{random_int}}") {
        clock_subsec_nanos()
    } else {
        0
    };
    fill_placeholders(body, counter, timestamp, uuid.as_str(), random)
}

/// The opening of an environment placeholder.
pub open spec fn env_open() -> Seq<char> {
    seq!['{', '{', 'e', 'n', 'v', '.']
}

/// The closing of a placeholder.
pub open spec fn env_close() -> Seq<char> {
    seq!['}', '}']
}

/// The first `{{env.NAME}}` placeholder of `s`: its start, the offset of
/// its closing `}}` from the start, and the name between.
pub open spec fn env_placeholder(s: Seq<char>) -> Option<(int, int)> {
    match find(s, env_open()) {
        None => None,
        Some(start) => match find(s.skip(start), env_close()) {
            None => None,
            Some(end) => Some((start, end)),
        },
    }
}

/// `s` with the placeholder at `start` (closing at offset `end`) replaced
/// by `value`.
pub open spec fn env_substituted(s: Seq<char>, start: int, end: int, value: Seq<char>) -> Seq<
    char,
> {
    s.take(start) + value + s.skip(start + end + 2)
}

/// The first `{{env.NAME}}` placeholder of a text, as the positions where it
/// starts and ends (after its `}}`) and the variable name.
pub struct EnvPlaceholder {
    pub start: usize,
    pub end: usize,
    pub name: String,
}

/// Finds the first `{{env.NAME}}` placeholder of `text`, if any.
pub fn next_env_placeholder(text: &str) -> (r: Option<EnvPlaceholder>)
    ensures
        r is None <==> env_placeholder(text@) is None,
        r matches Some(p) ==> ({
            let (start, end) = env_placeholder(text@).unwrap();
            &&& p.start == start
            &&& p.end == start + end + 2
            &&& 6 <= end
            &&& p.end <= text@.len()
            &&& p.name@ == text@.subrange(start + 6, start + end)
        }),
{
    let v = chars_of(text);
    let open = vec!['{', '{', 'e', 'n', 'v', '.'];
    let close = vec!['}', '}'];
    assert(open@ =~= env_open());
    assert(close@ =~= env_close());
    let start = match find_chars(&v, &open) {
        None => {
            return None;
        },
        Some(s) => s,
    };
    proof {
        lemma_find(v@, open@);
    }
    let found = find_chars_from(&v, &close, start);
    proof {
        lemma_find_from(v@, close@, start as int);
        lemma_find_shift(v@, close@, start as int);
    }
    let close_at = match found {
        None => {
            return None;
        },
        Some(c) => c,
    };
    let end = close_at - start;
    proof {
        assert(v@[close_at as int] == '}') by {
            assert(v@.subrange(close_at as int, close_at + 2)[0] == v@[close_at as int]);
        }
        assert(v@.subrange(start as int, start + 6) == env_open());
        assert forall|k: int| start <= k < start + 6 implies #[trigger] v@[k] != '}' by {
            assert(v@.subrange(start as int, start + 6)[k - start] == v@[k]);
        }
        assert(end >= 6);
        assert(close_at + 2 <= v@.len());
        assert(v@.len() == v.len());
    }
    let name = string_of_range(&v, start + 6, close_at);
    Some(EnvPlaceholder { start, end: close_at + 2, name })
}

/// Finding from `start` in `s` is finding in `s` with its first `start`
/// characters dropped, shifted by `start`.
proof fn lemma_find_shift(s: Seq<char>, n: Seq<char>, start: int)
    requires
        0 <= start <= s.len(),
    ensures
        find_from(s, n, start) == (match find(s.skip(start), n) {
            Some(i) => Some(i + start),
            None => None::<int>,
        }),
{
    lemma_find_from(s, n, start);
    lemma_find(s.skip(start), n);
    assert forall|j: int| 0 <= j implies matches_at(s.skip(start), n, j) == matches_at(
        s,
        n,
        j + start,
    ) by {
        if j + n.len() <= s.len() - start {
            assert(s.skip(start).subrange(j, j + n.len()) =~= s.subrange(j + start, j + start
                + n.len()));
        }
    }
    match find(s.skip(start), n) {
        Some(i) => {
            assert(matches_at(s, n, i + start));
            match find_from(s, n, start) {
                Some(k) => {
                    assert(matches_at(s.skip(start), n, k - start));
                },
                None => {},
            }
        },
        None => {
            match find_from(s, n, start) {
                Some(k) => {
                    assert(matches_at(s.skip(start), n, k - start));
                },
                None => {},
            }
        },
    }
}

/// `text` with the placeholder `p` replaced by the variable's `value`.
pub fn substitute_env(text: &str, p: &EnvPlaceholder, value: &str) -> (r: String)
    requires
        p.start <= p.end <= text@.len(),
    ensures
        r@ == text@.take(p.start as int) + value@ + text@.skip(p.end as int),
{
    let v = chars_of(text);
    let mut out = string_of_range(&v, 0, p.start);
    push_str(&mut out, value);
    push_range(&mut out, &v, p.end, v.len());
    assert(out@ =~= text@.take(p.start as int) + value@ + text@.skip(p.end as int));
    out
}

} // verus!
