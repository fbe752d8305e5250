//! Comparing the messages of two queues by body: which bodies the queues
//! share, and which occur only in one of them, counted with multiplicity.

use vstd::prelude::*;
use vstd::multiset::Multiset;
use crate::model::MessageInfo;
use crate::text::{chars_of, decimal, owned, push_char, push_decimal, push_str, same_text};

verus! {

broadcast use vstd::multiset::group_multiset_axioms;

/// The outcome of comparing two queues.
pub struct QueueComparisonResult {
    pub queue_a: String,
    pub queue_b: String,
    pub only_in_a: Vec<MessageInfo>,
    pub only_in_b: Vec<MessageInfo>,
    pub in_both: usize,
}

/// The tabs of the comparison view.
#[derive(Debug, Clone, Copy, PartialEq, Eq, Structural)]
pub enum ComparisonTab {
    Summary,
    OnlyInA,
    OnlyInB,
}

/// The bodies of `msgs`, in order.
pub open spec fn bodies(msgs: Seq<MessageInfo>) -> Seq<Seq<char>> {
    msgs.map_values(|m: MessageInfo| m.body@)
}

/// How often `x` occurs in `s`.
pub open spec fn occ(s: Seq<Seq<char>>, x: Seq<char>) -> nat
    decreases s.len(),
{
    if s.len() == 0 {
        0
    } else {
        occ(s.drop_last(), x) + if s.last() == x {
            1nat
        } else {
            0nat
        }
    }
}

/// Element `i` of `s` has no partner in `other`: the bodies equal to it that
/// come before it in `s` already use up all copies in `other`.
pub open spec fn unpaired(s: Seq<Seq<char>>, other: Seq<Seq<char>>, i: int) -> bool {
    occ(s.take(i), s[i]) >= occ(other, s[i])
}

/// The positions among the first `n` of `s` whose element has no partner in
/// `other`, in increasing order.
pub open spec fn unpaired_positions(s: Seq<Seq<char>>, other: Seq<Seq<char>>, n: nat) -> Seq<int>
    decreases n,
{
    if n == 0 {
        Seq::empty()
    } else {
        let p = unpaired_positions(s, other, (n - 1) as nat);
        if unpaired(s, other, n - 1) {
            p.push(n - 1)
        } else {
            p
        }
    }
}

/// `out` holds, in order, copies of the messages of `msgs` at `positions`.
pub open spec fn copies_at(out: Seq<MessageInfo>, msgs: Seq<MessageInfo>, positions: Seq<int>) -> bool {
    &&& out.len() == positions.len()
    &&& forall|i: int|
        0 <= i < out.len() ==> 0 <= #[trigger] positions[i] < msgs.len() && out[i].same_as(
            msgs[positions[i]],
        )
}

/// The number of `true` entries of `s`.
pub open spec fn trues(s: Seq<bool>) -> nat
    decreases s.len(),
{
    if s.len() == 0 {
        0
    } else {
        trues(s.drop_last()) + if s.last() {
            1nat
        } else {
            0nat
        }
    }
}

proof fn lemma_occ_push(s: Seq<Seq<char>>, y: Seq<char>, x: Seq<char>)
    ensures
        occ(s.push(y), x) == occ(s, x) + if y == x {
            1nat
        } else {
            0nat
        },
{
    assert(s.push(y).drop_last() =~= s);
}

proof fn lemma_take_push(s: Seq<Seq<char>>, j: int)
    requires
        0 <= j < s.len(),
    ensures
        s.take(j + 1) == s.take(j).push(s[j]),
{
    assert(s.take(j + 1) =~= s.take(j).push(s[j]));
}

/// If `x` occurs more than `c` times before position `j`, then one of those
/// occurrences is preceded by exactly `c` others.
proof fn lemma_occurrence_with_count(s: Seq<Seq<char>>, x: Seq<char>, j: int, c: nat)
    requires
        0 <= j <= s.len(),
        occ(s.take(j), x) > c,
    ensures
        exists|k: int| 0 <= k < j && s[k] == x && occ(s.take(k), x) == c,
    decreases j,
{
    if j == 0 {
        assert(s.take(0) =~= Seq::<Seq<char>>::empty());
    } else {
        lemma_take_push(s, j - 1);
        lemma_occ_push(s.take(j - 1), s[j - 1], x);
        if occ(s.take(j - 1), x) > c {
            lemma_occurrence_with_count(s, x, j - 1, c);
            let k = choose|k: int| 0 <= k < j - 1 && s[k] == x && occ(s.take(k), x) == c;
            assert(0 <= k < j && s[k] == x && occ(s.take(k), x) == c);
        } else {
            assert(s[j - 1] == x && occ(s.take(j - 1), x) == c);
        }
    }
}

proof fn lemma_trues_update(s: Seq<bool>, j: int)
    requires
        0 <= j < s.len(),
        !s[j],
    ensures
        trues(s.update(j, true)) == trues(s) + 1,
    decreases s.len(),
{
    let t = s.update(j, true);
    if j == s.len() - 1 {
        assert(t.drop_last() =~= s.drop_last());
    } else {
        lemma_trues_update(s.drop_last(), j);
        assert(t.drop_last() =~= s.drop_last().update(j, true));
    }
}

proof fn lemma_trues_take(s: Seq<bool>, j: int)
    requires
        0 <= j < s.len(),
    ensures
        trues(s.take(j + 1)) == trues(s.take(j)) + if s[j] {
            1nat
        } else {
            0nat
        },
{
    assert(s.take(j + 1).drop_last() =~= s.take(j));
}

proof fn lemma_occ_multiset(s: Seq<Seq<char>>, x: Seq<char>)
    ensures
        occ(s, x) == s.to_multiset().count(x),
    decreases s.len(),
{
    broadcast use vstd::seq_lib::group_to_multiset_ensures;

    if s.len() == 0 {
        assert(s.to_multiset() =~= Multiset::<Seq<char>>::empty());
    } else {
        lemma_occ_multiset(s.drop_last(), x);
        assert(s =~= s.drop_last().push(s.last()));
        assert(s.to_multiset() =~= s.drop_last().to_multiset().insert(s.last()));
    }
}

/// The elements of `s` at the positions `positions`.
pub open spec fn elements_at(s: Seq<Seq<char>>, positions: Seq<int>) -> Seq<Seq<char>> {
    positions.map_values(|i: int| s[i])
}

proof fn lemma_unpaired_counts(s: Seq<Seq<char>>, other: Seq<Seq<char>>, n: nat, x: Seq<char>)
    requires
        n <= s.len(),
    ensures
        occ(elements_at(s, unpaired_positions(s, other, n)), x) == if occ(s.take(n as int), x)
            >= occ(other, x) {
            (occ(s.take(n as int), x) - occ(other, x)) as nat
        } else {
            0nat
        },
    decreases n,
{
    if n == 0 {
        assert(s.take(0) =~= Seq::<Seq<char>>::empty());
        assert(elements_at(s, unpaired_positions(s, other, 0)) =~= Seq::<Seq<char>>::empty());
    } else {
        let m = (n - 1) as nat;
        lemma_unpaired_counts(s, other, m, x);
        lemma_take_push(s, m as int);
        lemma_occ_push(s.take(m as int), s[m as int], x);
        let p = unpaired_positions(s, other, m);
        if unpaired(s, other, m as int) {
            assert(elements_at(s, p.push(m as int)) =~= elements_at(s, p).push(s[m as int]));
            lemma_occ_push(elements_at(s, p), s[m as int], x);
        }
    }
}

/// Comparing by body with multiplicity: the messages found only in one
/// queue carry, as a multiset of bodies, exactly that queue's bodies minus
/// the other queue's.
pub proof fn lemma_comparison_is_multiset_difference(a: Seq<Seq<char>>, b: Seq<Seq<char>>)
    ensures
        elements_at(a, unpaired_positions(a, b, a.len())).to_multiset() == a.to_multiset().sub(
            b.to_multiset(),
        ),
        elements_at(b, unpaired_positions(b, a, b.len())).to_multiset() == b.to_multiset().sub(
            a.to_multiset(),
        ),
{
    assert forall|x: Seq<char>|
        #[trigger] elements_at(a, unpaired_positions(a, b, a.len())).to_multiset().count(x)
            == a.to_multiset().sub(b.to_multiset()).count(x) by {
        lemma_unpaired_counts(a, b, a.len(), x);
        assert(a.take(a.len() as int) =~= a);
        lemma_occ_multiset(elements_at(a, unpaired_positions(a, b, a.len())), x);
        lemma_occ_multiset(a, x);
        lemma_occ_multiset(b, x);
    }
    assert forall|x: Seq<char>|
        #[trigger] elements_at(b, unpaired_positions(b, a, b.len())).to_multiset().count(x)
            == b.to_multiset().sub(a.to_multiset()).count(x) by {
        lemma_unpaired_counts(b, a, b.len(), x);
        assert(b.take(b.len() as int) =~= b);
        lemma_occ_multiset(elements_at(b, unpaired_positions(b, a, b.len())), x);
        lemma_occ_multiset(a, x);
        lemma_occ_multiset(b, x);
    }
    assert(elements_at(a, unpaired_positions(a, b, a.len())).to_multiset() =~= a.to_multiset().sub(
        b.to_multiset(),
    ));
    assert(elements_at(b, unpaired_positions(b, a, b.len())).to_multiset() =~= b.to_multiset().sub(
        a.to_multiset(),
    ));
}

/// Collects copies of the messages of `msgs` whose slot in `used` is false.
fn collect_unused(msgs: &Vec<MessageInfo>, used: &Vec<bool>, Ghost(other): Ghost<
    Seq<Seq<char>>,
>) -> (r: Vec<MessageInfo>)
    requires
        used@.len() == msgs@.len(),
        forall|j: int|
            0 <= j < used@.len() ==> #[trigger] used@[j] == !unpaired(bodies(msgs@), other, j),
    ensures
        copies_at(r@, msgs@, unpaired_positions(bodies(msgs@), other, msgs@.len())),
        r@.len() + trues(used@) == msgs@.len(),
{
    let ghost s = bodies(msgs@);
    let mut r: Vec<MessageInfo> = Vec::new();
    let mut j: usize = 0;
    assert(used@.take(0) =~= Seq::<bool>::empty());
    while j < msgs.len()
        invariant
            j <= msgs@.len(),
            s == bodies(msgs@),
            used@.len() == msgs@.len(),
            forall|k: int|
                0 <= k < used@.len() ==> #[trigger] used@[k] == !unpaired(bodies(msgs@), other, k),
            copies_at(r@, msgs@, unpaired_positions(s, other, j as nat)),
            r@.len() + trues(used@.take(j as int)) == j,
        decreases msgs.len() - j,
    {
        proof {
            lemma_trues_take(used@, j as int);
        }
        if !used[j] {
            let m = msgs[j].duplicate();
            r.push(m);
        }
        j = j + 1;
    }
    assert(used@.take(msgs@.len() as int) =~= used@);
    r
}

/// `r` is the comparison of `messages_a` (from `queue_a`) with
/// `messages_b` (from `queue_b`): each side's unpaired messages, in order,
/// and the number paired by body.
pub open spec fn compares(
    r: QueueComparisonResult,
    queue_a: Seq<char>,
    queue_b: Seq<char>,
    messages_a: Seq<MessageInfo>,
    messages_b: Seq<MessageInfo>,
) -> bool {
    &&& r.queue_a@ == queue_a
    &&& r.queue_b@ == queue_b
    &&& copies_at(
        r.only_in_a@,
        messages_a,
        unpaired_positions(bodies(messages_a), bodies(messages_b), messages_a.len()),
    )
    &&& copies_at(
        r.only_in_b@,
        messages_b,
        unpaired_positions(bodies(messages_b), bodies(messages_a), messages_b.len()),
    )
    &&& r.in_both + r.only_in_a@.len() == messages_a.len()
    &&& r.in_both + r.only_in_b@.len() == messages_b.len()
}

/// Compares two queues by message body, pairing each message of A with the
/// first still unpaired message of B that has the same body.
pub fn compute_comparison(
    queue_a: &str,
    queue_b: &str,
    messages_a: Vec<MessageInfo>,
    messages_b: Vec<MessageInfo>,
) -> (r: QueueComparisonResult)
    ensures
        r.queue_a@ == queue_a@,
        r.queue_b@ == queue_b@,
        copies_at(
            r.only_in_a@,
            messages_a@,
            unpaired_positions(bodies(messages_a@), bodies(messages_b@), messages_a@.len()),
        ),
        copies_at(
            r.only_in_b@,
            messages_b@,
            unpaired_positions(bodies(messages_b@), bodies(messages_a@), messages_b@.len()),
        ),
        r.in_both + r.only_in_a@.len() == messages_a@.len(),
        r.in_both + r.only_in_b@.len() == messages_b@.len(),
        bodies(r.only_in_a@).to_multiset() == bodies(messages_a@).to_multiset().sub(
            bodies(messages_b@).to_multiset(),
        ),
        bodies(r.only_in_b@).to_multiset() == bodies(messages_b@).to_multiset().sub(
            bodies(messages_a@).to_multiset(),
        ),
        compares(r, queue_a@, queue_b@, messages_a@, messages_b@),
{
    let ghost a = bodies(messages_a@);
    let ghost b = bodies(messages_b@);
    let mut used: Vec<bool> = Vec::new();
    let mut j: usize = 0;
    while j < messages_b.len()
        invariant
            j <= messages_b@.len(),
            used@.len() == j,
            forall|k: int| 0 <= k < j ==> !#[trigger] used@[k],
            trues(used@) == 0,
        decreases messages_b.len() - j,
    {
        let ghost prev = used@;
        used.push(false);
        j = j + 1;
        assert(used@.drop_last() =~= prev);
    }
    let mut only_in_a: Vec<MessageInfo> = Vec::new();
    let mut in_both: usize = 0;
    let mut i: usize = 0;
    assert(a.take(0) =~= Seq::<Seq<char>>::empty());
    while i < messages_a.len()
        invariant
            i <= messages_a@.len(),
            a == bodies(messages_a@),
            b == bodies(messages_b@),
            used@.len() == messages_b@.len(),
            forall|k: int|
                0 <= k < used@.len() ==> #[trigger] used@[k] == (occ(b.take(k), b[k]) < occ(
                    a.take(i as int),
                    b[k],
                )),
            copies_at(only_in_a@, messages_a@, unpaired_positions(a, b, i as nat)),
            in_both + only_in_a@.len() == i,
            in_both == trues(used@),
        decreases messages_a.len() - i,
    {
        let ghost x = a[i as int];
        let ghost c = occ(a.take(i as int), x);
        let mut found: Option<usize> = None;
        let mut k: usize = 0;
        while k < messages_b.len()
            invariant
                k <= messages_b@.len(),
                used@.len() == messages_b@.len(),
                a == bodies(messages_a@),
                b == bodies(messages_b@),
                i < messages_a@.len(),
                x == a[i as int],
                forall|q: int| 0 <= q < k ==> used@[q] || b[q] != x,
                found matches Some(j) ==> j < messages_b@.len() && !used@[j as int] && b[j as int]
                    == x,
            ensures
                found is None ==> forall|q: int| 0 <= q < messages_b@.len() ==> used@[q] || b[q] != x,
                found matches Some(j) ==> j < messages_b@.len() && !used@[j as int] && b[j as int]
                    == x && forall|q: int| 0 <= q < j ==> used@[q] || b[q] != x,
            decreases messages_b.len() - k,
        {
            if !used[k] && same_text(messages_b[k].body.as_str(), messages_a[i].body.as_str()) {
                found = Some(k);
                break;
            }
            k = k + 1;
        }
        proof {
            lemma_take_push(a, i as int);
        }
        match found {
            Some(j) => {
                proof {
                    // `j` is the occurrence of `x` in B preceded by exactly `c` others.
                    assert(occ(b.take(j as int), x) >= c);
                    if occ(b.take(j as int), x) > c {
                        lemma_occurrence_with_count(b, x, j as int, c);
                    }
                    assert(occ(b.take(j as int), x) == c);
                    lemma_trues_update(used@, j as int);
                    assert forall|q: int| 0 <= q < used@.len() implies #[trigger] used@.update(
                        j as int,
                        true,
                    )[q] == (occ(b.take(q), b[q]) < occ(a.take(i + 1), b[q])) by {
                        lemma_occ_push(a.take(i as int), x, b[q]);
                        if b[q] == x && q != j {
                            if q < j {
                                lemma_take_push(b, q);
                                lemma_occ_push(b.take(q), x, x);
                                lemma_occ_take_mono(b, q + 1, j as int, x);
                            } else {
                                lemma_take_push(b, j as int);
                                lemma_occ_push(b.take(j as int), x, x);
                                lemma_occ_take_mono(b, j + 1, q, x);
                            }
                        }
                    }
                    assert(occ(a.take(i as int), x) < occ(b, x)) by {
                        assert(b.take(b.len() as int) =~= b);
                        lemma_take_push(b, j as int);
                        lemma_occ_push(b.take(j as int), x, x);
                        lemma_occ_prefix_le(b, j + 1);
                    }
                }
                used.set(j, true);
                in_both = in_both + 1;
            },
            None => {
                proof {
                    assert(b.take(b.len() as int) =~= b);
                    if occ(b, x) > c {
                        lemma_occurrence_with_count(b, x, b.len() as int, c);
                    }
                    assert forall|q: int| 0 <= q < used@.len() implies #[trigger] used@[q] == (occ(
                        b.take(q),
                        b[q],
                    ) < occ(a.take(i + 1), b[q])) by {
                        lemma_occ_push(a.take(i as int), x, b[q]);
                    }
                }
                let m = messages_a[i].duplicate();
                only_in_a.push(m);
            },
        }
        i = i + 1;
    }
    assert(a.take(messages_a@.len() as int) =~= a);
    assert forall|k: int| 0 <= k < used@.len() implies #[trigger] used@[k] == !unpaired(
        bodies(messages_b@),
        a,
        k,
    ) by {}
    let only_in_b = collect_unused(&messages_b, &used, Ghost(a));
    proof {
        lemma_comparison_is_multiset_difference(a, b);
        lemma_copies_bodies(only_in_a@, messages_a@, unpaired_positions(a, b, a.len()));
        lemma_copies_bodies(only_in_b@, messages_b@, unpaired_positions(b, a, b.len()));
    }
    QueueComparisonResult {
        queue_a: crate::text::owned(queue_a),
        queue_b: crate::text::owned(queue_b),
        only_in_a,
        only_in_b,
        in_both,
    }
}

proof fn lemma_copies_bodies(out: Seq<MessageInfo>, msgs: Seq<MessageInfo>, positions: Seq<int>)
    requires
        copies_at(out, msgs, positions),
    ensures
        bodies(out) == elements_at(bodies(msgs), positions),
{
    assert(bodies(out) =~= elements_at(bodies(msgs), positions));
}

proof fn lemma_occ_take_mono(s: Seq<Seq<char>>, p: int, q: int, x: Seq<char>)
    requires
        0 <= p <= q <= s.len(),
    ensures
        occ(s.take(p), x) <= occ(s.take(q), x),
    decreases q - p,
{
    if p < q {
        lemma_occ_take_mono(s, p, q - 1, x);
        lemma_take_push(s, q - 1);
        lemma_occ_push(s.take(q - 1), s[q - 1], x);
    }
}

proof fn lemma_occ_prefix_le(s: Seq<Seq<char>>, j: int)
    requires
        0 <= j <= s.len(),
    ensures
        forall|x: Seq<char>| occ(s.take(j), x) <= occ(s, x),
    decreases s.len() - j,
{
    if j == s.len() {
        assert(s.take(j) =~= s);
    } else {
        lemma_occ_prefix_le(s, j + 1);
        lemma_take_push(s, j);
        assert forall|x: Seq<char>| occ(s.take(j), x) <= occ(s, x) by {
            lemma_occ_push(s.take(j), s[j], x);
        }
    }
}

// ---------------------------------------------------------------------------
// The comparison view's text
// ---------------------------------------------------------------------------

/// The first 80 characters of a body, on one line.
pub open spec fn body_preview(body: Seq<char>) -> Seq<char> {
    body.take(if body.len() < 80 { body.len() as int } else { 80 }).map_values(
        |c: char| if c == '\n' { ' ' } else { c },
    )
}

/// One line per message that only one queue holds: its number, routing
/// key and body preview; or a note that there is none.
pub open spec fn unique_lines(msgs: Seq<MessageInfo>) -> Seq<Seq<char>> {
    if msgs.len() == 0 {
        seq!["  No unique messages in this queue"@]
    } else {
        Seq::new(
            msgs.len(),
            |i: int|
                "  "@ + decimal((i + 1) as nat) + ". "@ + msgs[i].routing_key@ + " "@ + body_preview(
                    msgs[i].body@,
                ),
        )
    }
}

/// The summary tab: the two queues and the three counts, and a note when
/// the queues hold the same bodies.
pub open spec fn summary_lines(r: QueueComparisonResult) -> Seq<Seq<char>> {
    seq![
        "  Queue A: "@ + r.queue_a@,
        "  Queue B: "@ + r.queue_b@,
        ""@,
        "  In both:    "@ + decimal(r.in_both as nat),
        "  Only in A:  "@ + decimal(r.only_in_a@.len()),
        "  Only in B:  "@ + decimal(r.only_in_b@.len()),
    ] + if r.only_in_a@.len() == 0 && r.only_in_b@.len() == 0 {
        seq![""@, "  Queues are identical (by message body)"@]
    } else {
        seq![]
    }
}

/// The lines of the comparison view on `tab`: the tab bar with the counts,
/// the tab's lines, and the key help.
pub open spec fn comparison_lines_spec(r: QueueComparisonResult, tab: ComparisonTab) -> Seq<Seq<char>> {
    seq![
        " [Summary] [Only in A ("@ + decimal(r.only_in_a@.len()) + ")] [Only in B ("@ + decimal(
            r.only_in_b@.len(),
        ) + ")]"@,
        ""@,
    ] + match tab {
        ComparisonTab::Summary => summary_lines(r),
        ComparisonTab::OnlyInA => unique_lines(r.only_in_a@),
        ComparisonTab::OnlyInB => unique_lines(r.only_in_b@),
    } + seq![""@, "  tab:switch tab  j/k:scroll  esc:close"@]
}

pub open spec fn texts_view(v: Seq<String>) -> Seq<Seq<char>> {
    v.map_values(|s: String| s@)
}

fn preview_of(body: &str) -> (r: String)
    ensures
        r@ == body_preview(body@),
{
    let cs = chars_of(body);
    let n: usize = if cs.len() < 80 {
        cs.len()
    } else {
        80
    };
    let mut out = String::new();
    let mut i: usize = 0;
    while i < n
        invariant
            n <= cs@.len(),
            cs@ == body@,
            i <= n,
            out@ == cs@.take(i as int).map_values(|c: char| if c == '\n' { ' ' } else { c }),
            n == (if body@.len() < 80 { body@.len() as int } else { 80 }),
        decreases n - i,
    {
        let c = cs[i];
        push_char(&mut out, if c == '\n' { ' ' } else { c });
        assert(cs@.take(i + 1).map_values(|c: char| if c == '\n' { ' ' } else { c }) =~= cs@.take(
            i as int,
        ).map_values(|c: char| if c == '\n' { ' ' } else { c }).push(if c == '\n' { ' ' } else { c }));
        i = i + 1;
    }
    out
}

fn push_line(out: &mut Vec<String>, line: String)
    ensures
        texts_view(final(out)@) == texts_view(old(out)@).push(line@),
{
    let ghost before = out@;
    out.push(line);
    assert(texts_view(out@) =~= texts_view(before).push(line@));
}

fn push_unique_lines(out: &mut Vec<String>, msgs: &Vec<MessageInfo>)
    ensures
        texts_view(final(out)@) == texts_view(old(out)@) + unique_lines(msgs@),
{
    let ghost start = texts_view(out@);
    if msgs.len() == 0 {
        push_line(out, owned("  No unique messages in this queue"));
        assert(texts_view(out@) =~= start + unique_lines(msgs@));
        return;
    }
    let mut i: usize = 0;
    while i < msgs.len()
        invariant
            i <= msgs@.len(),
            msgs@.len() > 0,
            texts_view(out@) == start + unique_lines(msgs@).take(i as int),
        decreases msgs.len() - i,
    {
        let mut line = owned("  ");
        push_decimal(&mut line, (i + 1) as u64);
        push_str(&mut line, ". ");
        push_str(&mut line, msgs[i].routing_key.as_str());
        push_str(&mut line, " ");
        let p = preview_of(msgs[i].body.as_str());
        push_str(&mut line, p.as_str());
        push_line(out, line);
        assert(unique_lines(msgs@).take(i + 1) =~= unique_lines(msgs@).take(i as int).push(
            unique_lines(msgs@)[i as int],
        ));
        i = i + 1;
    }
    assert(unique_lines(msgs@).take(msgs@.len() as int) =~= unique_lines(msgs@));
}

fn counted(label: &str, n: usize) -> (r: String)
    ensures
        r@ == label@ + decimal(n as nat),
{
    let mut s = owned(label);
    push_decimal(&mut s, n as u64);
    s
}

/// The lines of the comparison view on `tab`.
pub fn comparison_lines(r: &QueueComparisonResult, tab: ComparisonTab) -> (out: Vec<String>)
    ensures
        texts_view(out@) == comparison_lines_spec(*r, tab),
{
    let mut out: Vec<String> = Vec::new();
    let mut bar = owned(" [Summary] [Only in A (");
    push_decimal(&mut bar, r.only_in_a.len() as u64);
    push_str(&mut bar, ")] [Only in B (");
    push_decimal(&mut bar, r.only_in_b.len() as u64);
    push_str(&mut bar, ")]");
    push_line(&mut out, bar);
    push_line(&mut out, String::new());
    proof {
        reveal_strlit("");
        assert(""@ =~= Seq::<char>::empty());
    }
    let ghost head = texts_view(out@);
    match tab {
        ComparisonTab::Summary => {
            let mut a = owned("  Queue A: ");
            push_str(&mut a, r.queue_a.as_str());
            push_line(&mut out, a);
            let mut b = owned("  Queue B: ");
            push_str(&mut b, r.queue_b.as_str());
            push_line(&mut out, b);
            push_line(&mut out, String::new());
            push_line(&mut out, counted("  In both:    ", r.in_both));
            push_line(&mut out, counted("  Only in A:  ", r.only_in_a.len()));
            push_line(&mut out, counted("  Only in B:  ", r.only_in_b.len()));
            let ghost six = seq![
                "  Queue A: "@ + r.queue_a@,
                "  Queue B: "@ + r.queue_b@,
                ""@,
                "  In both:    "@ + decimal(r.in_both as nat),
                "  Only in A:  "@ + decimal(r.only_in_a@.len()),
                "  Only in B:  "@ + decimal(r.only_in_b@.len()),
            ];
            assert(texts_view(out@) =~= head + six);
            if r.only_in_a.len() == 0 && r.only_in_b.len() == 0 {
                push_line(&mut out, String::new());
                push_line(&mut out, owned("  Queues are identical (by message body)"));
                assert(texts_view(out@) =~= head + (six + seq![""@, "  Queues are identical (by message body)"@]));
            } else {
                assert(texts_view(out@) =~= head + (six + seq![]));
            }
            assert(texts_view(out@) =~= head + summary_lines(*r));
        },
        ComparisonTab::OnlyInA => {
            push_unique_lines(&mut out, &r.only_in_a);
        },
        ComparisonTab::OnlyInB => {
            push_unique_lines(&mut out, &r.only_in_b);
        },
    }
    push_line(&mut out, String::new());
    push_line(&mut out, owned("  tab:switch tab  j/k:scroll  esc:close"));
    let ghost middle = match tab {
        ComparisonTab::Summary => summary_lines(*r),
        ComparisonTab::OnlyInA => unique_lines(r.only_in_a@),
        ComparisonTab::OnlyInB => unique_lines(r.only_in_b@),
    };
    assert(texts_view(out@) =~= head + middle + seq![""@, "  tab:switch tab  j/k:scroll  esc:close"@]);
    assert(texts_view(out@) =~= comparison_lines_spec(*r, tab));
    out
}

} // verus!
