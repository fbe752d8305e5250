//! The consumer groups popup: each group's state, members and lag, its
//! partitions' offsets in a table, and where the popup scrolls to keep the
//! selected group in sight. Lags above zero are drawn as warnings.

use vstd::prelude::*;
use crate::model::{ConsumerGroupInfo, ConsumerGroupPartition};
use crate::text::{chars_of, decimal, owned, push_char, push_decimal, push_signed, push_str, same_text, signed_decimal};

verus! {

/// How a piece of the popup is drawn.
#[derive(Debug, Clone, Copy, PartialEq, Eq, Structural)]
pub enum GroupTone {
    /// A group's name.
    Name,
    /// The selected group's name.
    SelectedName,
    /// The state of a group whose members are active (`Stable`).
    Stable,
    /// Any other state.
    Unsettled,
    /// A label.
    Label,
    /// A figure.
    Value,
    /// A lag above zero.
    LagWarning,
    /// A lag of zero or less.
    LagOk,
    /// A key in the hints at the bottom.
    HintKey,
    /// A hint's words, and the notes shown without groups.
    Muted,
    /// An empty line.
    Plain,
}

/// A piece of a line of the popup.
#[derive(Debug)]
pub struct GroupPiece {
    pub tone: GroupTone,
    pub text: String,
}

pub open spec fn piece_view(p: GroupPiece) -> (GroupTone, Seq<char>) {
    (p.tone, p.text@)
}

pub open spec fn line_view(l: Vec<GroupPiece>) -> Seq<(GroupTone, Seq<char>)> {
    l@.map_values(|p: GroupPiece| piece_view(p))
}

pub open spec fn lines_view(v: Seq<Vec<GroupPiece>>) -> Seq<Seq<(GroupTone, Seq<char>)>> {
    v.map_values(|l: Vec<GroupPiece>| line_view(l))
}

/// The tone of a lag.
pub open spec fn lag_tone(lag: i64) -> GroupTone {
    if lag > 0 {
        GroupTone::LagWarning
    } else {
        GroupTone::LagOk
    }
}

/// `s` padded with spaces on the right to `w` characters (`{:<w}`).
pub open spec fn padded(s: Seq<char>, w: nat) -> Seq<char> {
    if s.len() >= w {
        s
    } else {
        s + Seq::new((w - s.len()) as nat, |i: int| ' ')
    }
}

/// The line of a partition: its number, offset, high watermark and lag.
pub open spec fn partition_line(p: ConsumerGroupPartition) -> Seq<(GroupTone, Seq<char>)> {
    seq![
        (GroupTone::Value, "    P"@ + padded(signed_decimal(p.partition as int), 10)),
        (GroupTone::Value, padded(signed_decimal(p.current_offset as int), 14)),
        (GroupTone::Value, padded(signed_decimal(p.high_watermark as int), 14)),
        (lag_tone(p.lag), signed_decimal(p.lag as int)),
    ]
}

/// The lines of the first `n` partitions.
pub open spec fn partition_lines(ps: Seq<ConsumerGroupPartition>, n: nat) -> Seq<Seq<(GroupTone, Seq<char>)>>
    decreases n,
{
    if n == 0 || n > ps.len() {
        seq![]
    } else {
        partition_lines(ps, (n - 1) as nat).push(partition_line(ps[n - 1]))
    }
}

/// The lines of one group: its name and state, its members and total lag,
/// and, when it has partitions, a table of them.
pub open spec fn group_block(g: ConsumerGroupInfo, selected: bool) -> Seq<Seq<(GroupTone, Seq<char>)>> {
    let name_tone = if selected {
        GroupTone::SelectedName
    } else {
        GroupTone::Name
    };
    let state_tone = if g.state@ == "Stable"@ {
        GroupTone::Stable
    } else {
        GroupTone::Unsettled
    };
    let header = seq![
        (name_tone, if selected {
            "▸ "@
        } else {
            "  "@
        }),
        (name_tone, g.name@ + " "@),
        (state_tone, "("@ + g.state@ + ")"@),
    ];
    let members = seq![
        (GroupTone::Label, "    Members: "@),
        (GroupTone::Value, decimal(g.members as nat)),
        (GroupTone::Label, "  Total lag: "@),
        (lag_tone(g.total_lag), signed_decimal(g.total_lag as int)),
    ];
    let table = if g.partitions@.len() > 0 {
        seq![seq![(GroupTone::Label, "    Partition   Offset        High WM       Lag"@)]] + partition_lines(
            g.partitions@,
            g.partitions@.len(),
        )
    } else {
        seq![]
    };
    seq![header, members] + table
}

pub open spec fn blank_line() -> Seq<(GroupTone, Seq<char>)> {
    seq![(GroupTone::Plain, Seq::<char>::empty())]
}

/// The lines of the first `n` groups, an empty line between two groups.
pub open spec fn groups_upto(gs: Seq<ConsumerGroupInfo>, n: nat, selected: Option<usize>) -> Seq<
    Seq<(GroupTone, Seq<char>)>,
>
    decreases n,
{
    if n == 0 || n > gs.len() {
        seq![]
    } else {
        groups_upto(gs, (n - 1) as nat, selected) + (if n > 1 {
            seq![blank_line()]
        } else {
            seq![]
        }) + group_block(gs[n - 1], selected == Some((n - 1) as usize))
    }
}

/// The hints at the bottom of the popup.
pub open spec fn hint_line() -> Seq<(GroupTone, Seq<char>)> {
    seq![
        (GroupTone::HintKey, "  j/k"@),
        (GroupTone::Muted, ":navigate  "@),
        (GroupTone::HintKey, "R"@),
        (GroupTone::Muted, ":reset offsets  "@),
        (GroupTone::HintKey, "esc"@),
        (GroupTone::Muted, ":close"@),
    ]
}

/// The popup's lines: a note while loading or when there are no groups,
/// else the groups and the hints.
pub open spec fn groups_display(gs: Seq<ConsumerGroupInfo>, selected: Option<usize>, loading: bool) -> Seq<
    Seq<(GroupTone, Seq<char>)>,
> {
    if gs.len() == 0 && loading {
        seq![seq![(GroupTone::Muted, "  Loading..."@)]]
    } else if gs.len() == 0 {
        seq![seq![(GroupTone::Muted, "  No consumer groups found for this topic"@)]]
    } else {
        groups_upto(gs, gs.len(), selected) + seq![blank_line(), hint_line()]
    }
}

/// The lines the first `n` groups take, counted as four and one a
/// partition each.
pub open spec fn rows_before(gs: Seq<ConsumerGroupInfo>, n: nat) -> nat
    decreases n,
{
    if n == 0 {
        0
    } else if n > gs.len() {
        rows_before(gs, gs.len())
    } else {
        rows_before(gs, (n - 1) as nat) + 4 + gs[n - 1].partitions@.len()
    }
}

/// Where the popup scrolls: with a group selected whose estimated first
/// line is out of the `height` lines shown, so that it comes to the middle.
pub open spec fn groups_scroll_spec(gs: Seq<ConsumerGroupInfo>, selected: Option<usize>, height: usize) -> u16 {
    match selected {
        Some(sel) => {
            let line = rows_before(gs, sel as nat);
            if line >= height {
                (line - height / 2) as u16
            } else {
                0
            }
        },
        None => 0,
    }
}

fn piece(tone: GroupTone, text: String) -> (r: GroupPiece)
    ensures
        r.tone == tone,
        r.text@ == text@,
{
    GroupPiece { tone, text }
}

/// A number padded on the right to `w` characters.
fn padded_number(prefix: &str, n: i64, w: usize) -> (r: String)
    ensures
        r@ == prefix@ + padded(signed_decimal(n as int), w as nat),
{
    let mut num = String::new();
    push_signed(&mut num, n);
    assert(num@ =~= signed_decimal(n as int));
    let len = chars_of(num.as_str()).len();
    let mut k = len;
    let ghost digits = num@;
    while k < w
        invariant
            len == digits.len(),
            len <= k <= w || (k == len && len >= w),
            num@ == digits + Seq::new((k - len) as nat, |i: int| ' '),
        decreases w - k,
    {
        push_char(&mut num, ' ');
        assert(num@ =~= digits + Seq::new((k + 1 - len) as nat, |i: int| ' '));
        k = k + 1;
    }
    assert(num@ =~= padded(digits, w as nat));
    let mut r = owned(prefix);
    push_str(&mut r, num.as_str());
    r
}

fn lag_tone_of(lag: i64) -> (r: GroupTone)
    ensures
        r == lag_tone(lag),
{
    if lag > 0 {
        GroupTone::LagWarning
    } else {
        GroupTone::LagOk
    }
}

fn number_text(n: i64) -> (r: String)
    ensures
        r@ == signed_decimal(n as int),
{
    let mut s = String::new();
    push_signed(&mut s, n);
    assert(s@ =~= signed_decimal(n as int));
    s
}

fn partition_line_of(p: &ConsumerGroupPartition) -> (r: Vec<GroupPiece>)
    ensures
        line_view(r) == partition_line(*p),
{
    let mut l: Vec<GroupPiece> = Vec::new();
    l.push(piece(GroupTone::Value, padded_number("    P", p.partition as i64, 10)));
    l.push(piece(GroupTone::Value, padded_number("", p.current_offset, 14)));
    l.push(piece(GroupTone::Value, padded_number("", p.high_watermark, 14)));
    l.push(piece(lag_tone_of(p.lag), number_text(p.lag)));
    proof {
        reveal_strlit("");
    }
    assert(line_view(l) =~= partition_line(*p));
    l
}

fn push_group_block(out: &mut Vec<Vec<GroupPiece>>, g: &ConsumerGroupInfo, selected: bool)
    ensures
        lines_view(final(out)@) == lines_view(old(out)@) + group_block(*g, selected),
{
    let ghost start = lines_view(out@);
    let name_tone = if selected {
        GroupTone::SelectedName
    } else {
        GroupTone::Name
    };
    let state_tone = if same_text(g.state.as_str(), "Stable") {
        GroupTone::Stable
    } else {
        GroupTone::Unsettled
    };
    let mut header: Vec<GroupPiece> = Vec::new();
    header.push(piece(name_tone, owned(if selected { "▸ " } else { "  " })));
    let mut name = g.name.clone();
    push_str(&mut name, " ");
    header.push(piece(name_tone, name));
    let mut state = owned("(");
    push_str(&mut state, g.state.as_str());
    push_str(&mut state, ")");
    header.push(piece(state_tone, state));
    let mut members: Vec<GroupPiece> = Vec::new();
    members.push(piece(GroupTone::Label, owned("    Members: ")));
    let mut count = String::new();
    push_decimal(&mut count, g.members as u64);
    assert(count@ =~= decimal(g.members as nat));
    members.push(piece(GroupTone::Value, count));
    members.push(piece(GroupTone::Label, owned("  Total lag: ")));
    members.push(piece(lag_tone_of(g.total_lag), number_text(g.total_lag)));
    let ghost name_tone_spec = if selected {
        GroupTone::SelectedName
    } else {
        GroupTone::Name
    };
    assert(line_view(header) =~= seq![
        (name_tone_spec, if selected {
            "▸ "@
        } else {
            "  "@
        }),
        (name_tone_spec, g.name@ + " "@),
        (state_tone, "("@ + g.state@ + ")"@),
    ]);
    assert(line_view(members) =~= seq![
        (GroupTone::Label, "    Members: "@),
        (GroupTone::Value, decimal(g.members as nat)),
        (GroupTone::Label, "  Total lag: "@),
        (lag_tone(g.total_lag), signed_decimal(g.total_lag as int)),
    ]);
    out.push(header);
    out.push(members);
    let ghost with_head = lines_view(out@);
    if g.partitions.len() > 0 {
        let mut head: Vec<GroupPiece> = Vec::new();
        head.push(piece(GroupTone::Label, owned("    Partition   Offset        High WM       Lag")));
        assert(line_view(head) =~= seq![(GroupTone::Label, "    Partition   Offset        High WM       Lag"@)]);
        out.push(head);
        let ghost with_table_head = lines_view(out@);
        let mut i: usize = 0;
        while i < g.partitions.len()
            invariant
                i <= g.partitions@.len(),
                lines_view(out@) == with_table_head + partition_lines(g.partitions@, i as nat),
            decreases g.partitions.len() - i,
        {
            let line = partition_line_of(&g.partitions[i]);
            let ghost prev = out@;
            out.push(line);
            assert(lines_view(out@) =~= lines_view(prev).push(partition_line(g.partitions@[i as int])));
            assert(lines_view(out@) =~= with_table_head + partition_lines(g.partitions@, (i + 1) as nat));
            i = i + 1;
        }
    }
    assert(lines_view(out@) =~= start + group_block(*g, selected));
}

/// The lines of the consumer groups popup.
pub fn groups_lines(groups: &Vec<ConsumerGroupInfo>, selected: Option<usize>, loading: bool) -> (r: Vec<
    Vec<GroupPiece>,
>)
    ensures
        lines_view(r@) == groups_display(groups@, selected, loading),
{
    let mut out: Vec<Vec<GroupPiece>> = Vec::new();
    if groups.len() == 0 {
        let mut l: Vec<GroupPiece> = Vec::new();
        if loading {
            l.push(piece(GroupTone::Muted, owned("  Loading...")));
        } else {
            l.push(piece(GroupTone::Muted, owned("  No consumer groups found for this topic")));
        }
        if loading {
            assert(line_view(l) =~= seq![(GroupTone::Muted, "  Loading..."@)]);
        } else {
            assert(line_view(l) =~= seq![(GroupTone::Muted, "  No consumer groups found for this topic"@)]);
        }
        out.push(l);
        assert(lines_view(out@) =~= groups_display(groups@, selected, loading));
        return out;
    }
    let mut i: usize = 0;
    while i < groups.len()
        invariant
            i <= groups@.len(),
            lines_view(out@) == groups_upto(groups@, i as nat, selected),
        decreases groups.len() - i,
    {
        let ghost before = lines_view(out@);
        if i > 0 {
            let mut blank: Vec<GroupPiece> = Vec::new();
            blank.push(piece(GroupTone::Plain, String::new()));
            assert(line_view(blank) =~= blank_line());
            out.push(blank);
            assert(lines_view(out@) =~= before.push(blank_line()));
        }
        let ghost mid = lines_view(out@);
        let is_selected = match selected {
            Some(s) => s == i,
            None => false,
        };
        push_group_block(&mut out, &groups[i], is_selected);
        assert(is_selected == (selected == Some(i)));
        assert(mid =~= before + (if i + 1 > 1 {
            seq![blank_line()]
        } else {
            seq![]
        }));
        assert(lines_view(out@) =~= groups_upto(groups@, (i + 1) as nat, selected));
        i = i + 1;
    }
    let ghost body = lines_view(out@);
    let mut blank: Vec<GroupPiece> = Vec::new();
    blank.push(piece(GroupTone::Plain, String::new()));
    assert(line_view(blank) =~= blank_line());
    out.push(blank);
    let mut hints: Vec<GroupPiece> = Vec::new();
    hints.push(piece(GroupTone::HintKey, owned("  j/k")));
    hints.push(piece(GroupTone::Muted, owned(":navigate  ")));
    hints.push(piece(GroupTone::HintKey, owned("R")));
    hints.push(piece(GroupTone::Muted, owned(":reset offsets  ")));
    hints.push(piece(GroupTone::HintKey, owned("esc")));
    hints.push(piece(GroupTone::Muted, owned(":close")));
    assert(line_view(hints) =~= hint_line());
    out.push(hints);
    assert(lines_view(out@) =~= body + seq![blank_line(), hint_line()]);
    assert(lines_view(out@) =~= groups_display(groups@, selected, loading));
    out
}

/// Where the consumer groups popup scrolls, `height` lines being shown.
pub fn groups_scroll(groups: &Vec<ConsumerGroupInfo>, selected: Option<usize>, height: usize) -> (r: u16)
    requires
        rows_before(groups@, groups@.len()) <= usize::MAX,
    ensures
        r == groups_scroll_spec(groups@, selected, height),
{
    match selected {
        None => 0,
        Some(sel) => {
            let n = if sel < groups.len() {
                sel
            } else {
                groups.len()
            };
            let mut line: usize = 0;
            let mut i: usize = 0;
            while i < n
                invariant
                    n <= groups@.len(),
                    i <= n,
                    line == rows_before(groups@, i as nat),
                    rows_before(groups@, groups@.len()) <= usize::MAX,
                decreases n - i,
            {
                proof {
                    lemma_rows_before_grows(groups@, (i + 1) as nat, groups@.len());
                }
                line = line + 4 + groups[i].partitions.len();
                i = i + 1;
            }
            assert(rows_before(groups@, sel as nat) == rows_before(groups@, n as nat));
            if line >= height {
                (line - height / 2) as u16
            } else {
                0
            }
        },
    }
}

proof fn lemma_rows_before_grows(gs: Seq<ConsumerGroupInfo>, a: nat, b: nat)
    requires
        a <= b <= gs.len(),
    ensures
        rows_before(gs, a) <= rows_before(gs, b),
    decreases b - a,
{
    if a < b {
        lemma_rows_before_grows(gs, a, (b - 1) as nat);
    }
}

proof fn lemma_partition_lines(ps: Seq<ConsumerGroupPartition>, n: nat)
    requires
        n <= ps.len(),
    ensures
        partition_lines(ps, n).len() == n,
        forall|i: int| 0 <= i < n ==> #[trigger] partition_lines(ps, n)[i] == partition_line(ps[i]),
    decreases n,
{
    if n > 0 {
        lemma_partition_lines(ps, (n - 1) as nat);
    }
}

/// A lag is drawn as a warning exactly when it is above zero: the total
/// lag on a group's second line, and each partition's lag at the end of
/// its row in the table.
pub proof fn lemma_lag_tones(g: ConsumerGroupInfo, selected: bool)
    ensures
        group_block(g, selected)[1][3] == (
            if g.total_lag > 0 {
                GroupTone::LagWarning
            } else {
                GroupTone::LagOk
            },
            signed_decimal(g.total_lag as int),
        ),
        group_block(g, selected).len() == if g.partitions@.len() > 0 {
            3 + g.partitions@.len()
        } else {
            2
        },
        forall|i: int|
            0 <= i < g.partitions@.len() ==> (#[trigger] group_block(g, selected)[3 + i])[3] == (
                if g.partitions@[i].lag > 0 {
                    GroupTone::LagWarning
                } else {
                    GroupTone::LagOk
                },
                signed_decimal(g.partitions@[i].lag as int),
            ),
{
    lemma_partition_lines(g.partitions@, g.partitions@.len());
    let b = group_block(g, selected);
    assert forall|i: int| 0 <= i < g.partitions@.len() implies (#[trigger] b[3 + i])[3] == (
        if g.partitions@[i].lag > 0 {
            GroupTone::LagWarning
        } else {
            GroupTone::LagOk
        },
        signed_decimal(g.partitions@[i].lag as int),
    ) by {
        assert(b[3 + i] == partition_lines(g.partitions@, g.partitions@.len())[i]);
    }
}

} // verus!
