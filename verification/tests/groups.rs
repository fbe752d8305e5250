use queuepeek::groups::{groups_lines, groups_scroll, GroupPiece, GroupTone};
use queuepeek::model::{ConsumerGroupInfo, ConsumerGroupPartition};

fn groups() -> Vec<ConsumerGroupInfo> {
    vec![
        ConsumerGroupInfo {
            name: "g1".to_string(),
            state: "Stable".to_string(),
            members: 2,
            total_lag: 5,
            partitions: vec![ConsumerGroupPartition { partition: 0, current_offset: 10, high_watermark: 15, lag: 5 }],
        },
        ConsumerGroupInfo {
            name: "g2".to_string(),
            state: "Empty".to_string(),
            members: 0,
            total_lag: 0,
            partitions: vec![],
        },
    ]
}

fn flat(lines: &[Vec<GroupPiece>]) -> Vec<Vec<(GroupTone, String)>> {
    lines.iter().map(|l| l.iter().map(|p| (p.tone, p.text.clone())).collect()).collect()
}

fn p(t: GroupTone, s: &str) -> (GroupTone, String) {
    (t, s.to_string())
}

#[test]
fn group_lines_show_state_members_and_lag() {
    let got = flat(&groups_lines(&groups(), Some(1), false));
    assert_eq!(got.len(), 9);
    assert_eq!(got[0], vec![p(GroupTone::Name, "  "), p(GroupTone::Name, "g1 "), p(GroupTone::Stable, "(Stable)")]);
    assert_eq!(
        got[1],
        vec![
            p(GroupTone::Label, "    Members: "),
            p(GroupTone::Value, "2"),
            p(GroupTone::Label, "  Total lag: "),
            p(GroupTone::LagWarning, "5"),
        ]
    );
    assert_eq!(got[2], vec![p(GroupTone::Label, "    Partition   Offset        High WM       Lag")]);
    assert_eq!(
        got[3],
        vec![
            p(GroupTone::Value, "    P0         "),
            p(GroupTone::Value, "10            "),
            p(GroupTone::Value, "15            "),
            p(GroupTone::LagWarning, "5"),
        ]
    );
    assert_eq!(got[4], vec![p(GroupTone::Plain, "")]);
    assert_eq!(
        got[5],
        vec![p(GroupTone::SelectedName, "▸ "), p(GroupTone::SelectedName, "g2 "), p(GroupTone::Unsettled, "(Empty)")]
    );
    assert_eq!(got[6][3], p(GroupTone::LagOk, "0"));
    assert_eq!(got[8][0], p(GroupTone::HintKey, "  j/k"));
    assert_eq!(got[8][5], p(GroupTone::Muted, ":close"));
}

#[test]
fn group_lines_without_groups() {
    assert_eq!(flat(&groups_lines(&vec![], None, true)), vec![vec![p(GroupTone::Muted, "  Loading...")]]);
    assert_eq!(
        flat(&groups_lines(&vec![], None, false)),
        vec![vec![p(GroupTone::Muted, "  No consumer groups found for this topic")]]
    );
}

#[test]
fn group_scroll_brings_the_selection_to_the_middle() {
    let gs = groups();
    assert_eq!(groups_scroll(&gs, Some(1), 4), 3);
    assert_eq!(groups_scroll(&gs, Some(1), 10), 0);
    assert_eq!(groups_scroll(&gs, Some(0), 1), 0);
    assert_eq!(groups_scroll(&gs, None, 1), 0);
    assert_eq!(groups_scroll(&gs, Some(5), 6), 6);
    let negative = vec![ConsumerGroupInfo {
        name: "n".to_string(),
        state: "Dead".to_string(),
        members: 0,
        total_lag: -3,
        partitions: vec![],
    }];
    assert_eq!(flat(&groups_lines(&negative, None, false))[1][3], p(GroupTone::LagOk, "-3"));
}
