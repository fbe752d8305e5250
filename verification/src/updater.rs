//! Deciding when to look for a newer release, and whether a release is newer
//! than the running version. The network call itself is made by the caller.

use vstd::prelude::*;
use crate::json::{split_on, split_text};
use crate::text::{parse_u32, parse_unsigned, trim_leading_v, trimmed_leading_v};

verus! {

/// Seconds between two checks for a new release.
pub const CHECK_INTERVAL_SECS: u64 = 3600;

/// What a check for a new release found.
#[derive(Debug)]
pub enum UpdateStatus {
    /// A newer version, by its version string.
    Available(String),
    UpToDate,
    Error(String),
}

/// The numbers among the dot-separated pieces `parts`, in order; pieces
/// that are not numbers are skipped.
pub open spec fn numeric_parts(parts: Seq<Seq<char>>) -> Seq<u32>
    decreases parts.len(),
{
    if parts.len() == 0 {
        Seq::empty()
    } else {
        let rest = numeric_parts(parts.drop_last());
        match parse_unsigned(parts.last(), 4294967295) {
            Some(v) => rest.push(v as u32),
            None => rest,
        }
    }
}

/// The numeric components of a version string such as `1.2.3`.
pub open spec fn version_parts(v: Seq<char>) -> Seq<u32> {
    numeric_parts(split_on(v, '.'))
}

/// `l` is greater than `c` in lexicographic order (a longer sequence with
/// `c` as prefix is greater).
pub open spec fn seq_greater(l: Seq<u32>, c: Seq<u32>) -> bool
    decreases l.len(),
{
    if l.len() == 0 {
        false
    } else if c.len() == 0 {
        true
    } else if l[0] != c[0] {
        l[0] > c[0]
    } else {
        seq_greater(l.drop_first(), c.drop_first())
    }
}

/// Versions are compared part by part: `l` is newer than `c` exactly when,
/// after the parts they share, either `l` has a larger part or `c` has
/// ended while `l` goes on.
pub proof fn lemma_version_order(l: Seq<u32>, c: Seq<u32>)
    ensures
        seq_greater(l, c) <==> exists|i: int|
            0 <= i <= l.len() && i <= c.len() && #[trigger] l.take(i) == c.take(i) && ((i == c.len()
                && i < l.len()) || (i < l.len() && i < c.len() && l[i] > c[i])),
    decreases l.len(),
{
    if l.len() == 0 {
        assert forall|i: int|
            0 <= i <= l.len() && i <= c.len() && #[trigger] l.take(i) == c.take(i) implies !((i == c.len()
                && i < l.len()) || (i < l.len() && i < c.len() && l[i] > c[i])) by {}
    } else if c.len() == 0 {
        assert(l.take(0) =~= c.take(0));
    } else if l[0] != c[0] {
        assert(l.take(0) =~= c.take(0));
        assert forall|i: int|
            0 <= i <= l.len() && i <= c.len() && #[trigger] l.take(i) == c.take(i) implies i == 0 by {
            if i > 0 {
                assert(l.take(i)[0] == c.take(i)[0]);
            }
        }
    } else {
        lemma_version_order(l.drop_first(), c.drop_first());
        let l1 = l.drop_first();
        let c1 = c.drop_first();
        if seq_greater(l, c) {
            let j = choose|j: int|
                0 <= j <= l1.len() && j <= c1.len() && #[trigger] l1.take(j) == c1.take(j) && ((j
                    == c1.len() && j < l1.len()) || (j < l1.len() && j < c1.len() && l1[j] > c1[j]));
            assert(l.take(j + 1) =~= seq![l[0]] + l1.take(j));
            assert(c.take(j + 1) =~= seq![c[0]] + c1.take(j));
            assert(l.take(j + 1) == c.take(j + 1));
        }
        assert forall|i: int|
            0 <= i <= l.len() && i <= c.len() && #[trigger] l.take(i) == c.take(i) && ((i == c.len()
                && i < l.len()) || (i < l.len() && i < c.len() && l[i] > c[i])) implies seq_greater(
            l,
            c,
        ) by {
            if i == 0 {
            } else {
                assert(l1.take(i - 1) =~= l.take(i).drop_first());
                assert(c1.take(i - 1) =~= c.take(i).drop_first());
                assert(l1.take(i - 1) == c1.take(i - 1));
                assert(i - 1 < l1.len() ==> l1[i - 1] == l[i]);
                assert(i - 1 < c1.len() ==> c1[i - 1] == c[i]);
            }
        }
    }
}

/// A release whose parts agree with the running version's up to the last
/// one, which is larger, is newer (`1.2.4` after `1.2.3`); one whose parts
/// all agree is not newer.
pub proof fn lemma_later_patch_is_newer(l: Seq<u32>, c: Seq<u32>)
    requires
        l.len() == c.len(),
        l.len() > 0,
        l.drop_last() == c.drop_last(),
    ensures
        seq_greater(l, c) <==> l.last() > c.last(),
{
    lemma_version_order(l, c);
    let n = l.len() - 1;
    assert(l.take(n) =~= l.drop_last());
    assert(c.take(n) =~= c.drop_last());
    if seq_greater(l, c) {
        let i = choose|i: int|
            0 <= i <= l.len() && i <= c.len() && #[trigger] l.take(i) == c.take(i) && ((i == c.len()
                && i < l.len()) || (i < l.len() && i < c.len() && l[i] > c[i]));
        if i < n {
            assert(l.take(n)[i] == c.take(n)[i]);
        }
    }
}

/// The numeric components of a version string.
pub fn parse_version(v: &str) -> (r: Vec<u32>)
    ensures
        r@ == version_parts(v@),
{
    let parts = split_text(v, '.');
    let ghost ps = parts@.map_values(|x: String| x@);
    let mut r: Vec<u32> = Vec::new();
    let mut i: usize = 0;
    while i < parts.len()
        invariant
            i <= parts@.len(),
            ps == parts@.map_values(|x: String| x@),
            ps == split_on(v@, '.'),
            r@ == numeric_parts(ps.take(i as int)),
        decreases parts.len() - i,
    {
        proof {
            assert(ps.take(i + 1).drop_last() =~= ps.take(i as int));
            assert(ps.take(i + 1).last() == parts@[i as int]@);
        }
        match parse_u32(parts[i].as_str()) {
            Some(x) => r.push(x),
            None => {},
        }
        i = i + 1;
    }
    assert(ps.take(ps.len() as int) =~= ps);
    r
}

/// Whether version `latest` is newer than version `current`, comparing
/// their numeric components in order.
pub fn version_newer(latest: &str, current: &str) -> (r: bool)
    ensures
        r == seq_greater(version_parts(latest@), version_parts(current@)),
{
    let l = parse_version(latest);
    let c = parse_version(current);
    let mut i: usize = 0;
    assert(l@.skip(0) =~= l@);
    assert(c@.skip(0) =~= c@);
    while i < l.len() && i < c.len()
        invariant
            l@ == version_parts(latest@),
            c@ == version_parts(current@),
            i <= l@.len(),
            i <= c@.len(),
            seq_greater(l@, c@) == seq_greater(l@.skip(i as int), c@.skip(i as int)),
        decreases l.len() - i,
    {
        assert(l@.skip(i as int)[0] == l@[i as int]);
        assert(c@.skip(i as int)[0] == c@[i as int]);
        if l[i] != c[i] {
            assert(l@.skip(i as int).len() > 0 && c@.skip(i as int).len() > 0);
            assert(seq_greater(l@.skip(i as int), c@.skip(i as int)) == (l@[i as int]
                > c@[i as int]));
            return l[i] > c[i];
        }
        assert(l@.skip(i as int).drop_first() =~= l@.skip(i + 1));
        assert(c@.skip(i as int).drop_first() =~= c@.skip(i + 1));
        i = i + 1;
    }
    assert(i == l@.len() ==> l@.skip(i as int).len() == 0);
    assert(i == c@.len() ==> c@.skip(i as int).len() == 0);
    i < l.len()
}

/// The version that the release tagged `latest_tag` offers, without its
/// leading `v`s, when it is newer than `current`.
pub fn newer_release(latest_tag: &str, current: &str) -> (r: Option<String>)
    ensures
        seq_greater(version_parts(trim_leading_v(latest_tag@)), version_parts(current@)) ==> (r
            matches Some(v) && v@ == trim_leading_v(latest_tag@)),
        !seq_greater(version_parts(trim_leading_v(latest_tag@)), version_parts(current@)) ==> r
            is None,
{
    let v = trimmed_leading_v(latest_tag);
    if version_newer(v.as_str(), current) {
        Some(v)
    } else {
        None
    }
}

/// Keeps track of the periodic check for a new release.
#[derive(Debug)]
pub struct UpdateChecker {
    pub latest_version: Option<String>,
    pub update_available: bool,
    pub checking: bool,
    /// When the last check finished, in seconds of a monotonic clock.
    pub last_check: Option<u64>,
}

/// A check is due at time `now`: none is running, and none finished within
/// the last hour.
pub open spec fn check_due(c: UpdateChecker, now: u64) -> bool {
    !c.checking && match c.last_check {
        None => true,
        Some(last) => now >= last + CHECK_INTERVAL_SECS,
    }
}

impl UpdateChecker {
    /// A checker that has not checked yet.
    pub fn new() -> (r: UpdateChecker)
        ensures
            r.latest_version is None,
            !r.update_available,
            !r.checking,
            r.last_check is None,
    {
        UpdateChecker { latest_version: None, update_available: false, checking: false, last_check: None }
    }

    /// Whether a check should start at time `now`.
    pub fn should_check(&self, now: u64) -> (r: bool)
        ensures
            r == check_due(*self, now),
    {
        if self.checking {
            return false;
        }
        match self.last_check {
            None => true,
            Some(last) => now >= last && now - last >= CHECK_INTERVAL_SECS,
        }
    }

    /// Marks a check as running; `true` when the caller should start one
    /// (none was running).
    pub fn start_check(&mut self) -> (r: bool)
        ensures
            r == !old(self).checking,
            final(self).checking,
            final(self).latest_version == old(self).latest_version,
            final(self).update_available == old(self).update_available,
            final(self).last_check == old(self).last_check,
    {
        if self.checking {
            return false;
        }
        self.checking = true;
        true
    }

    /// Takes in the outcome of a check, if one arrived, at time `now`.
    pub fn poll(&mut self, status: Option<UpdateStatus>, now: u64)
        ensures
            status is None ==> final(self).checking == old(self).checking && final(self).last_check
                == old(self).last_check && final(self).latest_version == old(self).latest_version
                && final(self).update_available == old(self).update_available,
            status is Some ==> !final(self).checking && final(self).last_check == Some(now),
            status matches Some(UpdateStatus::Available(v)) ==> final(self).latest_version == Some(v)
                && final(self).update_available,
            status matches Some(UpdateStatus::UpToDate) ==> !final(self).update_available
                && final(self).latest_version == old(self).latest_version,
            status matches Some(UpdateStatus::Error(_)) ==> final(self).update_available == old(self).update_available && final(self).latest_version == old(self).latest_version,
    {
        match status {
            None => {},
            Some(s) => {
                self.checking = false;
                self.last_check = Some(now);
                match s {
                    UpdateStatus::Available(version) => {
                        self.latest_version = Some(version);
                        self.update_available = true;
                    },
                    UpdateStatus::UpToDate => {
                        self.update_available = false;
                    },
                    UpdateStatus::Error(_) => {},
                }
            },
        }
    }
}

/// Once a check's outcome has arrived at time `t`, no new check is due
/// before `t` plus the interval, and one is due from then on.
pub proof fn lemma_checks_are_hourly(c: UpdateChecker, t: u64, now: u64)
    requires
        !c.checking,
        c.last_check == Some(t),
    ensures
        check_due(c, now) <==> now >= t + CHECK_INTERVAL_SECS,
{
}

/// While a check runs, no other is started.
pub proof fn lemma_one_check_at_a_time(c: UpdateChecker, now: u64)
    requires
        c.checking,
    ensures
        !check_due(c, now),
{
}

} // verus!
