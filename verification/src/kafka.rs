//! The decisions of the Kafka backend that need no broker: client settings,
//! security description, where a peek starts, message keys, consumer group
//! lag, and the texts shown for offsets resets and topic configuration.

use vstd::prelude::*;
use crate::config::Profile;
use crate::model::{ConsumerGroupPartition, OffsetResetStrategy, PermissionEntry};
use crate::text::{
    contains, contains_text, decimal, has_prefix, owned, parse_i64, parse_i64_spec, push_decimal,
    push_signed, push_str, signed_decimal, starts_with,
};

verus! {

/// Connection settings of a Kafka profile.
#[derive(Debug)]
pub struct KafkaBackend {
    broker: String,
    username: String,
    password: String,
    tls: bool,
    tls_ca: Option<String>,
    tls_cert: Option<String>,
    tls_key: Option<String>,
}

/// A list of key-value settings, as character sequences.
pub open spec fn pairs_view(v: Seq<(String, String)>) -> Seq<(Seq<char>, Seq<char>)> {
    v.map_values(|p: (String, String)| (p.0@, p.1@))
}

/// Appends the setting `key = value`.
fn push_setting(v: &mut Vec<(String, String)>, key: &str, value: &str)
    ensures
        pairs_view(final(v)@) == pairs_view(old(v)@).push((key@, value@)),
{
    let ghost before = v@;
    v.push((owned(key), owned(value)));
    assert(pairs_view(v@) =~= pairs_view(before).push((key@, value@)));
}

/// An optional setting: present when `value` is.
pub open spec fn optional_setting(key: Seq<char>, value: Option<String>) -> Seq<(Seq<char>, Seq<char>)> {
    match value {
        Some(v) => seq![(key, v@)],
        None => Seq::empty(),
    }
}

impl KafkaBackend {
    /// The broker address `host:port`.
    pub closed spec fn broker_view(&self) -> Seq<char> {
        self.broker@
    }

    /// The user name, empty for none.
    pub closed spec fn username_view(&self) -> Seq<char> {
        self.username@
    }

    /// Whether TLS is on.
    pub closed spec fn tls_view(&self) -> bool {
        self.tls
    }

    /// The settings a Kafka client of this profile is created with, in order.
    pub closed spec fn settings_spec(&self) -> Seq<(Seq<char>, Seq<char>)> {
        let base = seq![
            ("bootstrap.servers"@, self.broker@),
            ("socket.timeout.ms"@, "10000"@),
            ("request.timeout.ms"@, "10000"@),
        ];
        let auth = if self.username@.len() > 0 {
            seq![
                ("security.protocol"@, if self.tls {
                    "SASL_SSL"@
                } else {
                    "SASL_PLAINTEXT"@
                }),
                ("sasl.mechanisms"@, "PLAIN"@),
                ("sasl.username"@, self.username@),
                ("sasl.password"@, self.password@),
            ]
        } else if self.tls {
            seq![("security.protocol"@, "SSL"@)]
        } else {
            Seq::empty()
        };
        base + auth + optional_setting("ssl.ca.location"@, self.tls_ca) + optional_setting(
            "ssl.certificate.location"@,
            self.tls_cert,
        ) + optional_setting("ssl.key.location"@, self.tls_key)
    }

    /// The settings of a profile: broker `host:port`, credentials, TLS.
    pub fn new(profile: &Profile) -> (r: Result<KafkaBackend, String>)
        ensures
            r matches Ok(b) && b.broker_view() == profile.host@ + ":"@ + decimal(
                profile.port as nat,
            ) && b.username_view() == profile.username@ && b.tls_view() == (profile.tls == Some(
                true,
            )) && b.settings_spec() == ({
                let tls = profile.tls == Some(true);
                let broker = profile.host@ + ":"@ + decimal(profile.port as nat);
                let base = seq![
                    ("bootstrap.servers"@, broker),
                    ("socket.timeout.ms"@, "10000"@),
                    ("request.timeout.ms"@, "10000"@),
                ];
                let auth = if profile.username@.len() > 0 {
                    seq![
                        ("security.protocol"@, if tls {
                            "SASL_SSL"@
                        } else {
                            "SASL_PLAINTEXT"@
                        }),
                        ("sasl.mechanisms"@, "PLAIN"@),
                        ("sasl.username"@, profile.username@),
                        ("sasl.password"@, profile.password@),
                    ]
                } else if tls {
                    seq![("security.protocol"@, "SSL"@)]
                } else {
                    Seq::empty()
                };
                base + auth + optional_setting("ssl.ca.location"@, profile.tls_ca)
                    + optional_setting("ssl.certificate.location"@, profile.tls_cert)
                    + optional_setting("ssl.key.location"@, profile.tls_key)
            }),
    {
        let mut broker = profile.host.clone();
        push_str(&mut broker, ":");
        push_decimal(&mut broker, profile.port as u64);
        Ok(
            KafkaBackend {
                broker,
                username: profile.username.clone(),
                password: profile.password.clone(),
                tls: match profile.tls {
                    Some(t) => t,
                    None => false,
                },
                tls_ca: match &profile.tls_ca {
                    Some(s) => Some(s.clone()),
                    None => None,
                },
                tls_cert: match &profile.tls_cert {
                    Some(s) => Some(s.clone()),
                    None => None,
                },
                tls_key: match &profile.tls_key {
                    Some(s) => Some(s.clone()),
                    None => None,
                },
            },
        )
    }

    /// The broker address.
    pub fn broker(&self) -> (r: &str)
        ensures
            r@ == self.broker_view(),
    {
        self.broker.as_str()
    }

    /// The settings a Kafka client of this profile is created with.
    pub fn client_settings(&self) -> (r: Vec<(String, String)>)
        ensures
            pairs_view(r@) == self.settings_spec(),
    {
        let mut v: Vec<(String, String)> = Vec::new();
        push_setting(&mut v, "bootstrap.servers", self.broker.as_str());
        push_setting(&mut v, "socket.timeout.ms", "10000");
        push_setting(&mut v, "request.timeout.ms", "10000");
        if !self.username.as_str().is_empty() {
            let protocol = if self.tls {
                "SASL_SSL"
            } else {
                "SASL_PLAINTEXT"
            };
            push_setting(&mut v, "security.protocol", protocol);
            push_setting(&mut v, "sasl.mechanisms", "PLAIN");
            push_setting(&mut v, "sasl.username", self.username.as_str());
            push_setting(&mut v, "sasl.password", self.password.as_str());
        } else if self.tls {
            push_setting(&mut v, "security.protocol", "SSL");
        }
        if let Some(ca) = &self.tls_ca {
            push_setting(&mut v, "ssl.ca.location", ca.as_str());
        }
        if let Some(cert) = &self.tls_cert {
            push_setting(&mut v, "ssl.certificate.location", cert.as_str());
        }
        if let Some(key) = &self.tls_key {
            push_setting(&mut v, "ssl.key.location", key.as_str());
        }
        proof {
            assert(pairs_view(v@) =~= self.settings_spec());
        }
        v
    }

    /// The security protocol of the connection.
    pub fn security_protocol(&self) -> (r: &'static str)
        ensures
            r@ == security_protocol_spec(self.username_view(), self.tls_view()),
    {
        if !self.username.as_str().is_empty() {
            if self.tls {
                "SASL_SSL"
            } else {
                "SASL_PLAINTEXT"
            }
        } else if self.tls {
            "SSL"
        } else {
            "PLAINTEXT"
        }
    }

    /// The permission entries that describe the connection itself: who
    /// connects with which protocol, and the SASL login when there is one.
    pub fn connection_permissions(&self) -> (r: Vec<PermissionEntry>)
        ensures
            r@.len() == if self.username_view().len() > 0 {
                2nat
            } else {
                1nat
            },
            r@[0].user_or_principal@ == if self.username_view().len() > 0 {
                self.username_view()
            } else {
                "anonymous"@
            },
            r@[0]._resource_type@ == "broker"@,
            r@[0].resource_name@ == self.broker_view(),
            r@[0].permission@ == security_protocol_spec(self.username_view(), self.tls_view()),
            r@[0]._operation@ == "connect"@,
            r@[0].host@ == "*"@,
            self.username_view().len() > 0 ==> ({
                let e = r@[1];
                &&& e.user_or_principal@ == self.username_view()
                &&& e._resource_type@ == "broker"@
                &&& e.resource_name@ == "SASL/PLAIN"@
                &&& e.permission@ == "authenticated"@
                &&& e._operation@ == "sasl"@
                &&& e.host@ == self.broker_view()
            }),
    {
        let mut entries: Vec<PermissionEntry> = Vec::new();
        let user = if self.username.as_str().is_empty() {
            owned("anonymous")
        } else {
            self.username.clone()
        };
        entries.push(
            PermissionEntry {
                user_or_principal: user,
                _resource_type: owned("broker"),
                resource_name: self.broker.clone(),
                permission: owned(self.security_protocol()),
                _operation: owned("connect"),
                host: owned("*"),
            },
        );
        if !self.username.as_str().is_empty() {
            entries.push(
                PermissionEntry {
                    user_or_principal: self.username.clone(),
                    _resource_type: owned("broker"),
                    resource_name: owned("SASL/PLAIN"),
                    permission: owned("authenticated"),
                    _operation: owned("sasl"),
                    host: self.broker.clone(),
                },
            );
        }
        entries
    }
}

/// The security protocol for a user name and TLS setting.
pub open spec fn security_protocol_spec(username: Seq<char>, tls: bool) -> Seq<char> {
    if username.len() > 0 {
        if tls {
            "SASL_SSL"@
        } else {
            "SASL_PLAINTEXT"@
        }
    } else if tls {
        "SSL"@
    } else {
        "PLAINTEXT"@
    }
}

/// A broker setting worth showing among permissions: its name mentions the
/// authorizer, ACLs, security, SASL, listeners, client TLS authentication,
/// principals or super users.
pub open spec fn security_setting_spec(name: Seq<char>) -> bool {
    contains(name, "authorizer"@) || contains(name, "acl"@) || contains(name, "security"@)
        || contains(name, "sasl"@) || contains(name, "listener"@) || contains(
        name,
        "ssl.client.auth"@,
    ) || contains(name, "principal"@) || contains(name, "super.users"@)
}

/// Whether a broker setting is worth showing among permissions.
pub fn is_security_setting(name: &str) -> (r: bool)
    ensures
        r == security_setting_spec(name@),
{
    contains_text(name, "authorizer") || contains_text(name, "acl") || contains_text(
        name,
        "security",
    ) || contains_text(name, "sasl") || contains_text(name, "listener") || contains_text(
        name,
        "ssl.client.auth",
    ) || contains_text(name, "principal") || contains_text(name, "super.users")
}

/// How many messages a peek reads from each of `partitions` partitions.
pub open spec fn per_partition(count: u32, partitions: usize) -> int {
    let q = (count as int) / (partitions as int);
    if q < 1 {
        1
    } else {
        q
    }
}

/// The offset a peek starts reading a partition at: far enough back from
/// the high watermark for its share of `count`, but not before the low one.
pub fn peek_start_offset(count: u32, partitions: usize, low: i64, high: i64) -> (r: i64)
    requires
        partitions > 0,
        high - per_partition(count, partitions) >= i64::MIN,
    ensures
        r == if high - per_partition(count, partitions) > low {
            high - per_partition(count, partitions)
        } else {
            low as int
        },
{
    let q: u64 = (count as u64) / (partitions as u64);
    let per: i64 = if q < 1 {
        1
    } else {
        q as i64
    };
    assert(per == per_partition(count, partitions));
    let start = high - per;
    if start > low {
        start
    } else {
        low
    }
}

/// The key a published record carries: the routing key, unless it is empty
/// or names a partition (`partition-...`).
pub fn record_key(routing_key: &str) -> (r: Option<String>)
    ensures
        (routing_key@.len() > 0 && !starts_with(routing_key@, "partition-"@)) ==> (r matches Some(
            k,
        ) && k@ == routing_key@),
        !(routing_key@.len() > 0 && !starts_with(routing_key@, "partition-"@)) ==> r is None,
{
    if !routing_key.is_empty() && !has_prefix(routing_key, "partition-") {
        Some(owned(routing_key))
    } else {
        None
    }
}

/// The lag of a partition: how far its high watermark is ahead of the
/// committed offset, never negative.
pub open spec fn lag_spec(high_watermark: i64, offset: i64) -> int {
    let d = high_watermark - offset;
    if d > 0 {
        d
    } else {
        0
    }
}

/// The high watermark listed for `partition`, or 0.
pub open spec fn watermark_of(hws: Seq<(i32, i64)>, partition: i32) -> i64
    decreases hws.len(),
{
    if hws.len() == 0 {
        0
    } else if hws[0].0 == partition {
        hws[0].1
    } else {
        watermark_of(hws.drop_first(), partition)
    }
}

/// The rows of committed offsets on `queue` that are set (not negative),
/// with their watermark and lag, in the order given.
pub open spec fn group_rows(
    committed: Seq<(String, i32, i64)>,
    queue: Seq<char>,
    hws: Seq<(i32, i64)>,
) -> Seq<ConsumerGroupPartition>
    decreases committed.len(),
{
    if committed.len() == 0 {
        Seq::empty()
    } else {
        let rest = group_rows(committed.drop_last(), queue, hws);
        let (topic, partition, offset) = committed.last();
        if topic@ != queue || offset < 0 {
            rest
        } else {
            let hw = watermark_of(hws, partition);
            rest.push(
                ConsumerGroupPartition {
                    partition,
                    current_offset: offset,
                    high_watermark: hw,
                    lag: lag_spec(hw, offset) as i64,
                },
            )
        }
    }
}

/// The sum of the lags of `rows`.
pub open spec fn total_lag_spec(rows: Seq<ConsumerGroupPartition>) -> int
    decreases rows.len(),
{
    if rows.len() == 0 {
        0
    } else {
        total_lag_spec(rows.drop_last()) + rows.last().lag
    }
}

/// Partitions in ascending order of partition number.
pub open spec fn sorted_by_partition(rows: Seq<ConsumerGroupPartition>) -> bool {
    forall|i: int, j: int| 0 <= i < j < rows.len() ==> rows[i].partition <= rows[j].partition
}

/// Every lag of the committed offsets of `queue` can be computed without
/// overflow.
pub open spec fn lags_fit(committed: Seq<(String, i32, i64)>, queue: Seq<char>, hws: Seq<(i32, i64)>) -> bool {
    forall|i: int|
        0 <= i < committed.len() && committed[i].0@ == queue && committed[i].2 >= 0 ==> watermark_of(
            hws,
            #[trigger] committed[i].1,
        ) - committed[i].2 >= i64::MIN
}

/// The high watermark listed for `partition`, or 0.
fn find_watermark(hws: &Vec<(i32, i64)>, partition: i32) -> (r: i64)
    ensures
        r == watermark_of(hws@, partition),
{
    let mut i: usize = 0;
    assert(hws@.skip(0) =~= hws@);
    while i < hws.len()
        invariant
            i <= hws@.len(),
            watermark_of(hws@, partition) == watermark_of(hws@.skip(i as int), partition),
        decreases hws.len() - i,
    {
        assert(hws@.skip(i as int)[0] == hws@[i as int]);
        assert(hws@.skip(i as int).drop_first() =~= hws@.skip(i + 1));
        if hws[i].0 == partition {
            return hws[i].1;
        }
        i = i + 1;
    }
    0
}

proof fn lemma_total_lag_nonneg(rows: Seq<ConsumerGroupPartition>)
    requires
        forall|i: int| 0 <= i < rows.len() ==> #[trigger] rows[i].lag >= 0,
    ensures
        total_lag_spec(rows) >= 0,
        forall|k: int| 0 <= k <= rows.len() ==> #[trigger] total_lag_spec(rows.take(k)) <= total_lag_spec(rows),
    decreases rows.len(),
{
    if rows.len() > 0 {
        let p = rows.drop_last();
        lemma_total_lag_nonneg(p);
        assert forall|k: int| 0 <= k <= rows.len() implies #[trigger] total_lag_spec(rows.take(k))
            <= total_lag_spec(rows) by {
            if k == rows.len() {
                assert(rows.take(k) =~= rows);
            } else {
                assert(rows.take(k) =~= p.take(k));
            }
        }
    }
}

/// The consumer-group rows of `queue`: each set committed offset with its
/// partition's high watermark and lag, in ascending partition order, and the
/// total lag; `None` when the group has committed nothing on the queue.
pub fn group_partitions(
    committed: &Vec<(String, i32, i64)>,
    queue: &str,
    high_watermarks: &Vec<(i32, i64)>,
) -> (r: Option<(Vec<ConsumerGroupPartition>, i64)>)
    requires
        lags_fit(committed@, queue@, high_watermarks@),
        total_lag_spec(group_rows(committed@, queue@, high_watermarks@)) <= i64::MAX,
    ensures
        r is None <==> group_rows(committed@, queue@, high_watermarks@).len() == 0,
        r matches Some(p) ==> ({
            let rows = group_rows(committed@, queue@, high_watermarks@);
            &&& sorted_by_partition(p.0@)
            &&& p.0@.to_multiset() == rows.to_multiset()
            &&& p.1 == total_lag_spec(rows)
        }),
{
    let ghost all = group_rows(committed@, queue@, high_watermarks@);
    let mut rows: Vec<ConsumerGroupPartition> = Vec::new();
    let mut i: usize = 0;
    assert(committed@.take(0) =~= Seq::<(String, i32, i64)>::empty());
    while i < committed.len()
        invariant
            i <= committed@.len(),
            all == group_rows(committed@, queue@, high_watermarks@),
            lags_fit(committed@, queue@, high_watermarks@),
            rows@ == group_rows(committed@.take(i as int), queue@, high_watermarks@),
        decreases committed.len() - i,
    {
        proof {
            assert(committed@.take(i + 1).drop_last() =~= committed@.take(i as int));
            assert(committed@.take(i + 1).last() == committed@[i as int]);
        }
        let (topic, partition, offset) = (&committed[i].0, committed[i].1, committed[i].2);
        if crate::text::same_text(topic.as_str(), queue) && offset >= 0 {
            let hw = find_watermark(high_watermarks, partition);
            let d = hw - offset;
            let lag = if d > 0 {
                d
            } else {
                0
            };
            rows.push(
                ConsumerGroupPartition {
                    partition,
                    current_offset: offset,
                    high_watermark: hw,
                    lag,
                },
            );
        }
        i = i + 1;
    }
    assert(committed@.take(committed@.len() as int) =~= committed@);
    if rows.len() == 0 {
        return None;
    }
    proof {
        assert forall|k: int| 0 <= k < all.len() implies #[trigger] all[k].lag >= 0 by {
            lemma_rows_lag_nonneg(committed@, queue@, high_watermarks@, k);
        }
        lemma_total_lag_nonneg(all);
    }
    let mut total: i64 = 0;
    let mut k: usize = 0;
    assert(all.take(0) =~= Seq::<ConsumerGroupPartition>::empty());
    while k < rows.len()
        invariant
            k <= rows@.len(),
            rows@ == all,
            total == total_lag_spec(all.take(k as int)),
            total_lag_spec(all) <= i64::MAX,
            forall|j: int| 0 <= j < all.len() ==> #[trigger] all[j].lag >= 0,
            forall|j: int|
                0 <= j <= all.len() ==> #[trigger] total_lag_spec(all.take(j)) <= total_lag_spec(all),
        decreases rows.len() - k,
    {
        proof {
            assert(all.take(k + 1).drop_last() =~= all.take(k as int));
            assert(all.take(k + 1).last() == all[k as int]);
            assert(total_lag_spec(all.take(k + 1)) <= total_lag_spec(all));
        }
        total = total + rows[k].lag;
        k = k + 1;
    }
    assert(all.take(all.len() as int) =~= all);
    let sorted = sort_by_partition(rows);
    Some((sorted, total))
}

proof fn lemma_rows_lag_nonneg(
    committed: Seq<(String, i32, i64)>,
    queue: Seq<char>,
    hws: Seq<(i32, i64)>,
    k: int,
)
    requires
        0 <= k < group_rows(committed, queue, hws).len(),
    ensures
        group_rows(committed, queue, hws)[k].lag >= 0,
    decreases committed.len(),
{
    if committed.len() > 0 {
        let rest = group_rows(committed.drop_last(), queue, hws);
        if k < rest.len() {
            lemma_rows_lag_nonneg(committed.drop_last(), queue, hws, k);
        }
    }
}

/// `rows` in ascending order of partition number.
fn sort_by_partition(rows: Vec<ConsumerGroupPartition>) -> (r: Vec<ConsumerGroupPartition>)
    ensures
        sorted_by_partition(r@),
        r@.to_multiset() == rows@.to_multiset(),
{
    broadcast use vstd::seq_lib::group_to_multiset_ensures;

    let mut out: Vec<ConsumerGroupPartition> = Vec::new();
    let mut i: usize = 0;
    assert(rows@.take(0) =~= Seq::<ConsumerGroupPartition>::empty());
    while i < rows.len()
        invariant
            i <= rows@.len(),
            sorted_by_partition(out@),
            out@.to_multiset() == rows@.take(i as int).to_multiset(),
        decreases rows.len() - i,
    {
        let x = rows[i];
        let mut p: usize = 0;
        while p < out.len() && out[p].partition <= x.partition
            invariant
                p <= out@.len(),
                i < rows@.len(),
                x == rows@[i as int],
                sorted_by_partition(out@),
                out@.to_multiset() == rows@.take(i as int).to_multiset(),
                forall|j: int| 0 <= j < p ==> out@[j].partition <= x.partition,
            decreases out.len() - p,
        {
            p = p + 1;
        }
        let ghost before = out@;
        out.insert(p, x);
        proof {
            assert(out@ == before.insert(p as int, x));
            assert forall|a: int, b: int| 0 <= a < b < out@.len() implies out@[a].partition
                <= out@[b].partition by {
                if b < p {
                    assert(out@[a] == before[a] && out@[b] == before[b]);
                } else if b == p {
                    assert(out@[a] == before[a]);
                } else if a == p {
                    assert(out@[b] == before[b - 1]);
                    assert(before[p as int].partition > x.partition);
                } else if a < p {
                    assert(out@[a] == before[a] && out@[b] == before[b - 1]);
                } else {
                    assert(out@[a] == before[a - 1] && out@[b] == before[b - 1]);
                }
            }
            assert(rows@.take(i + 1) =~= rows@.take(i as int).push(x));
            vstd::seq_lib::to_multiset_insert(before, p as int, x);
            vstd::seq_lib::to_multiset_build(rows@.take(i as int), x);
            assert(out@.to_multiset() =~= rows@.take(i + 1).to_multiset());
        }
        i = i + 1;
    }
    assert(rows@.take(rows@.len() as int) =~= rows@);
    out
}

/// How a topic setting in milliseconds reads: whole days, hours, minutes
/// or seconds, `infinite` when negative, or the text itself when it is not
/// a number.
pub open spec fn duration_text(ms_text: Seq<char>) -> Seq<char> {
    match parse_i64_spec(ms_text) {
        None => ms_text,
        Some(ms) => if ms < 0 {
            "infinite"@
        } else {
            let secs = ms / 1000;
            if secs >= 86400 {
                decimal((secs / 86400) as nat) + "d"@
            } else if secs >= 3600 {
                decimal((secs / 3600) as nat) + "h"@
            } else if secs >= 60 {
                decimal((secs / 60) as nat) + "m"@
            } else {
                decimal(secs as nat) + "s"@
            }
        },
    }
}

/// Shows a duration setting given in milliseconds.
pub fn format_duration_ms(ms_str: &str) -> (r: String)
    ensures
        r@ == duration_text(ms_str@),
{
    match parse_i64(ms_str) {
        None => owned(ms_str),
        Some(ms) => {
            if ms < 0 {
                return owned("infinite");
            }
            let secs = (ms / 1000) as u64;
            let mut s = String::new();
            if secs >= 86400 {
                push_decimal(&mut s, secs / 86400);
                push_str(&mut s, "d");
            } else if secs >= 3600 {
                push_decimal(&mut s, secs / 3600);
                push_str(&mut s, "h");
            } else if secs >= 60 {
                push_decimal(&mut s, secs / 60);
                push_str(&mut s, "m");
            } else {
                push_decimal(&mut s, secs);
                push_str(&mut s, "s");
            }
            assert(s@ =~= duration_text(ms_str@));
            s
        },
    }
}

/// How a reset strategy reads in the confirmation message.
pub open spec fn strategy_text(strategy: OffsetResetStrategy) -> Seq<char> {
    match strategy {
        OffsetResetStrategy::Earliest => "earliest"@,
        OffsetResetStrategy::Latest => "latest"@,
        OffsetResetStrategy::ToTimestamp(ts) => "timestamp "@ + signed_decimal(ts as int),
        OffsetResetStrategy::ToOffset(o) => "offset "@ + signed_decimal(o as int),
    }
}

/// The message that confirms an offset reset.
pub fn reset_summary(group: &str, queue: &str, strategy: OffsetResetStrategy) -> (r: String)
    ensures
        r@ == "Reset offsets for group '"@ + group@ + "' on '"@ + queue@ + "' to "@ + strategy_text(
            strategy,
        ),
{
    let mut s = owned("Reset offsets for group '");
    push_str(&mut s, group);
    push_str(&mut s, "' on '");
    push_str(&mut s, queue);
    push_str(&mut s, "' to ");
    match strategy {
        OffsetResetStrategy::Earliest => push_str(&mut s, "earliest"),
        OffsetResetStrategy::Latest => push_str(&mut s, "latest"),
        OffsetResetStrategy::ToTimestamp(ts) => {
            push_str(&mut s, "timestamp ");
            push_signed(&mut s, ts);
        },
        OffsetResetStrategy::ToOffset(o) => {
            push_str(&mut s, "offset ");
            push_signed(&mut s, o);
        },
    }
    assert(s@ =~= "Reset offsets for group '"@ + group@ + "' on '"@ + queue@ + "' to "@
        + strategy_text(strategy));
    s
}

} // verus!
