//! The queue information screen for RabbitMQ: the sections (general,
//! messages, consumers, each consumer, rates, memory, configuration,
//! bindings) read from the management API's answers about one queue.
//!
//! Counts, sizes, percentages and rates are handed out as numbers; the
//! caller renders them (abbreviated counts, byte units, one decimal).

use vstd::prelude::*;
use crate::json::{
    as_flag, as_text, as_unsigned, json_document, json_member, member, parse_json, value_text,
    JsonShape, JsonValue,
};
use crate::rabbitmq::{member_text_or, text_or};
use crate::text::{decimal, owned, push_decimal, push_str};

verus! {

/// What an entry shows.
#[derive(Debug)]
pub enum DetailValue {
    Text(String),
    /// A count, shown abbreviated (`1.2K`).
    Count(u64),
    /// A size in bytes, shown in units (`3.0 MB`).
    Bytes(u64),
    /// A fraction, as the JSON number was written, shown as a percentage.
    Percent(String),
    /// A rate per second, as the JSON number was written (none reads as
    /// zero), shown with a bar; when `only_positive`, the entry is shown
    /// only when the rate is above zero.
    Rate { number: Option<String>, only_positive: bool },
}

/// One line of a section: a name and what it shows.
#[derive(Debug)]
pub struct DetailEntry {
    pub key: String,
    pub value: DetailValue,
}

/// A titled group of entries.
#[derive(Debug)]
pub struct DetailSection {
    pub title: String,
    pub entries: Vec<DetailEntry>,
}

pub enum ValueModel {
    Text(Seq<char>),
    Count(u64),
    Bytes(u64),
    Percent(Seq<char>),
    Rate(Option<Seq<char>>, bool),
}

impl View for DetailValue {
    type V = ValueModel;

    open spec fn view(&self) -> ValueModel {
        match self {
            DetailValue::Text(t) => ValueModel::Text(t@),
            DetailValue::Count(n) => ValueModel::Count(*n),
            DetailValue::Bytes(n) => ValueModel::Bytes(*n),
            DetailValue::Percent(t) => ValueModel::Percent(t@),
            DetailValue::Rate { number, only_positive } => ValueModel::Rate(
                match number {
                    Some(t) => Some(t@),
                    None => None,
                },
                *only_positive,
            ),
        }
    }
}

impl View for DetailEntry {
    type V = (Seq<char>, ValueModel);

    open spec fn view(&self) -> (Seq<char>, ValueModel) {
        (self.key@, self.value@)
    }
}

pub open spec fn entries_view(v: Seq<DetailEntry>) -> Seq<(Seq<char>, ValueModel)> {
    v.map_values(|e: DetailEntry| e@)
}

impl View for DetailSection {
    type V = (Seq<char>, Seq<(Seq<char>, ValueModel)>);

    open spec fn view(&self) -> (Seq<char>, Seq<(Seq<char>, ValueModel)>) {
        (self.title@, entries_view(self.entries@))
    }
}

pub open spec fn sections_view(v: Seq<DetailSection>) -> Seq<(Seq<char>, Seq<(Seq<char>, ValueModel)>)> {
    v.map_values(|s: DetailSection| s@)
}

// ---------------------------------------------------------------------------
// What each section holds
// ---------------------------------------------------------------------------

pub open spec fn member_of(v: Option<JsonValue>, key: Seq<char>) -> Option<JsonValue> {
    match v {
        Some(x) => member(x, key),
        None => None,
    }
}

/// The number `v` as written, when it is a number (`Value::as_f64`).
pub open spec fn number_text(v: JsonValue) -> Option<Seq<char>> {
    match v.shape {
        JsonShape::Number { .. } => Some(v.compact@),
        _ => None,
    }
}

/// An entry with the string `v`, when it is one.
pub open spec fn text_entry(label: Seq<char>, v: Option<JsonValue>) -> Seq<(Seq<char>, ValueModel)> {
    match v {
        Some(x) => match as_text(x) {
            Some(t) => seq![(label, ValueModel::Text(t))],
            None => seq![],
        },
        None => seq![],
    }
}

/// An entry `yes` or `no` for the boolean `v`, when it is one.
pub open spec fn flag_entry(label: Seq<char>, v: Option<JsonValue>) -> Seq<(Seq<char>, ValueModel)> {
    match v {
        Some(x) => match as_flag(x) {
            Some(b) => seq![(label, ValueModel::Text(if b { "yes"@ } else { "no"@ }))],
            None => seq![],
        },
        None => seq![],
    }
}

/// A count entry for the integer `v`, when it is one.
pub open spec fn count_entry(label: Seq<char>, v: Option<JsonValue>) -> Seq<(Seq<char>, ValueModel)> {
    match v {
        Some(x) => match as_unsigned(x) {
            Some(n) => seq![(label, ValueModel::Count(n))],
            None => seq![],
        },
        None => seq![],
    }
}

/// A size entry for the integer `v`, when it is one.
pub open spec fn bytes_entry(label: Seq<char>, v: Option<JsonValue>) -> Seq<(Seq<char>, ValueModel)> {
    match v {
        Some(x) => match as_unsigned(x) {
            Some(n) => seq![(label, ValueModel::Bytes(n))],
            None => seq![],
        },
        None => seq![],
    }
}

/// A percentage entry for the number `v`, when it is one.
pub open spec fn percent_entry(label: Seq<char>, v: Option<JsonValue>) -> Seq<(Seq<char>, ValueModel)> {
    match v {
        Some(x) => match number_text(x) {
            Some(t) => seq![(label, ValueModel::Percent(t))],
            None => seq![],
        },
        None => seq![],
    }
}

/// Type, state, node, vhost, the three flags and the idle time.
pub open spec fn general_entries(d: JsonValue) -> Seq<(Seq<char>, ValueModel)> {
    text_entry("Type"@, member(d, "type"@)) + text_entry("State"@, member(d, "state"@)) + text_entry(
        "Node"@,
        member(d, "node"@),
    ) + text_entry("Vhost"@, member(d, "vhost"@)) + flag_entry("Durable"@, member(d, "durable"@))
        + flag_entry("Auto-delete"@, member(d, "auto_delete"@)) + flag_entry(
        "Exclusive"@,
        member(d, "exclusive"@),
    ) + text_entry("Idle since"@, member(d, "idle_since"@))
}

/// Total, ready and unacknowledged messages.
pub open spec fn message_entries(d: JsonValue) -> Seq<(Seq<char>, ValueModel)> {
    count_entry("Total"@, member(d, "messages"@)) + count_entry("Ready"@, member(d, "messages_ready"@))
        + count_entry("Unacked"@, member(d, "messages_unacknowledged"@))
}

/// The number of consumers and their utilisation.
pub open spec fn consumer_entries(d: JsonValue) -> Seq<(Seq<char>, ValueModel)> {
    count_entry("Count"@, member(d, "consumers"@)) + percent_entry(
        "Utilisation"@,
        member(d, "consumer_utilisation"@),
    )
}

/// `host:port` of a consumer's channel (port 0 when not given), when the
/// host is given.
pub open spec fn address_entry(ch: JsonValue) -> Seq<(Seq<char>, ValueModel)> {
    match member(ch, "peer_host"@) {
        Some(h) => match as_text(h) {
            Some(host) => {
                let port: u64 = match member(ch, "peer_port"@) {
                    Some(p) => match as_unsigned(p) {
                        Some(n) => n,
                        None => 0,
                    },
                    None => 0,
                };
                seq![("Address"@, ValueModel::Text(host + ":"@ + decimal(port as nat)))]
            },
            None => seq![],
        },
        None => seq![],
    }
}

/// The connection name, when it is a non-empty string.
pub open spec fn connection_entry(ch: JsonValue) -> Seq<(Seq<char>, ValueModel)> {
    match member(ch, "connection_name"@) {
        Some(c) => match as_text(c) {
            Some(t) => if t.len() > 0 {
                seq![("Connection"@, ValueModel::Text(t))]
            } else {
                seq![]
            },
            None => seq![],
        },
        None => seq![],
    }
}

/// Address, connection and channel name from a consumer's channel
/// details.
pub open spec fn channel_entries(ch: Option<JsonValue>) -> Seq<(Seq<char>, ValueModel)> {
    match ch {
        Some(c) => address_entry(c) + connection_entry(c) + text_entry("Channel"@, member(c, "name"@)),
        None => seq![],
    }
}

/// Tag, channel details, prefetch count and acknowledgement mode of one
/// consumer.
pub open spec fn one_consumer_entries(cd: JsonValue) -> Seq<(Seq<char>, ValueModel)> {
    text_entry("Tag"@, member(cd, "consumer_tag"@)) + channel_entries(member(cd, "channel_details"@))
        + count_entry("Prefetch"@, member(cd, "prefetch_count"@)) + flag_entry(
        "Ack required"@,
        member(cd, "ack_required"@),
    )
}

/// A section, when it has entries.
pub open spec fn section(title: Seq<char>, es: Seq<(Seq<char>, ValueModel)>) -> Seq<
    (Seq<char>, Seq<(Seq<char>, ValueModel)>),
> {
    if es.len() == 0 {
        seq![]
    } else {
        seq![(title, es)]
    }
}

/// `Consumer #1`, `Consumer #2`, ... for the consumers listed, skipping
/// those with nothing to show (the numbers count all of them).
pub open spec fn consumer_sections(items: Seq<JsonValue>) -> Seq<(Seq<char>, Seq<(Seq<char>, ValueModel)>)>
    decreases items.len(),
{
    if items.len() == 0 {
        seq![]
    } else {
        consumer_sections(items.drop_last()) + section(
            "Consumer #"@ + decimal(items.len()),
            one_consumer_entries(items.last()),
        )
    }
}

/// The consumer sections, when the queue lists its consumers.
pub open spec fn consumer_detail_sections(d: JsonValue) -> Seq<(Seq<char>, Seq<(Seq<char>, ValueModel)>)> {
    match member(d, "consumer_details"@) {
        Some(x) => match x.shape {
            JsonShape::List(items) => consumer_sections(items@),
            _ => seq![],
        },
        None => seq![],
    }
}

/// The rate in `ms.key.rate`, when it is a number.
pub open spec fn rate_of(ms: JsonValue, key: Seq<char>) -> Option<Seq<char>> {
    match member_of(member(ms, key), "rate"@) {
        Some(r) => number_text(r),
        None => None,
    }
}

/// The publish, deliver, ack and redeliver rates (the last only when above
/// zero) and the totals, when the queue has message statistics.
pub open spec fn rate_entries(d: JsonValue) -> Seq<(Seq<char>, ValueModel)> {
    match member(d, "message_stats"@) {
        Some(ms) => seq![
            ("Publish"@, ValueModel::Rate(rate_of(ms, "publish_details"@), false)),
            ("Deliver"@, ValueModel::Rate(rate_of(ms, "deliver_details"@), false)),
            ("Ack"@, ValueModel::Rate(rate_of(ms, "ack_details"@), false)),
            ("Redeliver"@, ValueModel::Rate(rate_of(ms, "redeliver_details"@), true)),
        ] + count_entry("Total published"@, member(ms, "publish"@)) + count_entry(
            "Total delivered"@,
            member(ms, "deliver"@),
        ) + count_entry("Total acked"@, member(ms, "ack"@)),
        None => seq![],
    }
}

/// The policy, when one applies, and each queue argument with its value
/// (a string's contents, or the JSON of anything else).
pub open spec fn configuration_entries(d: JsonValue) -> Seq<(Seq<char>, ValueModel)> {
    let policy = match member(d, "policy"@) {
        Some(p) => match as_text(p) {
            Some(t) => if t.len() > 0 {
                seq![("Policy"@, ValueModel::Text(t))]
            } else {
                seq![]
            },
            None => seq![],
        },
        None => seq![],
    };
    let args = match member(d, "arguments"@) {
        Some(a) => match a.shape {
            JsonShape::Record(es) => es@.map_values(
                |e: (String, JsonValue)| (e.0@, ValueModel::Text(value_text(e.1))),
            ),
            _ => seq![],
        },
        None => seq![],
    };
    policy + args
}

/// One entry per binding that feeds the queue from a named exchange: the
/// exchange and the routing key (`(all)` for an empty one).
pub open spec fn binding_entries(items: Seq<JsonValue>) -> Seq<(Seq<char>, ValueModel)>
    decreases items.len(),
{
    if items.len() == 0 {
        seq![]
    } else {
        let rest = binding_entries(items.drop_last());
        let source = text_or(items.last(), "source"@, ""@);
        let key = text_or(items.last(), "routing_key"@, ""@);
        if source.len() == 0 {
            rest
        } else {
            rest.push(
                (
                    source,
                    ValueModel::Text(
                        if key.len() == 0 {
                            "(all)"@
                        } else {
                            key
                        },
                    ),
                ),
            )
        }
    }
}

/// The binding entries, when the bindings answer is a list.
pub open spec fn bindings_of(b: Option<JsonValue>) -> Seq<(Seq<char>, ValueModel)> {
    match b {
        Some(x) => match x.shape {
            JsonShape::List(items) => binding_entries(items@),
            _ => seq![],
        },
        None => seq![],
    }
}

/// The sections of the queue information screen, for the queue's answer
/// `d` and the answer `b` about its bindings (none when that request
/// failed).
pub open spec fn queue_sections(d: JsonValue, b: Option<JsonValue>) -> Seq<
    (Seq<char>, Seq<(Seq<char>, ValueModel)>),
> {
    section("General"@, general_entries(d)) + section("Messages"@, message_entries(d)) + section(
        "Consumers"@,
        consumer_entries(d),
    ) + consumer_detail_sections(d) + section("Rates"@, rate_entries(d)) + section(
        "Memory"@,
        bytes_entry("Usage"@, member(d, "memory"@)),
    ) + section("Configuration"@, configuration_entries(d)) + section("Bindings"@, bindings_of(b))
}

// ---------------------------------------------------------------------------
// Building the sections
// ---------------------------------------------------------------------------

pub open spec fn opt(v: Option<&JsonValue>) -> Option<JsonValue> {
    match v {
        Some(x) => Some(*x),
        None => None,
    }
}

proof fn lemma_entries_push(v: Seq<DetailEntry>, e: DetailEntry)
    ensures
        entries_view(v.push(e)) == entries_view(v) + seq![e@],
{
    assert(entries_view(v.push(e)) =~= entries_view(v) + seq![e@]);
}

proof fn lemma_sections_push(v: Seq<DetailSection>, s: DetailSection)
    ensures
        sections_view(v.push(s)) == sections_view(v) + seq![s@],
{
    assert(sections_view(v.push(s)) =~= sections_view(v) + seq![s@]);
}

fn push_entry(out: &mut Vec<DetailEntry>, label: &str, value: DetailValue)
    ensures
        entries_view(final(out)@) == entries_view(old(out)@) + seq![(label@, value@)],
{
    let e = DetailEntry { key: owned(label), value };
    proof {
        lemma_entries_push(old(out)@, e);
    }
    out.push(e);
}

fn push_text(out: &mut Vec<DetailEntry>, label: &str, v: Option<&JsonValue>)
    ensures
        entries_view(final(out)@) == entries_view(old(out)@) + text_entry(label@, opt(v)),
{
    if let Some(x) = v {
        if let JsonShape::Text(t) = &x.shape {
            push_entry(out, label, DetailValue::Text(t.clone()));
            return;
        }
    }
    assert(entries_view(out@) + seq![] =~= entries_view(out@));
}

fn push_flag(out: &mut Vec<DetailEntry>, label: &str, v: Option<&JsonValue>)
    ensures
        entries_view(final(out)@) == entries_view(old(out)@) + flag_entry(label@, opt(v)),
{
    if let Some(x) = v {
        if let JsonShape::Flag(b) = &x.shape {
            let t = if *b {
                owned("yes")
            } else {
                owned("no")
            };
            push_entry(out, label, DetailValue::Text(t));
            return;
        }
    }
    assert(entries_view(out@) + seq![] =~= entries_view(out@));
}

fn push_count(out: &mut Vec<DetailEntry>, label: &str, v: Option<&JsonValue>, bytes: bool)
    ensures
        entries_view(final(out)@) == entries_view(old(out)@) + if bytes {
            bytes_entry(label@, opt(v))
        } else {
            count_entry(label@, opt(v))
        },
{
    if let Some(x) = v {
        if let JsonShape::Number { unsigned: Some(n), .. } = &x.shape {
            let value = if bytes {
                DetailValue::Bytes(*n)
            } else {
                DetailValue::Count(*n)
            };
            push_entry(out, label, value);
            return;
        }
    }
    assert(entries_view(out@) + seq![] =~= entries_view(out@));
}

fn push_percent(out: &mut Vec<DetailEntry>, label: &str, v: Option<&JsonValue>)
    ensures
        entries_view(final(out)@) == entries_view(old(out)@) + percent_entry(label@, opt(v)),
{
    if let Some(x) = v {
        if let JsonShape::Number { .. } = &x.shape {
            push_entry(out, label, DetailValue::Percent(x.compact.clone()));
            return;
        }
    }
    assert(entries_view(out@) + seq![] =~= entries_view(out@));
}

fn push_section(out: &mut Vec<DetailSection>, title: String, entries: Vec<DetailEntry>)
    ensures
        sections_view(final(out)@) == sections_view(old(out)@) + section(title@, entries_view(entries@)),
{
    if entries.len() == 0 {
        assert(sections_view(out@) + seq![] =~= sections_view(out@));
        return;
    }
    let s = DetailSection { title, entries };
    proof {
        lemma_sections_push(old(out)@, s);
    }
    out.push(s);
}

fn general(d: &JsonValue) -> (r: Vec<DetailEntry>)
    ensures
        entries_view(r@) == general_entries(*d),
{
    let mut out: Vec<DetailEntry> = Vec::new();
    push_text(&mut out, "Type", json_member(d, "type"));
    assert(entries_view(out@) =~= text_entry("Type"@, member(*d, "type"@)));
    push_text(&mut out, "State", json_member(d, "state"));
    push_text(&mut out, "Node", json_member(d, "node"));
    push_text(&mut out, "Vhost", json_member(d, "vhost"));
    push_flag(&mut out, "Durable", json_member(d, "durable"));
    push_flag(&mut out, "Auto-delete", json_member(d, "auto_delete"));
    push_flag(&mut out, "Exclusive", json_member(d, "exclusive"));
    push_text(&mut out, "Idle since", json_member(d, "idle_since"));
    out
}

fn messages(d: &JsonValue) -> (r: Vec<DetailEntry>)
    ensures
        entries_view(r@) == message_entries(*d),
{
    let mut out: Vec<DetailEntry> = Vec::new();
    push_count(&mut out, "Total", json_member(d, "messages"), false);
    assert(entries_view(out@) =~= count_entry("Total"@, member(*d, "messages"@)));
    push_count(&mut out, "Ready", json_member(d, "messages_ready"), false);
    push_count(&mut out, "Unacked", json_member(d, "messages_unacknowledged"), false);
    out
}

fn consumers(d: &JsonValue) -> (r: Vec<DetailEntry>)
    ensures
        entries_view(r@) == consumer_entries(*d),
{
    let mut out: Vec<DetailEntry> = Vec::new();
    push_count(&mut out, "Count", json_member(d, "consumers"), false);
    assert(entries_view(out@) =~= count_entry("Count"@, member(*d, "consumers"@)));
    push_percent(&mut out, "Utilisation", json_member(d, "consumer_utilisation"));
    out
}

fn one_consumer(cd: &JsonValue) -> (r: Vec<DetailEntry>)
    ensures
        entries_view(r@) == one_consumer_entries(*cd),
{
    let mut out: Vec<DetailEntry> = Vec::new();
    push_text(&mut out, "Tag", json_member(cd, "consumer_tag"));
    assert(entries_view(out@) =~= text_entry("Tag"@, member(*cd, "consumer_tag"@)));
    let ghost before = entries_view(out@);
    match json_member(cd, "channel_details") {
        Some(ch) => {
            let mut address_done = false;
            if let Some(h) = json_member(ch, "peer_host") {
                if let JsonShape::Text(host) = &h.shape {
                    let port: u64 = match json_member(ch, "peer_port") {
                        Some(p) => match &p.shape {
                            JsonShape::Number { unsigned: Some(n), .. } => *n,
                            _ => 0,
                        },
                        None => 0,
                    };
                    let mut a = host.clone();
                    push_str(&mut a, ":");
                    push_decimal(&mut a, port);
                    push_entry(&mut out, "Address", DetailValue::Text(a));
                    address_done = true;
                }
            }
            if !address_done {
                assert(entries_view(out@) + seq![] =~= entries_view(out@));
            }
            assert(entries_view(out@) == before + address_entry(*ch));
            let mut conn_done = false;
            if let Some(c) = json_member(ch, "connection_name") {
                if let JsonShape::Text(t) = &c.shape {
                    if !t.as_str().is_empty() {
                        push_entry(&mut out, "Connection", DetailValue::Text(t.clone()));
                        conn_done = true;
                    }
                }
            }
            if !conn_done {
                assert(entries_view(out@) + seq![] =~= entries_view(out@));
            }
            assert(entries_view(out@) == before + address_entry(*ch) + connection_entry(*ch));
            push_text(&mut out, "Channel", json_member(ch, "name"));
            assert(entries_view(out@) =~= before + channel_entries(Some(*ch)));
        },
        None => {
            assert(entries_view(out@) =~= before + channel_entries(None));
        },
    }
    push_count(&mut out, "Prefetch", json_member(cd, "prefetch_count"), false);
    push_flag(&mut out, "Ack required", json_member(cd, "ack_required"));
    out
}

fn consumer_details(d: &JsonValue, out: &mut Vec<DetailSection>)
    ensures
        sections_view(final(out)@) == sections_view(old(out)@) + consumer_detail_sections(*d),
{
    let ghost start = sections_view(out@);
    if let Some(x) = json_member(d, "consumer_details") {
        if let JsonShape::List(items) = &x.shape {
            let mut i: usize = 0;
            assert(items@.take(0) =~= Seq::<JsonValue>::empty());
            assert(start + seq![] =~= start);
            while i < items.len()
                invariant
                    i <= items@.len(),
                    sections_view(out@) == start + consumer_sections(items@.take(i as int)),
                decreases items.len() - i,
            {
                assert(items@.take(i + 1).drop_last() =~= items@.take(i as int));
                assert(items@.take(i + 1).last() == items@[i as int]);
                let mut title = owned("Consumer #");
                push_decimal(&mut title, (i + 1) as u64);
                let es = one_consumer(&items[i]);
                push_section(out, title, es);
                assert(sections_view(out@) =~= start + consumer_sections(items@.take(i + 1)));
                i = i + 1;
            }
            assert(items@.take(items@.len() as int) =~= items@);
            return;
        }
    }
    assert(start + seq![] =~= start);
}

/// The number at `ms.key.rate`, as written.
fn rate_number(ms: &JsonValue, key: &str) -> (r: Option<String>)
    ensures
        match r {
            Some(t) => rate_of(*ms, key@) == Some(t@),
            None => rate_of(*ms, key@) is None,
        },
{
    match json_member(ms, key) {
        Some(dd) => match json_member(dd, "rate") {
            Some(x) => match &x.shape {
                JsonShape::Number { .. } => Some(x.compact.clone()),
                _ => None,
            },
            None => None,
        },
        None => None,
    }
}

fn push_rate(out: &mut Vec<DetailEntry>, label: &str, ms: &JsonValue, key: &str, only_positive: bool)
    ensures
        entries_view(final(out)@) == entries_view(old(out)@) + seq![
            (label@, ValueModel::Rate(rate_of(*ms, key@), only_positive)),
        ],
{
    let number = rate_number(ms, key);
    push_entry(out, label, DetailValue::Rate { number, only_positive });
}

fn rates(d: &JsonValue) -> (r: Vec<DetailEntry>)
    ensures
        entries_view(r@) == rate_entries(*d),
{
    let mut out: Vec<DetailEntry> = Vec::new();
    match json_member(d, "message_stats") {
        Some(ms) => {
            push_rate(&mut out, "Publish", ms, "publish_details", false);
            push_rate(&mut out, "Deliver", ms, "deliver_details", false);
            push_rate(&mut out, "Ack", ms, "ack_details", false);
            push_rate(&mut out, "Redeliver", ms, "redeliver_details", true);
            let ghost four = entries_view(out@);
            assert(four =~= seq![
                ("Publish"@, ValueModel::Rate(rate_of(*ms, "publish_details"@), false)),
                ("Deliver"@, ValueModel::Rate(rate_of(*ms, "deliver_details"@), false)),
                ("Ack"@, ValueModel::Rate(rate_of(*ms, "ack_details"@), false)),
                ("Redeliver"@, ValueModel::Rate(rate_of(*ms, "redeliver_details"@), true)),
            ]);
            push_count(&mut out, "Total published", json_member(ms, "publish"), false);
            push_count(&mut out, "Total delivered", json_member(ms, "deliver"), false);
            push_count(&mut out, "Total acked", json_member(ms, "ack"), false);
        },
        None => {
            assert(entries_view(out@) =~= Seq::<(Seq<char>, ValueModel)>::empty());
        },
    }
    out
}

fn configuration(d: &JsonValue) -> (r: Vec<DetailEntry>)
    ensures
        entries_view(r@) == configuration_entries(*d),
{
    let mut out: Vec<DetailEntry> = Vec::new();
    if let Some(p) = json_member(d, "policy") {
        if let JsonShape::Text(t) = &p.shape {
            if !t.as_str().is_empty() {
                push_entry(&mut out, "Policy", DetailValue::Text(t.clone()));
            }
        }
    }
    let ghost policy = entries_view(out@);
    assert(entries_view(out@) =~= match member(*d, "policy"@) {
        Some(p) => match as_text(p) {
            Some(t) => if t.len() > 0 {
                seq![("Policy"@, ValueModel::Text(t))]
            } else {
                seq![]
            },
            None => seq![],
        },
        None => seq![],
    });
    if let Some(a) = json_member(d, "arguments") {
        if let JsonShape::Record(es) = &a.shape {
            let mut i: usize = 0;
            assert(policy + es@.take(0).map_values(
                |e: (String, JsonValue)| (e.0@, ValueModel::Text(value_text(e.1))),
            ) =~= policy);
            while i < es.len()
                invariant
                    i <= es@.len(),
                    entries_view(out@) == policy + es@.take(i as int).map_values(
                        |e: (String, JsonValue)| (e.0@, ValueModel::Text(value_text(e.1))),
                    ),
                decreases es.len() - i,
            {
                let v = match &es[i].1.shape {
                    JsonShape::Text(t) => t.clone(),
                    _ => es[i].1.compact.clone(),
                };
                let e = DetailEntry { key: es[i].0.clone(), value: DetailValue::Text(v) };
                proof {
                    lemma_entries_push(out@, e);
                }
                out.push(e);
                assert(es@.take(i + 1).map_values(
                    |e: (String, JsonValue)| (e.0@, ValueModel::Text(value_text(e.1))),
                ) =~= es@.take(i as int).map_values(
                    |e: (String, JsonValue)| (e.0@, ValueModel::Text(value_text(e.1))),
                ).push((es@[i as int].0@, ValueModel::Text(value_text(es@[i as int].1)))));
                i = i + 1;
            }
            assert(es@.take(es@.len() as int) =~= es@);
            return out;
        }
    }
    assert(policy + seq![] =~= policy);
    out
}

fn bindings(b: Option<&JsonValue>) -> (r: Vec<DetailEntry>)
    ensures
        entries_view(r@) == bindings_of(opt(b)),
{
    let mut out: Vec<DetailEntry> = Vec::new();
    if let Some(x) = b {
        if let JsonShape::List(items) = &x.shape {
            let mut i: usize = 0;
            assert(items@.take(0) =~= Seq::<JsonValue>::empty());
            assert(entries_view(out@) =~= Seq::<(Seq<char>, ValueModel)>::empty());
            while i < items.len()
                invariant
                    i <= items@.len(),
                    entries_view(out@) == binding_entries(items@.take(i as int)),
                decreases items.len() - i,
            {
                assert(items@.take(i + 1).drop_last() =~= items@.take(i as int));
                assert(items@.take(i + 1).last() == items@[i as int]);
                let source = member_text_or(&items[i], "source", "");
                proof {
                    reveal_strlit("");
                }
                if !source.as_str().is_empty() {
                    let key = member_text_or(&items[i], "routing_key", "");
                    let shown = if key.as_str().is_empty() {
                        owned("(all)")
                    } else {
                        key
                    };
                    let e = DetailEntry { key: source, value: DetailValue::Text(shown) };
                    proof {
                        lemma_entries_push(out@, e);
                    }
                    out.push(e);
                }
                i = i + 1;
            }
            assert(items@.take(items@.len() as int) =~= items@);
            return out;
        }
    }
    assert(entries_view(out@) =~= Seq::<(Seq<char>, ValueModel)>::empty());
    out
}

/// The sections of the queue information screen, from the queue's answer
/// `d` and the answer `b` about its bindings (`None` when that request
/// failed).
pub fn queue_detail_from(d: &JsonValue, b: Option<&JsonValue>) -> (r: Vec<DetailSection>)
    ensures
        sections_view(r@) == queue_sections(*d, opt(b)),
{
    let mut out: Vec<DetailSection> = Vec::new();
    push_section(&mut out, owned("General"), general(d));
    assert(sections_view(out@) =~= section("General"@, general_entries(*d)));
    push_section(&mut out, owned("Messages"), messages(d));
    push_section(&mut out, owned("Consumers"), consumers(d));
    consumer_details(d, &mut out);
    push_section(&mut out, owned("Rates"), rates(d));
    let mut memory: Vec<DetailEntry> = Vec::new();
    push_count(&mut memory, "Usage", json_member(d, "memory"), true);
    assert(entries_view(memory@) =~= bytes_entry("Usage"@, member(*d, "memory"@)));
    push_section(&mut out, owned("Memory"), memory);
    push_section(&mut out, owned("Configuration"), configuration(d));
    push_section(&mut out, owned("Bindings"), bindings(b));
    out
}

/// The sections of the queue information screen from the two answers as
/// text: `None` when the queue's answer is not JSON; a bindings answer
/// that is missing, not JSON or not a list gives no bindings section.
pub fn queue_detail(text: &str, bindings_text: Option<&str>) -> (r: Option<Vec<DetailSection>>)
    ensures
        match json_document(text@) {
            Some(d) => r matches Some(s) && sections_view(s@) == queue_sections(
                d,
                match bindings_text {
                    Some(t) => json_document(t@),
                    None => None,
                },
            ),
            None => r is None,
        },
{
    let d = match parse_json(text) {
        Some(d) => d,
        None => return None,
    };
    let b = match bindings_text {
        Some(t) => parse_json(t),
        None => None,
    };
    let r = queue_detail_from(&d, b.as_ref());
    Some(r)
}

} // verus!
