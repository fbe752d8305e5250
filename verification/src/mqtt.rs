//! The decisions of the MQTT backend. Each broker operation is a session
//! that reacts to the events of one MQTT connection: the caller runs the
//! connection, hands each event to the session and carries out the step it
//! answers with.

use vstd::prelude::*;
use crate::config::Profile;
use crate::keyed::{
    find_name, lemma_table_map, lemma_table_map_push, lemma_table_map_update, names_of, table_map,
    unique_names,
};
use crate::model::{BrokerInfo, MessageInfo};
use crate::order::{sort_texts, sort_texts_all, sorted_texts, strictly_sorted, text_views, covers};
use crate::template::{is_v4_uuid_text, new_uuid_text};
use crate::text::{decimal, has_prefix, owned, push_decimal, push_str, same_text, starts_with};

verus! {

/// Connection settings of an MQTT profile.
#[derive(Debug)]
pub struct MqttBackend {
    host: String,
    port: u16,
    username: String,
    password: String,
    tls: bool,
    tls_ca: Option<String>,
    tls_cert: Option<String>,
    tls_key: Option<String>,
    topics: Option<Vec<String>>,
}

/// The views of an optional list of strings.
pub open spec fn topics_view(t: Option<Vec<String>>) -> Option<Seq<Seq<char>>> {
    match t {
        Some(v) => Some(text_views(v@)),
        None => None,
    }
}

/// A copy of an optional list of strings.
fn copy_topics(t: &Option<Vec<String>>) -> (r: Option<Vec<String>>)
    ensures
        topics_view(r) == topics_view(*t),
{
    match t {
        Some(v) => {
            let out = copy_list(v);
            Some(out)
        },
        None => None,
    }
}

/// The topic a broker publishes its version on.
pub open spec fn version_topic() -> Seq<char> {
    "$SYS/broker/version"@
}

/// The name shown for a broker that reported `version` (empty when it
/// reported none).
pub open spec fn broker_name_spec(version: Seq<char>) -> Seq<char> {
    if version.len() == 0 {
        "MQTT Broker"@
    } else {
        "MQTT ("@ + version + ")"@
    }
}

impl MqttBackend {
    pub closed spec fn host_view(&self) -> Seq<char> {
        self.host@
    }

    pub closed spec fn port_view(&self) -> u16 {
        self.port
    }

    pub closed spec fn username_view(&self) -> Seq<char> {
        self.username@
    }

    pub closed spec fn password_view(&self) -> Seq<char> {
        self.password@
    }

    pub closed spec fn tls_view(&self) -> bool {
        self.tls
    }

    pub closed spec fn tls_ca_view(&self) -> Option<Seq<char>> {
        match self.tls_ca {
            Some(s) => Some(s@),
            None => None,
        }
    }

    pub closed spec fn tls_cert_view(&self) -> Option<Seq<char>> {
        match self.tls_cert {
            Some(s) => Some(s@),
            None => None,
        }
    }

    pub closed spec fn tls_key_view(&self) -> Option<Seq<char>> {
        match self.tls_key {
            Some(s) => Some(s@),
            None => None,
        }
    }

    /// The topics the profile names; none means all.
    pub closed spec fn topics_spec(&self) -> Option<Seq<Seq<char>>> {
        topics_view(self.topics)
    }

    /// The settings of a profile; TLS is off unless the profile turns it on.
    pub fn new(profile: &Profile) -> (r: Result<MqttBackend, String>)
        ensures
            r matches Ok(b) && b.host_view() == profile.host@ && b.port_view() == profile.port
                && b.username_view() == profile.username@ && b.password_view()
                == profile.password@ && b.tls_view() == (profile.tls == Some(true))
                && b.tls_ca_view() == (match profile.tls_ca {
                Some(s) => Some(s@),
                None => None::<Seq<char>>,
            }) && b.tls_cert_view() == (match profile.tls_cert {
                Some(s) => Some(s@),
                None => None::<Seq<char>>,
            }) && b.tls_key_view() == (match profile.tls_key {
                Some(s) => Some(s@),
                None => None::<Seq<char>>,
            }) && b.topics_spec() == topics_view(profile.topics),
    {
        Ok(
            MqttBackend {
                host: profile.host.clone(),
                port: profile.port,
                username: profile.username.clone(),
                password: profile.password.clone(),
                tls: match profile.tls {
                    Some(t) => t,
                    None => false,
                },
                tls_ca: match &profile.tls_ca {
                    Some(s) => Some(s.clone()),
                    None => None,
                },
                tls_cert: match &profile.tls_cert {
                    Some(s) => Some(s.clone()),
                    None => None,
                },
                tls_key: match &profile.tls_key {
                    Some(s) => Some(s.clone()),
                    None => None,
                },
                topics: copy_topics(&profile.topics),
            },
        )
    }

    /// The broker host.
    pub fn host(&self) -> (r: &str)
        ensures
            r@ == self.host_view(),
    {
        self.host.as_str()
    }

    /// The broker port.
    pub fn port(&self) -> (r: u16)
        ensures
            r == self.port_view(),
    {
        self.port
    }

    /// Whether TLS is on.
    pub fn tls(&self) -> (r: bool)
        ensures
            r == self.tls_view(),
    {
        self.tls
    }

    /// The CA certificate file, if any.
    pub fn tls_ca(&self) -> (r: Option<&str>)
        ensures
            r matches Some(s) ==> self.tls_ca_view() == Some(s@),
            r is None ==> self.tls_ca_view() is None,
    {
        match &self.tls_ca {
            Some(s) => Some(s.as_str()),
            None => None,
        }
    }

    /// The client certificate and key files, when both are given.
    pub fn client_auth_files(&self) -> (r: Option<(&str, &str)>)
        ensures
            r matches Some(p) ==> self.tls_cert_view() == Some(p.0@) && self.tls_key_view() == Some(
                p.1@,
            ),
            r is None ==> self.tls_cert_view() is None || self.tls_key_view() is None,
    {
        match (&self.tls_cert, &self.tls_key) {
            (Some(c), Some(k)) => Some((c.as_str(), k.as_str())),
            _ => None,
        }
    }

    /// The user name and password to log in with: none when the user name
    /// is empty.
    pub fn credentials(&self) -> (r: Option<(&str, &str)>)
        ensures
            self.username_view().len() == 0 ==> r is None,
            self.username_view().len() > 0 ==> (r matches Some(p) && p.0@ == self.username_view()
                && p.1@ == self.password_view()),
    {
        if self.username.as_str().is_empty() {
            None
        } else {
            Some((self.username.as_str(), self.password.as_str()))
        }
    }

    /// The topics to subscribe to when discovering topics: the profile's
    /// own, or `#` for all.
    pub fn subscription_topics(&self) -> (r: Vec<String>)
        ensures
            self.topics_spec() matches Some(t) ==> text_views(r@) == t,
            self.topics_spec() is None ==> text_views(r@) == seq!["#"@],
    {
        match copy_topics(&self.topics) {
            Some(t) => t,
            None => {
                let v = vec![owned("#")];
                assert(text_views(v@) =~= seq!["#"@]);
                v
            },
        }
    }

    /// The broker as shown: its name from the reported version, and
    /// `host:port`.
    pub fn broker_info(&self, version: &str) -> (r: BrokerInfo)
        ensures
            r._name@ == broker_name_spec(version@),
            r._cluster@ == self.host_view() + ":"@ + decimal(self.port_view() as nat),
    {
        let mut cluster = self.host.clone();
        push_str(&mut cluster, ":");
        push_decimal(&mut cluster, self.port as u64);
        BrokerInfo { _name: broker_name(version), _cluster: cluster }
    }
}

/// The name shown for a broker that reported `version`.
pub fn broker_name(version: &str) -> (r: String)
    ensures
        r@ == broker_name_spec(version@),
{
    if version.is_empty() {
        owned("MQTT Broker")
    } else {
        let mut s = owned("MQTT (");
        push_str(&mut s, version);
        push_str(&mut s, ")");
        s
    }
}

/// A client id for one connection: `queuepeek-`, the purpose, `-` and a
/// fresh random UUID.
pub fn client_id(purpose: &str) -> (r: String)
    ensures
        exists|u: Seq<char>| r@ == "queuepeek-"@ + purpose@ + "-"@ + u && is_v4_uuid_text(u),
{
    let mut s = owned("queuepeek-");
    push_str(&mut s, purpose);
    push_str(&mut s, "-");
    let u = new_uuid_text();
    push_str(&mut s, u.as_str());
    assert(s@ == "queuepeek-"@ + purpose@ + "-"@ + u@);
    s
}

/// Seconds between keep-alive pings.
pub const KEEP_ALIVE_SECS: u64 = 30;

// ---------------------------------------------------------------------------
// Events and steps
// ---------------------------------------------------------------------------

/// The quality of service of a received message.
#[derive(Debug, Clone, Copy, PartialEq, Eq)]
pub enum QosLevel {
    AtMostOnce,
    AtLeastOnce,
    ExactlyOnce,
}

/// The name of a quality of service level.
pub open spec fn qos_name(q: QosLevel) -> Seq<char> {
    match q {
        QosLevel::AtMostOnce => "AtMostOnce"@,
        QosLevel::AtLeastOnce => "AtLeastOnce"@,
        QosLevel::ExactlyOnce => "ExactlyOnce"@,
    }
}

/// A message received on a subscription.
#[derive(Debug)]
pub struct Received {
    pub topic: String,
    /// The payload as text (invalid UTF-8 replaced).
    pub payload: String,
    pub qos: QosLevel,
    pub retain: bool,
    pub pkid: u16,
    pub dup: bool,
}

/// What the connection reported.
#[derive(Debug)]
pub enum MqttEvent {
    /// The broker accepted the connection.
    ConnAck,
    /// A message arrived.
    Publish(Received),
    /// The broker acknowledged a published message.
    PubAck,
    /// The connection failed, with the error's text.
    Failure(String),
    /// Anything else.
    Other,
}

/// What the caller does next.
#[derive(Debug, PartialEq, Eq)]
pub enum MqttStep {
    /// Wait for the next event.
    Continue,
    /// Subscribe to these topics, then wait.
    Subscribe(Vec<String>),
    /// Publish the message, then wait.
    PublishNow,
    /// Disconnect; the session is over.
    Stop,
    /// The operation failed with this message.
    Fail(String),
}

/// The text of a failed connection.
pub open spec fn connection_failed(e: Seq<char>) -> Seq<char> {
    "MQTT connection failed: "@ + e
}

fn connection_failure(e: &str) -> (r: String)
    ensures
        r@ == connection_failed(e@),
{
    let mut s = owned("MQTT connection failed: ");
    push_str(&mut s, e);
    s
}

/// `true` or `false`.
pub open spec fn bool_text(b: bool) -> Seq<char> {
    if b {
        "true"@
    } else {
        "false"@
    }
}

fn bool_string(b: bool) -> (r: String)
    ensures
        r@ == bool_text(b),
{
    if b {
        owned("true")
    } else {
        owned("false")
    }
}

fn qos_string(q: QosLevel) -> (r: String)
    ensures
        r@ == qos_name(q),
{
    match q {
        QosLevel::AtMostOnce => owned("AtMostOnce"),
        QosLevel::AtLeastOnce => owned("AtLeastOnce"),
        QosLevel::ExactlyOnce => owned("ExactlyOnce"),
    }
}

/// The headers a received message is shown with.
pub open spec fn received_headers(m: Received) -> Seq<(Seq<char>, Seq<char>)> {
    seq![
        ("topic"@, m.topic@),
        ("qos"@, qos_name(m.qos)),
        ("retain"@, bool_text(m.retain)),
        ("pkid"@, decimal(m.pkid as nat)),
    ]
}

/// The header pairs of a message, as character sequences.
pub open spec fn header_views(h: Seq<(String, String)>) -> Seq<(Seq<char>, Seq<char>)> {
    h.map_values(|p: (String, String)| (p.0@, p.1@))
}

/// A received message as the `index`-th message of a peek.
pub fn received_message(m: Received, index: usize) -> (r: MessageInfo)
    ensures
        r.index == index,
        r.routing_key@ == m.topic@,
        r.exchange@ == Seq::<char>::empty(),
        r.redelivered == m.dup,
        r.timestamp is None,
        r.content_type@ == Seq::<char>::empty(),
        header_views(r.headers@) == received_headers(m),
        r.body@ == m.payload@,
{
    let ghost mv = m;
    let mut pkid = String::new();
    push_decimal(&mut pkid, m.pkid as u64);
    let headers = vec![
        (owned("topic"), m.topic.clone()),
        (owned("qos"), qos_string(m.qos)),
        (owned("retain"), bool_string(m.retain)),
        (owned("pkid"), pkid),
    ];
    assert(header_views(headers@) =~= received_headers(mv));
    MessageInfo {
        index,
        routing_key: m.topic,
        exchange: String::new(),
        redelivered: m.dup,
        timestamp: None,
        content_type: String::new(),
        headers,
        body: m.payload,
    }
}

// ---------------------------------------------------------------------------
// Broker version probe
// ---------------------------------------------------------------------------

/// Asks the broker for its version.
#[derive(Debug)]
pub struct BrokerProbe {
    pub connected: bool,
    /// The version reported so far, empty for none.
    pub version: String,
}

impl BrokerProbe {
    pub fn new() -> (r: BrokerProbe)
        ensures
            !r.connected,
            r.version@ == Seq::<char>::empty(),
    {
        BrokerProbe { connected: false, version: String::new() }
    }

    /// Reacts to one event: subscribes to the version topic once connected
    /// and stops at the first message on it.
    pub fn step(&mut self, event: MqttEvent) -> (r: MqttStep)
        ensures
            event is ConnAck ==> final(self).connected && final(self).version == old(self).version
                && (r matches MqttStep::Subscribe(t) && text_views(t@) == seq![version_topic()]),
            event matches MqttEvent::Publish(m) ==> if m.topic@ == version_topic() {
                *final(self) == (BrokerProbe { connected: old(self).connected, version: m.payload })
                    && r == MqttStep::Stop
            } else {
                *final(self) == *old(self) && r == MqttStep::Continue
            },
            event matches MqttEvent::Failure(e) ==> *final(self) == *old(self) && if old(self).connected {
                r == MqttStep::Stop
            } else {
                r matches MqttStep::Fail(msg) && msg@ == connection_failed(e@)
            },
            (event is PubAck || event is Other) ==> *final(self) == *old(self) && r
                == MqttStep::Continue,
    {
        match event {
            MqttEvent::ConnAck => {
                self.connected = true;
                let t = vec![owned("$SYS/broker/version")];
                assert(text_views(t@) =~= seq![version_topic()]);
                MqttStep::Subscribe(t)
            },
            MqttEvent::Publish(m) => {
                if same_text(m.topic.as_str(), "$SYS/broker/version") {
                    self.version = m.payload;
                    MqttStep::Stop
                } else {
                    MqttStep::Continue
                }
            },
            MqttEvent::Failure(e) => {
                if self.connected {
                    MqttStep::Stop
                } else {
                    MqttStep::Fail(connection_failure(e.as_str()))
                }
            },
            _ => MqttStep::Continue,
        }
    }
}

// ---------------------------------------------------------------------------
// Topic discovery
// ---------------------------------------------------------------------------

/// How many messages arrived on each topic.
#[derive(Debug)]
pub struct TopicTally {
    entries: Vec<(String, u64)>,
}

impl View for TopicTally {
    type V = Map<Seq<char>, u64>;

    closed spec fn view(&self) -> Map<Seq<char>, u64> {
        table_map(self.entries@)
    }
}

/// `m` after one more message on `topic`.
pub open spec fn tally_add(m: Map<Seq<char>, u64>, topic: Seq<char>) -> Map<Seq<char>, u64> {
    m.insert(
        topic,
        if m.contains_key(topic) {
            (m[topic] + 1) as u64
        } else {
            1
        },
    )
}

/// Whether one more message on `topic` still fits the count.
pub open spec fn tally_room(m: Map<Seq<char>, u64>, topic: Seq<char>) -> bool {
    m.contains_key(topic) ==> m[topic] < u64::MAX
}

/// Broker-internal topics, which discovery leaves out.
pub open spec fn is_system_topic(topic: Seq<char>) -> bool {
    starts_with(topic, "$SYS"@)
}

/// A topic found by discovery.
#[derive(Debug)]
pub struct DiscoveredTopic {
    pub name: String,
    pub messages: u64,
    /// `active` for a topic seen carrying messages, `subscribed` for a
    /// configured topic none arrived on.
    pub state: String,
}

/// `t` is an `active` topic with the count that `m` holds for it.
pub open spec fn counted(t: DiscoveredTopic, m: Map<Seq<char>, u64>) -> bool {
    t.messages == m[t.name@] && t.state@ == "active"@
}

/// `t` is a `subscribed` topic without messages.
pub open spec fn unvisited(t: DiscoveredTopic) -> bool {
    t.messages == 0 && t.state@ == "subscribed"@
}

/// The names of a list of discovered topics.
pub open spec fn discovered_names(d: Seq<DiscoveredTopic>) -> Seq<Seq<char>> {
    d.map_values(|t: DiscoveredTopic| t.name@)
}

impl TopicTally {
    #[verifier::type_invariant]
    spec fn names_unique(self) -> bool {
        unique_names(self.entries@)
    }

    /// No topic seen yet.
    pub fn new() -> (r: TopicTally)
        ensures
            r@ == Map::<Seq<char>, u64>::empty(),
    {
        TopicTally { entries: Vec::new() }
    }

    /// Whether no message was counted.
    pub fn is_empty(&self) -> (r: bool)
        ensures
            r == (self@ == Map::<Seq<char>, u64>::empty()),
    {
        proof {
            use_type_invariant(self);
            lemma_table_map(self.entries@);
            if self.entries@.len() > 0 {
                assert(self@.contains_key(self.entries@[0].0@));
                assert(!Map::<Seq<char>, u64>::empty().contains_key(self.entries@[0].0@));
            } else {
                assert(self@ =~= Map::<Seq<char>, u64>::empty());
            }
        }
        self.entries.len() == 0
    }

    /// The number of messages counted on `topic`.
    pub fn count(&self, topic: &str) -> (r: u64)
        ensures
            self@.contains_key(topic@) ==> r == self@[topic@],
            !self@.contains_key(topic@) ==> r == 0,
    {
        proof {
            use_type_invariant(self);
            lemma_table_map(self.entries@);
        }
        match find_name(&self.entries, topic) {
            Some(i) => self.entries[i].1,
            None => 0,
        }
    }

    /// Counts one more message on `topic`.
    pub fn add(&mut self, topic: &str)
        requires
            tally_room(old(self)@, topic@),
        ensures
            final(self)@ == tally_add(old(self)@, topic@),
    {
        proof {
            use_type_invariant(&*self);
            lemma_table_map(self.entries@);
        }
        let ghost es = self.entries@;
        match find_name(&self.entries, topic) {
            Some(i) => {
                let c = self.entries[i].1;
                let mut entries = Vec::new();
                std::mem::swap(&mut entries, &mut self.entries);
                entries.set(i, (owned(topic), c + 1));
                proof {
                    lemma_table_map_update(es, i as int, entries@[i as int]);
                    assert(entries@ == es.update(i as int, entries@[i as int]));
                }
                self.entries = entries;
            },
            None => {
                let mut entries = Vec::new();
                std::mem::swap(&mut entries, &mut self.entries);
                entries.push((owned(topic), 1));
                proof {
                    lemma_table_map_push(es, entries@.last());
                    assert(entries@ == es.push(entries@.last()));
                }
                self.entries = entries;
            },
        }
    }

    /// The counted topics in ascending order of name, each `active` with
    /// its count.
    pub fn topics(&self) -> (r: Vec<DiscoveredTopic>)
        ensures
            strictly_sorted(discovered_names(r@)),
            forall|i: int| 0 <= i < r@.len() ==> self@.contains_key(#[trigger] r@[i].name@),
            forall|k: Seq<char>|
                #[trigger] self@.contains_key(k) ==> exists|i: int|
                    0 <= i < r@.len() && r@[i].name@ == k,
            forall|i: int| 0 <= i < r@.len() ==> counted(#[trigger] r@[i], self@),
    {
        proof {
            use_type_invariant(self);
            lemma_table_map(self.entries@);
        }
        let mut names: Vec<String> = Vec::new();
        let mut n: usize = 0;
        while n < self.entries.len()
            invariant
                n <= self.entries@.len(),
                names@.len() == n,
                forall|j: int| 0 <= j < n ==> #[trigger] names@[j]@ == self.entries@[j].0@,
            decreases self.entries.len() - n,
        {
            names.push(self.entries[n].0.clone());
            n = n + 1;
        }
        let ghost all = names_of(self.entries@);
        assert(text_views(names@) =~= all);
        proof {
            assert forall|i: int, j: int| 0 <= i < j < names@.len() implies names@[i]@
                != names@[j]@ by {
                assert(text_views(names@)[i] == names@[i]@);
                assert(text_views(names@)[j] == names@[j]@);
            }
        }
        let sorted = sort_texts(&names);
        let ghost sv = text_views(sorted@);
        let mut out: Vec<DiscoveredTopic> = Vec::new();
        let mut k: usize = 0;
        while k < sorted.len()
            invariant
                k <= sorted@.len(),
                sv == text_views(sorted@),
                all == names_of(self.entries@),
                unique_names(self.entries@),
                text_views(names@) == all,
                covers(sv, all, all.len() as int),
                out@.len() == k,
                forall|i: int| 0 <= i < k ==> #[trigger] out@[i].name@ == sv[i],
                forall|i: int| 0 <= i < k ==> counted(#[trigger] out@[i], table_map(self.entries@)),
            decreases sorted.len() - k,
        {
            let name = sorted[k].clone();
            proof {
                lemma_table_map(self.entries@);
                assert(sv[k as int] == name@);
                let j = choose|j: int| 0 <= j < all.len() && all[j] == sv[k as int];
                assert(all[j] == self.entries@[j].0@);
                assert(table_map(self.entries@).contains_key(name@));
            }
            let messages = self.count(name.as_str());
            assert(messages == table_map(self.entries@)[name@]);
            let ghost before = out@;
            out.push(DiscoveredTopic { name, messages, state: owned("active") });
            assert forall|i: int| 0 <= i < k implies out@[i] == before[i] by {}
            k = k + 1;
        }
        proof {
            assert(self@ == table_map(self.entries@));
            assert(discovered_names(out@) =~= sv);
            assert forall|i: int| 0 <= i < out@.len() implies self@.contains_key(
                #[trigger] out@[i].name@,
            ) by {
                let j = choose|j: int| 0 <= j < all.len() && all[j] == sv[i];
                assert(all[j] == self.entries@[j].0@);
            }
            assert forall|key: Seq<char>| #[trigger] self@.contains_key(key) implies exists|i: int|
                0 <= i < out@.len() && out@[i].name@ == key by {
                let j = choose|j: int| 0 <= j < self.entries@.len() && self.entries@[j].0@ == key;
                assert(all[j] == key);
                let i = choose|i: int| 0 <= i < sv.len() && #[trigger] sv[i] == all[j];
                assert(out@[i].name@ == key);
            }
        }
        out
    }
}

/// Configured topics listed when none carried a message: ascending by name
/// (equal names side by side), each `subscribed` with no messages.
pub fn subscribed_topics(configured: &Vec<String>) -> (r: Vec<DiscoveredTopic>)
    ensures
        sorted_texts(discovered_names(r@)),
        discovered_names(r@).to_multiset() == text_views(configured@).to_multiset(),
        forall|i: int| 0 <= i < r@.len() ==> unvisited(#[trigger] r@[i]),
{
    let sorted = sort_texts_all(configured);
    let mut out: Vec<DiscoveredTopic> = Vec::new();
    let mut k: usize = 0;
    while k < sorted.len()
        invariant
            k <= sorted@.len(),
            out@.len() == k,
            forall|i: int| 0 <= i < k ==> #[trigger] out@[i].name@ == sorted@[i]@,
            forall|i: int| 0 <= i < k ==> unvisited(#[trigger] out@[i]),
        decreases sorted.len() - k,
    {
        out.push(DiscoveredTopic { name: sorted[k].clone(), messages: 0, state: owned("subscribed") });
        k = k + 1;
    }
    assert(discovered_names(out@) =~= text_views(sorted@));
    out
}

/// Lists the topics of a discovery session.
#[derive(Debug)]
pub struct TopicDiscovery {
    pub connected: bool,
    pub tally: TopicTally,
    /// The topics to subscribe to once connected.
    pub subscribe: Vec<String>,
}

impl TopicDiscovery {
    /// A session that subscribes to `backend`'s topics.
    pub fn new(backend: &MqttBackend) -> (r: TopicDiscovery)
        ensures
            !r.connected,
            r.tally@ == Map::<Seq<char>, u64>::empty(),
            backend.topics_spec() matches Some(t) ==> text_views(r.subscribe@) == t,
            backend.topics_spec() is None ==> text_views(r.subscribe@) == seq!["#"@],
    {
        TopicDiscovery {
            connected: false,
            tally: TopicTally::new(),
            subscribe: backend.subscription_topics(),
        }
    }

    /// Reacts to one event: subscribes once connected and counts every
    /// message outside the broker's own topics.
    pub fn step(&mut self, event: MqttEvent) -> (r: MqttStep)
        requires
            event matches MqttEvent::Publish(m) ==> tally_room(old(self).tally@, m.topic@),
        ensures
            final(self).subscribe@ == old(self).subscribe@,
            event is ConnAck ==> final(self).connected && final(self).tally@ == old(self).tally@ && (r matches MqttStep::Subscribe(t)
                && text_views(t@) == text_views(old(self).subscribe@)),
            event matches MqttEvent::Publish(m) ==> final(self).connected == old(self).connected
                && r == MqttStep::Continue && final(self).tally@ == if is_system_topic(m.topic@) {
                old(self).tally@
            } else {
                tally_add(old(self).tally@, m.topic@)
            },
            event matches MqttEvent::Failure(e) ==> final(self).connected == old(self).connected
                && final(self).tally@ == old(self).tally@ && if old(self).connected {
                r == MqttStep::Stop
            } else {
                r matches MqttStep::Fail(msg) && msg@ == connection_failed(e@)
            },
            (event is PubAck || event is Other) ==> final(self).connected == old(self).connected
                && final(self).tally@ == old(self).tally@ && r == MqttStep::Continue,
    {
        match event {
            MqttEvent::ConnAck => {
                self.connected = true;
                let t = copy_list(&self.subscribe);
                MqttStep::Subscribe(t)
            },
            MqttEvent::Publish(m) => {
                if !has_prefix(m.topic.as_str(), "$SYS") {
                    self.tally.add(m.topic.as_str());
                }
                MqttStep::Continue
            },
            MqttEvent::Failure(e) => {
                if self.connected {
                    MqttStep::Stop
                } else {
                    MqttStep::Fail(connection_failure(e.as_str()))
                }
            },
            _ => MqttStep::Continue,
        }
    }

    /// The topics found: those that carried messages, or else the
    /// configured ones of `backend`.
    pub fn finish(&self, backend: &MqttBackend) -> (r: Vec<DiscoveredTopic>)
        ensures
            self.tally@ != Map::<Seq<char>, u64>::empty() ==> {
                &&& strictly_sorted(discovered_names(r@))
                &&& forall|i: int| 0 <= i < r@.len() ==> self.tally@.contains_key(#[trigger] r@[i].name@)
                &&& forall|k: Seq<char>|
                    #[trigger] self.tally@.contains_key(k) ==> exists|i: int|
                        0 <= i < r@.len() && r@[i].name@ == k
                &&& forall|i: int| 0 <= i < r@.len() ==> counted(#[trigger] r@[i], self.tally@)
            },
            self.tally@ == Map::<Seq<char>, u64>::empty() ==> match backend.topics_spec() {
                Some(t) => {
                    &&& sorted_texts(discovered_names(r@))
                    &&& discovered_names(r@).to_multiset() == t.to_multiset()
                    &&& forall|i: int| 0 <= i < r@.len() ==> unvisited(#[trigger] r@[i])
                },
                None => r@.len() == 0,
            },
    {
        if self.tally.is_empty() {
            match copy_topics(&backend.topics) {
                Some(t) => subscribed_topics(&t),
                None => Vec::new(),
            }
        } else {
            self.tally.topics()
        }
    }
}

/// A copy of a list of strings.
fn copy_list(v: &Vec<String>) -> (r: Vec<String>)
    ensures
        text_views(r@) == text_views(v@),
{
    let mut out: Vec<String> = Vec::new();
    let mut i: usize = 0;
    while i < v.len()
        invariant
            i <= v@.len(),
            out@ == v@.take(i as int),
        decreases v.len() - i,
    {
        out.push(v[i].clone());
        i = i + 1;
        assert(out@ =~= v@.take(i as int));
    }
    assert(v@.take(v@.len() as int) =~= v@);
    out
}

// ---------------------------------------------------------------------------
// Peek
// ---------------------------------------------------------------------------

/// Collects up to `count` messages from one topic filter.
#[derive(Debug)]
pub struct PeekSession {
    pub connected: bool,
    pub queue: String,
    pub count: u32,
    pub messages: Vec<MessageInfo>,
}

impl PeekSession {
    pub fn new(queue: &str, count: u32) -> (r: PeekSession)
        ensures
            !r.connected,
            r.queue@ == queue@,
            r.count == count,
            r.messages@.len() == 0,
    {
        PeekSession { connected: false, queue: owned(queue), count, messages: Vec::new() }
    }

    /// Reacts to one event: stops once `count` messages are in, subscribes
    /// to the queue once connected, and records each message that arrives,
    /// numbered from 1.
    pub fn step(&mut self, event: MqttEvent) -> (r: MqttStep)
        requires
            old(self).messages@.len() < usize::MAX,
        ensures
            final(self).queue == old(self).queue,
            final(self).count == old(self).count,
            old(self).messages@.len() >= old(self).count ==> final(self).connected == old(self).connected && final(self).messages@ == old(self).messages@ && r == MqttStep::Stop,
            old(self).messages@.len() < old(self).count ==> {
                &&& event is ConnAck ==> final(self).connected && final(self).messages@ == old(self).messages@ && (r matches MqttStep::Subscribe(t) && text_views(t@) == seq![
                    old(self).queue@,
                ])
                &&& event matches MqttEvent::Publish(m) ==> {
                    &&& final(self).connected == old(self).connected
                    &&& r == MqttStep::Continue
                    &&& final(self).messages@.len() == old(self).messages@.len() + 1
                    &&& final(self).messages@.drop_last() == old(self).messages@
                    &&& final(self).messages@.last().index == old(self).messages@.len() + 1
                    &&& final(self).messages@.last().routing_key@ == m.topic@
                    &&& final(self).messages@.last().body@ == m.payload@
                    &&& final(self).messages@.last().redelivered == m.dup
                    &&& final(self).messages@.last().exchange@ == Seq::<char>::empty()
                    &&& final(self).messages@.last().content_type@ == Seq::<char>::empty()
                    &&& final(self).messages@.last().timestamp is None
                    &&& header_views(final(self).messages@.last().headers@) == received_headers(m)
                }
                &&& event matches MqttEvent::Failure(e) ==> final(self).connected == old(self).connected && final(self).messages@ == old(self).messages@ && if old(self).connected {
                    r == MqttStep::Stop
                } else {
                    r matches MqttStep::Fail(msg) && msg@ == connection_failed(e@)
                }
                &&& (event is PubAck || event is Other) ==> final(self).connected == old(self).connected && final(self).messages@ == old(self).messages@ && r
                    == MqttStep::Continue
            },
    {
        if self.messages.len() >= self.count as usize {
            return MqttStep::Stop;
        }
        match event {
            MqttEvent::ConnAck => {
                self.connected = true;
                let t = vec![self.queue.clone()];
                assert(text_views(t@) =~= seq![self.queue@]);
                MqttStep::Subscribe(t)
            },
            MqttEvent::Publish(m) => {
                let index = self.messages.len() + 1;
                let msg = received_message(m, index);
                self.messages.push(msg);
                MqttStep::Continue
            },
            MqttEvent::Failure(e) => {
                if self.connected {
                    MqttStep::Stop
                } else {
                    MqttStep::Fail(connection_failure(e.as_str()))
                }
            },
            _ => MqttStep::Continue,
        }
    }
}

// ---------------------------------------------------------------------------
// Publish
// ---------------------------------------------------------------------------

/// Publishes one message once connected and waits for its acknowledgement.
#[derive(Debug)]
pub struct PublishSession {
    pub connected: bool,
    pub published: bool,
}

impl PublishSession {
    pub fn new() -> (r: PublishSession)
        ensures
            !r.connected,
            !r.published,
    {
        PublishSession { connected: false, published: false }
    }

    /// Reacts to one event: publishes once connected, stops at the
    /// acknowledgement.
    pub fn step(&mut self, event: MqttEvent) -> (r: MqttStep)
        ensures
            event is ConnAck ==> final(self).connected && final(self).published == old(self).published && r == MqttStep::PublishNow,
            event is PubAck ==> final(self).published && final(self).connected == old(self).connected && r == MqttStep::Stop,
            event matches MqttEvent::Failure(e) ==> *final(self) == *old(self) && if old(self).connected {
                r == MqttStep::Stop
            } else {
                r matches MqttStep::Fail(msg) && msg@ == connection_failed(e@)
            },
            (event is Publish || event is Other) ==> *final(self) == *old(self) && r
                == MqttStep::Continue,
    {
        match event {
            MqttEvent::ConnAck => {
                self.connected = true;
                MqttStep::PublishNow
            },
            MqttEvent::PubAck => {
                self.published = true;
                MqttStep::Stop
            },
            MqttEvent::Failure(e) => {
                if self.connected {
                    MqttStep::Stop
                } else {
                    MqttStep::Fail(connection_failure(e.as_str()))
                }
            },
            _ => MqttStep::Continue,
        }
    }

    /// The outcome once the session is over: a message sent at the lowest
    /// quality of service gets no acknowledgement, so a connection that
    /// came up counts as sent.
    pub fn finish(&self) -> (r: Result<(), String>)
        ensures
            self.connected ==> r is Ok,
            !self.connected ==> (r matches Err(e) && e@ == "Failed to connect to MQTT broker"@),
    {
        if !self.published && self.connected {
            return Ok(());
        }
        if !self.connected {
            return Err(owned("Failed to connect to MQTT broker"));
        }
        Ok(())
    }
}

} // verus!
