//! Connection profiles and the rest of the user's configuration, with the
//! profile table keyed by unique names.

use vstd::prelude::*;
use crate::order::{
    covers, insert_position, lemma_insert_covers, lemma_insert_sorted, strictly_sorted, text_less,
};
use crate::keyed::{lemma_table_map, lemma_table_map_update, names_of, table_map, unique_names};
use crate::text::{decimal, owned, push_decimal, push_str, same_text};

verus! {

/// A named connection to one broker.
#[derive(Debug)]
pub struct Profile {
    /// `rabbitmq`, `kafka` or `mqtt`.
    pub profile_type: String,
    pub host: String,
    pub port: u16,
    pub username: String,
    pub password: String,
    pub vhost: Option<String>,
    pub tls: Option<bool>,
    pub tls_cert: Option<String>,
    pub tls_key: Option<String>,
    pub tls_ca: Option<String>,
    pub topics: Option<Vec<String>>,
    pub schema_registry: Option<SchemaRegistryConfig>,
}

/// The profile type assumed when a stored profile names none.
pub fn default_profile_type() -> (r: String)
    ensures
        r@ == "rabbitmq"@,
{
    owned("rabbitmq")
}

impl Default for Profile {
    fn default() -> (r: Profile)
        ensures
            r.profile_type@ == Seq::<char>::empty(),
            r.host@ == Seq::<char>::empty(),
            r.port == 0,
            r.username@ == Seq::<char>::empty(),
            r.password@ == Seq::<char>::empty(),
            r.vhost is None,
            r.tls is None,
            r.tls_cert is None,
            r.tls_key is None,
            r.tls_ca is None,
            r.topics is None,
            r.schema_registry is None,
    {
        Profile {
            profile_type: String::new(),
            host: String::new(),
            port: 0,
            username: String::new(),
            password: String::new(),
            vhost: None,
            tls: None,
            tls_cert: None,
            tls_key: None,
            tls_ca: None,
            topics: None,
            schema_registry: None,
        }
    }
}

/// The base URL of a profile: `https` when TLS is on, otherwise `http`.
pub open spec fn base_url_spec(tls: Option<bool>, host: Seq<char>, port: u16) -> Seq<char> {
    let scheme = if tls == Some(true) {
        "https"@
    } else {
        "http"@
    };
    scheme + "://"@ + host + ":"@ + decimal(port as nat)
}

impl Profile {
    /// `scheme://host:port` of the broker's HTTP interface.
    pub fn base_url(&self) -> (r: String)
        ensures
            r@ == base_url_spec(self.tls, self.host@, self.port),
    {
        let tls = match self.tls {
            Some(t) => t,
            None => false,
        };
        let mut s = if tls {
            owned("https")
        } else {
            owned("http")
        };
        push_str(&mut s, "://");
        push_str(&mut s, self.host.as_str());
        push_str(&mut s, ":");
        push_decimal(&mut s, self.port as u64);
        s
    }
}

/// A named filter expression saved for a queue.
#[derive(Debug)]
pub struct SavedFilter {
    pub name: String,
    pub expression: String,
    pub advanced: bool,
}

/// A message body template with routing key and content type.
#[derive(Debug)]
pub struct MessageTemplate {
    pub name: String,
    pub routing_key: String,
    pub content_type: String,
    pub body: String,
}

/// Where to find a Confluent-compatible Schema Registry.
#[derive(Debug)]
pub struct SchemaRegistryConfig {
    pub url: String,
    pub username: Option<String>,
    pub password: Option<String>,
}

/// An alert that posts to a webhook when a message matches a pattern.
#[derive(Debug)]
pub struct WebhookAlert {
    pub name: String,
    pub pattern: String,
    pub webhook_url: String,
    pub enabled: bool,
    /// The queues watched; empty means all.
    pub queues: Vec<String>,
}

/// The profiles of a configuration, by unique name.
#[derive(Debug)]
pub struct ProfileTable {
    entries: Vec<(String, Profile)>,
}

impl View for ProfileTable {
    type V = Map<Seq<char>, Profile>;

    closed spec fn view(&self) -> Map<Seq<char>, Profile> {
        table_map(self.entries@)
    }
}

impl ProfileTable {
    #[verifier::type_invariant]
    spec fn names_unique(self) -> bool {
        unique_names(self.entries@)
    }

    /// An empty table.
    pub fn new() -> (r: ProfileTable)
        ensures
            r@ == Map::<Seq<char>, Profile>::empty(),
    {
        ProfileTable { entries: Vec::new() }
    }

    /// The number of profiles.
    pub fn len(&self) -> (r: usize)
        ensures
            r == self@.len(),
    {
        proof {
            use_type_invariant(self);
            lemma_table_len(self.entries@);
        }
        self.entries.len()
    }

    /// Whether there are no profiles.
    pub fn is_empty(&self) -> (r: bool)
        ensures
            r == (self@.len() == 0),
    {
        self.len() == 0
    }

    /// The position of the entry named `name`.
    fn position(&self, name: &str) -> (r: Option<usize>)
        ensures
            r matches Some(i) ==> i < self.entries@.len() && self.entries@[i as int].0@ == name@,
            r is None ==> forall|i: int|
                0 <= i < self.entries@.len() ==> self.entries@[i].0@ != name@,
    {
        let mut i: usize = 0;
        while i < self.entries.len()
            invariant
                i <= self.entries@.len(),
                forall|k: int| 0 <= k < i ==> self.entries@[k].0@ != name@,
            decreases self.entries.len() - i,
        {
            if same_text(self.entries[i].0.as_str(), name) {
                return Some(i);
            }
            i = i + 1;
        }
        None
    }

    /// The profile named `name`.
    pub fn get(&self, name: &str) -> (r: Option<&Profile>)
        ensures
            r is None <==> !self@.contains_key(name@),
            r matches Some(p) ==> self@[name@] == *p,
    {
        proof {
            use_type_invariant(self);
            lemma_table_map(self.entries@);
        }
        match self.position(name) {
            Some(i) => Some(&self.entries[i].1),
            None => None,
        }
    }

    /// Adds `profile` under `name`, replacing a profile of that name.
    pub fn insert(&mut self, name: String, profile: Profile)
        ensures
            final(self)@ == old(self)@.insert(name@, profile),
    {
        proof {
            use_type_invariant(&*self);
            lemma_table_map(self.entries@);
        }
        let ghost old_map = self@;
        let ghost name_view = name@;
        let ghost prof = profile;
        match self.position(name.as_str()) {
            Some(i) => {
                let ghost es = self.entries@;
                let mut entries = Vec::new();
                std::mem::swap(&mut entries, &mut self.entries);
                entries.set(i, (name, profile));
                proof {
                    lemma_table_map_update(es, i as int, entries@[i as int]);
                    assert(entries@ == es.update(i as int, entries@[i as int]));
                }
                self.entries = entries;
            },
            None => {
                let ghost es = self.entries@;
                let mut entries = Vec::new();
                std::mem::swap(&mut entries, &mut self.entries);
                entries.push((name, profile));
                proof {
                    assert(entries@.drop_last() =~= es);
                    assert forall|a: int, b: int| 0 <= a < b < entries@.len() implies entries@[a].0@
                        != entries@[b].0@ by {
                        if b == entries@.len() - 1 {
                            assert(es[a].0@ != name_view);
                        } else {
                            assert(es[a].0@ != es[b].0@);
                        }
                    }
                }
                self.entries = entries;
            },
        }
    }

    /// Removes the profile named `name`, if there is one.
    pub fn remove(&mut self, name: &str)
        ensures
            final(self)@ == old(self)@.remove(name@),
    {
        proof {
            use_type_invariant(&*self);
            lemma_table_map(self.entries@);
        }
        let ghost old_map = self@;
        match self.position(name) {
            Some(i) => {
                let ghost es = self.entries@;
                let mut entries = Vec::new();
                std::mem::swap(&mut entries, &mut self.entries);
                let _removed = entries.remove(i);
                proof {
                    let nes = entries@;
                    assert(nes =~= es.remove(i as int));
                    assert(unique_names(nes));
                    lemma_table_map(nes);
                    assert forall|k: Seq<char>| #[trigger] table_map(nes).contains_key(k)
                        <==> old_map.remove(name@).contains_key(k) by {
                        if old_map.contains_key(k) && k != name@ {
                            let j = choose|j: int| 0 <= j < es.len() && es[j].0@ == k;
                            if j < i {
                                assert(nes[j].0@ == k);
                            } else {
                                assert(nes[j - 1].0@ == k);
                            }
                        }
                    }
                    assert forall|k: Seq<char>| #[trigger] table_map(nes).contains_key(k)
                        implies table_map(nes)[k] == old_map.remove(name@)[k] by {
                        let j = choose|j: int| 0 <= j < nes.len() && nes[j].0@ == k;
                        if j < i {
                            assert(es[j] == nes[j]);
                        } else {
                            assert(es[j + 1] == nes[j]);
                        }
                    }
                    assert(table_map(nes) =~= old_map.remove(name@));
                }
                self.entries = entries;
            },
            None => {
                proof {
                    assert(old_map =~= old_map.remove(name@));
                }
            },
        }
    }

    /// The profile names in ascending order.
    pub fn sorted_names(&self) -> (r: Vec<String>)
        ensures
            strictly_sorted(r@.map_values(|s: String| s@)),
            forall|i: int| 0 <= i < r@.len() ==> self@.contains_key(#[trigger] r@[i]@),
            forall|k: Seq<char>|
                #[trigger] self@.contains_key(k) ==> exists|i: int| 0 <= i < r@.len() && r@[i]@ == k,
    {
        proof {
            use_type_invariant(self);
            lemma_table_map(self.entries@);
        }
        let ghost names = names_of(self.entries@);
        let mut r: Vec<String> = Vec::new();
        let mut n: usize = 0;
        while n < self.entries.len()
            invariant
                n <= self.entries@.len(),
                names == names_of(self.entries@),
                unique_names(self.entries@),
                strictly_sorted(r@.map_values(|s: String| s@)),
                covers(r@.map_values(|s: String| s@), names, n as int),
            decreases self.entries.len() - n,
        {
            let name = self.entries[n].0.clone();
            let ghost x = name@;
            let ghost rv = r@.map_values(|s: String| s@);
            proof {
                assert(x == names[n as int]);
                assert forall|i: int| 0 <= i < r@.len() implies r@[i]@ != x by {
                    assert(rv[i] == r@[i]@);
                    let k = choose|k: int| 0 <= k < n && names[k] == rv[i];
                    assert(self.entries@[k].0@ != self.entries@[n as int].0@);
                }
            }
            let p = insert_position(&r, name.as_str());
            r.insert(p, name);
            proof {
                assert(r@.map_values(|s: String| s@) =~= rv.insert(p as int, x));
                assert forall|i: int| 0 <= i < p implies text_less(#[trigger] rv[i], x) by {
                    assert(rv[i] == r@[i]@);
                }
                lemma_insert_sorted(rv, p as int, x);
                lemma_insert_covers(rv, p as int, names, n as int);
            }
            n = n + 1;
        }
        proof {
            let rv = r@.map_values(|s: String| s@);
            assert forall|k: Seq<char>| #[trigger] self@.contains_key(k) implies exists|i: int|
                0 <= i < r@.len() && r@[i]@ == k by {
                let q = choose|q: int| 0 <= q < self.entries@.len() && self.entries@[q].0@ == k;
                assert(names[q] == k);
                let i = choose|i: int| 0 <= i < rv.len() && rv[i] == names[q];
                assert(r@[i]@ == k);
            }
            assert forall|i: int| 0 <= i < r@.len() implies self@.contains_key(#[trigger] r@[i]@) by {
                assert(rv[i] == r@[i]@);
                let k = choose|k: int| 0 <= k < self.entries@.len() && names[k] == rv[i];
                assert(self.entries@[k].0@ == r@[i]@);
            }
        }
        r
    }
}

proof fn lemma_table_len(es: Seq<(String, Profile)>)
    requires
        unique_names(es),
    ensures
        table_map(es).len() == es.len(),
        table_map(es).dom().finite(),
    decreases es.len(),
{
    if es.len() > 0 {
        let p = es.drop_last();
        assert(unique_names(p));
        lemma_table_len(p);
        lemma_table_map(p);
        assert(!table_map(p).contains_key(es.last().0@)) by {
            if table_map(p).contains_key(es.last().0@) {
                let i = choose|i: int| 0 <= i < p.len() && p[i].0@ == es.last().0@;
                assert(es[i].0@ == es[es.len() - 1].0@);
            }
        }
    }
}

/// The user's configuration.
#[derive(Debug)]
pub struct Config {
    pub default_profile: Option<String>,
    pub theme: Option<String>,
    pub profiles: ProfileTable,
    /// Saved filters, by queue name.
    pub filters: Vec<(String, Vec<SavedFilter>)>,
    pub templates: Vec<MessageTemplate>,
    pub webhook_alerts: Vec<WebhookAlert>,
}

impl Default for Config {
    fn default() -> (r: Config)
        ensures
            r.default_profile is None,
            r.theme is None,
            r.profiles@ == Map::<Seq<char>, Profile>::empty(),
            r.filters@.len() == 0,
            r.templates@.len() == 0,
            r.webhook_alerts@.len() == 0,
    {
        Config {
            default_profile: None,
            theme: None,
            profiles: ProfileTable::new(),
            filters: Vec::new(),
            templates: Vec::new(),
            webhook_alerts: Vec::new(),
        }
    }
}

impl Config {
    /// The profile names in ascending order.
    pub fn profile_names(&self) -> (r: Vec<String>)
        ensures
            strictly_sorted(r@.map_values(|s: String| s@)),
            forall|i: int| 0 <= i < r@.len() ==> self.profiles@.contains_key(#[trigger] r@[i]@),
            forall|k: Seq<char>|
                #[trigger] self.profiles@.contains_key(k) ==> exists|i: int|
                    0 <= i < r@.len() && r@[i]@ == k,
    {
        self.profiles.sorted_names()
    }

    /// Adds `profile` under `name`, replacing any profile of that name.
    pub fn add_profile(&mut self, name: String, profile: Profile)
        ensures
            final(self).profiles@ == old(self).profiles@.insert(name@, profile),
            final(self).default_profile == old(self).default_profile,
            final(self).theme == old(self).theme,
            final(self).filters == old(self).filters,
            final(self).templates == old(self).templates,
            final(self).webhook_alerts == old(self).webhook_alerts,
    {
        self.profiles.insert(name, profile);
    }

    /// Removes the profile `name`; clears the default profile when it was
    /// that one.
    pub fn delete_profile(&mut self, name: &str)
        ensures
            final(self).profiles@ == old(self).profiles@.remove(name@),
            final(self).default_profile == (match old(self).default_profile {
                Some(d) => if d@ == name@ {
                    None
                } else {
                    Some(d)
                },
                None => None,
            }),
            final(self).theme == old(self).theme,
            final(self).filters == old(self).filters,
            final(self).templates == old(self).templates,
            final(self).webhook_alerts == old(self).webhook_alerts,
    {
        self.profiles.remove(name);
        let clear = match &self.default_profile {
            Some(d) => same_text(d.as_str(), name),
            None => false,
        };
        if clear {
            self.default_profile = None;
        }
    }
}

} // verus!
