//! The publish form and the profile form: their fields, editing keys, and
//! the conversion between a profile form and a stored profile.

use vstd::prelude::*;
use crate::config::Profile;
use crate::text::{
    contains, contains_text, decimal, lemma_parse_decimal, lowercase, owned, parse_u16,
    parse_unsigned, pop_char, push_char, same_text, to_lower, u64_text,
};

verus! {

/// The message being composed in the publish popup.
#[derive(Debug)]
pub struct PublishForm {
    pub routing_key: String,
    pub content_type: String,
    pub body: String,
    /// 0 = routing key, 1 = content type, 2 = body.
    pub focused_field: usize,
    pub error: String,
}

impl Default for PublishForm {
    fn default() -> (r: PublishForm)
        ensures
            r.routing_key@ == Seq::<char>::empty(),
            r.content_type@ == Seq::<char>::empty(),
            r.body@ == Seq::<char>::empty(),
            r.focused_field == 0,
            r.error@ == Seq::<char>::empty(),
    {
        PublishForm {
            routing_key: String::new(),
            content_type: String::new(),
            body: String::new(),
            focused_field: 0,
            error: String::new(),
        }
    }
}

/// The text of field `i` of a publish form (empty for no field).
pub open spec fn publish_field(f: PublishForm, i: usize) -> Seq<char> {
    if i == 0 {
        f.routing_key@
    } else if i == 1 {
        f.content_type@
    } else if i == 2 {
        f.body@
    } else {
        Seq::empty()
    }
}

/// `g` has the texts and focus of `f`.
pub open spec fn same_publish(f: PublishForm, g: PublishForm) -> bool {
    &&& f.routing_key@ == g.routing_key@
    &&& f.content_type@ == g.content_type@
    &&& f.body@ == g.body@
    &&& f.focused_field == g.focused_field
    &&& f.error@ == g.error@
}

/// `g` is `f` with the focused field's text replaced by `t`.
pub open spec fn publish_edited(f: PublishForm, g: PublishForm, t: Seq<char>) -> bool {
    &&& g.focused_field == f.focused_field
    &&& g.error@ == f.error@
    &&& forall|i: usize|
        i < 3 ==> #[trigger] publish_field(g, i) == if i == f.focused_field {
            t
        } else {
            publish_field(f, i)
        }
}

/// `s` without its last character, if it has one.
pub open spec fn drop_last_char(s: Seq<char>) -> Seq<char> {
    if s.len() > 0 {
        s.drop_last()
    } else {
        s
    }
}

impl PublishForm {
    /// A form for publishing to `queue_name`: its name as routing key, JSON
    /// content, focus on the body.
    pub fn new_for_queue(queue_name: &str) -> (r: PublishForm)
        ensures
            r.routing_key@ == queue_name@,
            r.content_type@ == "application/json"@,
            r.body@ == Seq::<char>::empty(),
            r.focused_field == 2,
            r.error@ == Seq::<char>::empty(),
    {
        PublishForm {
            routing_key: owned(queue_name),
            content_type: owned("application/json"),
            body: String::new(),
            focused_field: 2,
            error: String::new(),
        }
    }

    /// The number of fields.
    pub fn field_count() -> (r: usize)
        ensures
            r == 3,
    {
        3
    }

    /// The label of field `idx`.
    pub fn field_label(idx: usize) -> (r: &'static str)
        ensures
            r@ == (if idx == 0 {
                "Routing Key"@
            } else if idx == 1 {
                "Content Type"@
            } else if idx == 2 {
                "Body"@
            } else {
                ""@
            }),
    {
        if idx == 0 {
            "Routing Key"
        } else if idx == 1 {
            "Content Type"
        } else if idx == 2 {
            "Body"
        } else {
            ""
        }
    }

    /// Types `c` into the focused field.
    pub fn push_char(&mut self, c: char)
        ensures
            old(self).focused_field < 3 ==> publish_edited(
                *old(self),
                *final(self),
                publish_field(*old(self), old(self).focused_field).push(c),
            ),
            old(self).focused_field >= 3 ==> same_publish(*old(self), *final(self)),
    {
        if self.focused_field == 0 {
            push_char(&mut self.routing_key, c);
        } else if self.focused_field == 1 {
            push_char(&mut self.content_type, c);
        } else if self.focused_field == 2 {
            push_char(&mut self.body, c);
        }
    }

    /// Deletes the last character of the focused field.
    pub fn pop_char(&mut self)
        ensures
            old(self).focused_field < 3 ==> publish_edited(
                *old(self),
                *final(self),
                drop_last_char(publish_field(*old(self), old(self).focused_field)),
            ),
            old(self).focused_field >= 3 ==> same_publish(*old(self), *final(self)),
    {
        if self.focused_field == 0 {
            pop_char(&mut self.routing_key);
        } else if self.focused_field == 1 {
            pop_char(&mut self.content_type);
        } else if self.focused_field == 2 {
            pop_char(&mut self.body);
        }
    }

    /// Starts a new line in the body, when the body has the focus.
    pub fn newline(&mut self)
        ensures
            old(self).focused_field == 2 ==> publish_edited(
                *old(self),
                *final(self),
                old(self).body@.push('\n'),
            ),
            old(self).focused_field != 2 ==> same_publish(*old(self), *final(self)),
    {
        if self.focused_field == 2 {
            push_char(&mut self.body, '\n');
        }
    }
}

/// Typing a character into a publish form field and deleting it again gives
/// back the form.
pub proof fn lemma_publish_push_pop(f: PublishForm, g: PublishForm, h: PublishForm, c: char)
    requires
        f.focused_field < 3,
        publish_edited(f, g, publish_field(f, f.focused_field).push(c)),
        publish_edited(g, h, drop_last_char(publish_field(g, g.focused_field))),
    ensures
        same_publish(f, h),
{
    assert(publish_field(g, f.focused_field) == publish_field(f, f.focused_field).push(c));
    assert(publish_field(f, f.focused_field).push(c).drop_last() =~= publish_field(
        f,
        f.focused_field,
    ));
    assert(publish_field(h, 0) == publish_field(f, 0));
    assert(publish_field(h, 1) == publish_field(f, 1));
    assert(publish_field(h, 2) == publish_field(f, 2));
}

/// The profile being added or edited on the profile screen.
#[derive(Debug)]
pub struct ProfileForm {
    pub profile_type: String,
    pub name: String,
    pub host: String,
    pub port: String,
    pub username: String,
    pub password: String,
    pub vhost: String,
    pub tls: bool,
    /// 0 type, 1 name, 2 host, 3 port, 4 username, 5 password, 6 vhost, 7 TLS.
    pub focused_field: usize,
    pub error: String,
}

impl Default for ProfileForm {
    fn default() -> (r: ProfileForm)
        ensures
            r.profile_type@ == Seq::<char>::empty(),
            r.name@ == Seq::<char>::empty(),
            r.host@ == Seq::<char>::empty(),
            r.port@ == Seq::<char>::empty(),
            r.username@ == Seq::<char>::empty(),
            r.password@ == Seq::<char>::empty(),
            r.vhost@ == Seq::<char>::empty(),
            !r.tls,
            r.focused_field == 0,
            r.error@ == Seq::<char>::empty(),
    {
        ProfileForm {
            profile_type: String::new(),
            name: String::new(),
            host: String::new(),
            port: String::new(),
            username: String::new(),
            password: String::new(),
            vhost: String::new(),
            tls: false,
            focused_field: 0,
            error: String::new(),
        }
    }
}

/// The default port of a backend type.
pub open spec fn default_port_spec(backend_type: Seq<char>) -> Seq<char> {
    if backend_type == "kafka"@ {
        "9092"@
    } else if backend_type == "mqtt"@ {
        "1883"@
    } else {
        "15672"@
    }
}

/// A host of a hosted RabbitMQ service (CloudAMQP, AWS, Azure, RabbitMQ
/// cloud), whatever the case of its name.
pub open spec fn is_cloud_spec(host: Seq<char>) -> bool {
    let h = lowercase(host);
    contains(h, "cloudamqp.com"@) || contains(h, "amazonaws.com"@) || contains(h, "azure.com"@)
        || contains(h, "rabbitmq.cloud"@)
}

/// The port and TLS setting that a RabbitMQ form takes for its host: a cloud
/// host moves a default or empty port to 443 and turns TLS on; another host
/// moves port 443 back to the default and turns TLS off.
pub open spec fn detected(ptype: Seq<char>, host: Seq<char>, port: Seq<char>, tls: bool) -> (
    Seq<char>,
    bool,
) {
    if ptype != "rabbitmq"@ {
        (port, tls)
    } else if is_cloud_spec(host) {
        (if port == "15672"@ || port.len() == 0 {
            "443"@
        } else {
            port
        }, true)
    } else if port == "443"@ {
        ("15672"@, false)
    } else {
        (port, tls)
    }
}

/// The text of field `i` of a profile form (TLS reads `yes` or `no`).
pub open spec fn profile_field(f: ProfileForm, i: usize) -> Seq<char> {
    if i == 0 {
        f.profile_type@
    } else if i == 1 {
        f.name@
    } else if i == 2 {
        f.host@
    } else if i == 3 {
        f.port@
    } else if i == 4 {
        f.username@
    } else if i == 5 {
        f.password@
    } else if i == 6 {
        f.vhost@
    } else if i == 7 {
        if f.tls {
            "yes"@
        } else {
            "no"@
        }
    } else {
        Seq::empty()
    }
}

/// `g` has every text field, the TLS flag and the focus of `f`.
pub open spec fn same_profile_form(f: ProfileForm, g: ProfileForm) -> bool {
    &&& f.profile_type@ == g.profile_type@
    &&& f.name@ == g.name@
    &&& f.host@ == g.host@
    &&& f.port@ == g.port@
    &&& f.username@ == g.username@
    &&& f.password@ == g.password@
    &&& f.vhost@ == g.vhost@
    &&& f.tls == g.tls
    &&& f.focused_field == g.focused_field
    &&& f.error@ == g.error@
}

/// `g` is `f` with text field `i` (0 to 6) set to `t`, or with all text
/// fields kept when `i` is 7 or more; the TLS flag is not compared.
pub open spec fn profile_text_edited(f: ProfileForm, g: ProfileForm, i: usize, t: Seq<char>) -> bool {
    &&& g.focused_field == f.focused_field
    &&& g.error@ == f.error@
    &&& forall|k: usize|
        k < 7 ==> #[trigger] profile_field(g, k) == if k == i {
            t
        } else {
            profile_field(f, k)
        }
}

/// `g` is `f` with the host set to `h`, then port and TLS detected anew.
pub open spec fn host_edited(f: ProfileForm, g: ProfileForm, h: Seq<char>) -> bool {
    &&& g.profile_type@ == f.profile_type@
    &&& g.name@ == f.name@
    &&& g.host@ == h
    &&& (g.port@, g.tls) == detected(f.profile_type@, h, f.port@, f.tls)
    &&& g.username@ == f.username@
    &&& g.password@ == f.password@
    &&& g.vhost@ == f.vhost@
    &&& g.focused_field == f.focused_field
    &&& g.error@ == f.error@
}

/// A text field the user types into freely (not type, host or TLS).
pub open spec fn plain_text_field(i: usize) -> bool {
    i == 1 || i == 3 || i == 4 || i == 5 || i == 6
}

/// `g` is `f` after typing `c`: the type field takes no typing, the TLS
/// field toggles, typing into the host re-detects port and TLS, and the
/// other fields take the character.
pub open spec fn typed_into(f: ProfileForm, g: ProfileForm, c: char) -> bool {
    &&& f.focused_field == 0 || f.focused_field > 7 ==> same_profile_form(f, g)
    &&& f.focused_field == 7 ==> profile_text_edited(f, g, 7, Seq::empty()) && g.tls == !f.tls
    &&& f.focused_field == 2 ==> host_edited(f, g, f.host@.push(c))
    &&& plain_text_field(f.focused_field) ==> profile_text_edited(
        f,
        g,
        f.focused_field,
        profile_field(f, f.focused_field).push(c),
    ) && g.tls == f.tls
}

/// `g` is `f` after deleting the focused field's last character (the type
/// and TLS fields take no deletion; deleting from the host re-detects port
/// and TLS).
pub open spec fn erased_from(f: ProfileForm, g: ProfileForm) -> bool {
    &&& f.focused_field == 0 || f.focused_field >= 7 ==> same_profile_form(f, g)
    &&& f.focused_field == 2 ==> host_edited(f, g, drop_last_char(f.host@))
    &&& plain_text_field(f.focused_field) ==> profile_text_edited(
        f,
        g,
        f.focused_field,
        drop_last_char(profile_field(f, f.focused_field)),
    ) && g.tls == f.tls
}

impl ProfileForm {
    /// The number of fields.
    pub fn field_count() -> (r: usize)
        ensures
            r == 8,
    {
        8
    }

    /// The label of field `idx`.
    pub fn field_label(idx: usize) -> (r: &'static str)
        ensures
            r@ == (if idx == 0 {
                "Type"@
            } else if idx == 1 {
                "Name"@
            } else if idx == 2 {
                "Host"@
            } else if idx == 3 {
                "Port"@
            } else if idx == 4 {
                "Username"@
            } else if idx == 5 {
                "Password"@
            } else if idx == 6 {
                "Vhost"@
            } else if idx == 7 {
                "TLS"@
            } else {
                ""@
            }),
    {
        if idx == 0 {
            "Type"
        } else if idx == 1 {
            "Name"
        } else if idx == 2 {
            "Host"
        } else if idx == 3 {
            "Port"
        } else if idx == 4 {
            "Username"
        } else if idx == 5 {
            "Password"
        } else if idx == 6 {
            "Vhost"
        } else if idx == 7 {
            "TLS"
        } else {
            ""
        }
    }

    /// The text of field `idx`.
    pub fn field_value(&self, idx: usize) -> (r: String)
        ensures
            r@ == profile_field(*self, idx),
    {
        if idx == 0 {
            self.profile_type.clone()
        } else if idx == 1 {
            self.name.clone()
        } else if idx == 2 {
            self.host.clone()
        } else if idx == 3 {
            self.port.clone()
        } else if idx == 4 {
            self.username.clone()
        } else if idx == 5 {
            self.password.clone()
        } else if idx == 6 {
            self.vhost.clone()
        } else if idx == 7 {
            if self.tls {
                owned("yes")
            } else {
                owned("no")
            }
        } else {
            String::new()
        }
    }

    /// Sets field `idx` to `val`; TLS turns on exactly for `yes`.
    pub fn set_field(&mut self, idx: usize, val: String)
        ensures
            idx < 7 ==> profile_text_edited(*old(self), *final(self), idx, val@) && final(self).tls
                == old(self).tls,
            idx == 7 ==> profile_text_edited(*old(self), *final(self), 7, Seq::empty())
                && final(self).tls == (val@ == "yes"@),
            idx > 7 ==> same_profile_form(*old(self), *final(self)),
    {
        if idx == 0 {
            self.profile_type = val;
        } else if idx == 1 {
            self.name = val;
        } else if idx == 2 {
            self.host = val;
        } else if idx == 3 {
            self.port = val;
        } else if idx == 4 {
            self.username = val;
        } else if idx == 5 {
            self.password = val;
        } else if idx == 6 {
            self.vhost = val;
        } else if idx == 7 {
            self.tls = same_text(val.as_str(), "yes");
        }
    }

    /// Whether `host` belongs to a hosted RabbitMQ service.
    pub fn is_cloud_host(host: &str) -> (r: bool)
        ensures
            r == is_cloud_spec(host@),
    {
        let h = to_lower(host);
        contains_text(h.as_str(), "cloudamqp.com") || contains_text(h.as_str(), "amazonaws.com")
            || contains_text(h.as_str(), "azure.com") || contains_text(h.as_str(), "rabbitmq.cloud")
    }

    /// Adjusts port and TLS of a RabbitMQ form to its host.
    pub fn auto_detect_cloud(&mut self)
        ensures
            final(self).profile_type@ == old(self).profile_type@,
            final(self).name@ == old(self).name@,
            final(self).host@ == old(self).host@,
            (final(self).port@, final(self).tls) == detected(
                old(self).profile_type@,
                old(self).host@,
                old(self).port@,
                old(self).tls,
            ),
            final(self).username@ == old(self).username@,
            final(self).password@ == old(self).password@,
            final(self).vhost@ == old(self).vhost@,
            final(self).focused_field == old(self).focused_field,
            final(self).error@ == old(self).error@,
    {
        if !same_text(self.profile_type.as_str(), "rabbitmq") {
            return ;
        }
        let default = Self::default_port("rabbitmq");
        proof {
            reveal_strlit("rabbitmq");
            reveal_strlit("kafka");
            reveal_strlit("mqtt");
            assert("rabbitmq"@.len() == 8);
            assert("kafka"@.len() == 5);
            assert("mqtt"@.len() == 4);
            assert(default_port_spec("rabbitmq"@) == "15672"@);
        }
        if Self::is_cloud_host(self.host.as_str()) {
            if same_text(self.port.as_str(), default) || self.port.as_str().is_empty() {
                self.port = owned("443");
            }
            self.tls = true;
        } else if same_text(self.port.as_str(), "443") {
            self.port = owned(default);
            self.tls = false;
        }
    }

    /// The default port of a backend type.
    pub fn default_port(backend_type: &str) -> (r: &'static str)
        ensures
            r@ == default_port_spec(backend_type@),
    {
        if same_text(backend_type, "kafka") {
            "9092"
        } else if same_text(backend_type, "mqtt") {
            "1883"
        } else {
            "15672"
        }
    }

    /// Switches the backend type; a port left at the old type's default (or
    /// empty) moves to the new type's default; then port and TLS are
    /// adjusted to the host.
    pub fn set_backend_type(&mut self, new_type: &str)
        ensures
            final(self).profile_type@ == new_type@,
            ({
                let p = if old(self).port@ == default_port_spec(old(self).profile_type@)
                    || old(self).port@.len() == 0 {
                    default_port_spec(new_type@)
                } else {
                    old(self).port@
                };
                (final(self).port@, final(self).tls) == detected(
                    new_type@,
                    old(self).host@,
                    p,
                    old(self).tls,
                )
            }),
            final(self).name@ == old(self).name@,
            final(self).host@ == old(self).host@,
            final(self).username@ == old(self).username@,
            final(self).password@ == old(self).password@,
            final(self).vhost@ == old(self).vhost@,
            final(self).focused_field == old(self).focused_field,
            final(self).error@ == old(self).error@,
    {
        let old_default = Self::default_port(self.profile_type.as_str());
        self.profile_type = owned(new_type);
        if same_text(self.port.as_str(), old_default) || self.port.as_str().is_empty() {
            self.port = owned(Self::default_port(self.profile_type.as_str()));
        }
        self.auto_detect_cloud();
    }

    /// Types `c` into the focused field: the type field takes no typing, the
    /// TLS field toggles, and typing into the host re-detects port and TLS.
    pub fn push_char(&mut self, c: char)
        ensures
            typed_into(*old(self), *final(self), c),
    {
        if self.focused_field == 0 {
            return ;
        }
        if self.focused_field == 7 {
            self.tls = !self.tls;
            return ;
        }
        if self.focused_field == 1 {
            push_char(&mut self.name, c);
        } else if self.focused_field == 2 {
            push_char(&mut self.host, c);
            self.auto_detect_cloud();
        } else if self.focused_field == 3 {
            push_char(&mut self.port, c);
        } else if self.focused_field == 4 {
            push_char(&mut self.username, c);
        } else if self.focused_field == 5 {
            push_char(&mut self.password, c);
        } else if self.focused_field == 6 {
            push_char(&mut self.vhost, c);
        }
    }

    /// Deletes the last character of the focused field (type and TLS take
    /// no deletion); deleting from the host re-detects port and TLS.
    pub fn pop_char(&mut self)
        ensures
            erased_from(*old(self), *final(self)),
    {
        if self.focused_field == 0 || self.focused_field == 7 {
            return ;
        }
        if self.focused_field == 1 {
            pop_char(&mut self.name);
        } else if self.focused_field == 2 {
            pop_char(&mut self.host);
            self.auto_detect_cloud();
        } else if self.focused_field == 3 {
            pop_char(&mut self.port);
        } else if self.focused_field == 4 {
            pop_char(&mut self.username);
        } else if self.focused_field == 5 {
            pop_char(&mut self.password);
        } else if self.focused_field == 6 {
            pop_char(&mut self.vhost);
        }
    }

    /// A form showing the stored profile `p` under `name`.
    pub fn from_profile(name: &str, p: &Profile) -> (r: ProfileForm)
        ensures
            r.profile_type@ == p.profile_type@,
            r.name@ == name@,
            r.host@ == p.host@,
            r.port@ == decimal(p.port as nat),
            r.username@ == p.username@,
            r.password@ == p.password@,
            r.vhost@ == (match p.vhost {
                Some(v) => v@,
                None => Seq::<char>::empty(),
            }),
            r.tls == (p.tls == Some(true)),
            r.focused_field == 0,
            r.error@ == Seq::<char>::empty(),
    {
        ProfileForm {
            profile_type: p.profile_type.clone(),
            name: owned(name),
            host: p.host.clone(),
            port: u64_text(p.port as u64),
            username: p.username.clone(),
            password: p.password.clone(),
            vhost: match &p.vhost {
                Some(v) => v.clone(),
                None => String::new(),
            },
            tls: match p.tls {
                Some(t) => t,
                None => false,
            },
            focused_field: 0,
            error: String::new(),
        }
    }

    /// The profile that the form describes, with defaults for empty fields
    /// (host `localhost`, user and password `guest`, type `rabbitmq`, no
    /// vhost). Fails without a name, or with a port that is not a number
    /// from 0 to 65535.
    pub fn to_profile(&self) -> (r: Result<Profile, String>)
        ensures
            self.name@.len() == 0 ==> (r matches Err(e) && e@ == "Name is required"@),
            self.name@.len() > 0 && parse_unsigned(self.port@, 65535) is None ==> (r matches Err(
                e,
            ) && e@ == "Invalid port number"@),
            self.name@.len() > 0 && parse_unsigned(self.port@, 65535) is Some ==> (r matches Ok(
                p,
            ) && profile_from_form(*self, p)),
    {
        if self.name.as_str().is_empty() {
            return Err(owned("Name is required"));
        }
        let port = match parse_u16(self.port.as_str()) {
            Some(v) => v,
            None => {
                return Err(owned("Invalid port number"));
            },
        };
        let host = if self.host.as_str().is_empty() {
            owned("localhost")
        } else {
            self.host.clone()
        };
        let username = if self.username.as_str().is_empty() {
            owned("guest")
        } else {
            self.username.clone()
        };
        let password = if self.password.as_str().is_empty() {
            owned("guest")
        } else {
            self.password.clone()
        };
        let vhost = if self.vhost.as_str().is_empty() {
            None
        } else {
            Some(self.vhost.clone())
        };
        let profile_type = if self.profile_type.as_str().is_empty() {
            owned("rabbitmq")
        } else {
            self.profile_type.clone()
        };
        Ok(
            Profile {
                profile_type,
                host,
                port,
                username,
                password,
                vhost,
                tls: Some(self.tls),
                tls_cert: None,
                tls_key: None,
                tls_ca: None,
                topics: None,
                schema_registry: None,
            },
        )
    }

    /// Resets the form to an empty RabbitMQ profile on the default port.
    pub fn clear(&mut self)
        ensures
            final(self).profile_type@ == "rabbitmq"@,
            final(self).port@ == "15672"@,
            final(self).name@ == Seq::<char>::empty(),
            final(self).host@ == Seq::<char>::empty(),
            final(self).username@ == Seq::<char>::empty(),
            final(self).password@ == Seq::<char>::empty(),
            final(self).vhost@ == Seq::<char>::empty(),
            !final(self).tls,
            final(self).focused_field == 0,
            final(self).error@ == Seq::<char>::empty(),
    {
        let default_type = "rabbitmq";
        proof {
            reveal_strlit("rabbitmq");
            reveal_strlit("kafka");
            reveal_strlit("mqtt");
            assert("rabbitmq"@.len() == 8);
            assert("kafka"@.len() == 5);
            assert("mqtt"@.len() == 4);
            assert(default_port_spec("rabbitmq"@) == "15672"@);
        }
        *self = ProfileForm {
            profile_type: owned(default_type),
            port: owned(Self::default_port(default_type)),
            name: String::new(),
            host: String::new(),
            username: String::new(),
            password: String::new(),
            vhost: String::new(),
            tls: false,
            focused_field: 0,
            error: String::new(),
        };
    }
}

/// `t` if it is not empty, else `d`.
pub open spec fn or_default(t: Seq<char>, d: Seq<char>) -> Seq<char> {
    if t.len() == 0 {
        d
    } else {
        t
    }
}

/// `p` is the profile that the form `f` describes.
pub open spec fn profile_from_form(f: ProfileForm, p: Profile) -> bool {
    &&& p.profile_type@ == or_default(f.profile_type@, "rabbitmq"@)
    &&& p.host@ == or_default(f.host@, "localhost"@)
    &&& parse_unsigned(f.port@, 65535) == Some(p.port as nat)
    &&& p.username@ == or_default(f.username@, "guest"@)
    &&& p.password@ == or_default(f.password@, "guest"@)
    &&& (if f.vhost@.len() == 0 {
        p.vhost is None
    } else {
        (p.vhost matches Some(v) && v@ == f.vhost@)
    })
    &&& p.tls == Some(f.tls)
    &&& p.tls_cert is None
    &&& p.tls_key is None
    &&& p.tls_ca is None
    &&& p.topics is None
    &&& p.schema_registry is None
}

/// Opening a stored profile in the form and saving it again gives back the
/// profile's type, host, port, credentials, vhost and TLS setting, when
/// those were already complete (no empty field that a default would fill).
pub proof fn lemma_profile_form_round_trip(name: Seq<char>, p: Profile, f: ProfileForm, q: Profile)
    requires
        name.len() > 0,
        f.profile_type@ == p.profile_type@,
        f.name@ == name,
        f.host@ == p.host@,
        f.port@ == decimal(p.port as nat),
        f.username@ == p.username@,
        f.password@ == p.password@,
        f.vhost@ == (match p.vhost {
            Some(v) => v@,
            None => Seq::<char>::empty(),
        }),
        f.tls == (p.tls == Some(true)),
        p.profile_type@.len() > 0,
        p.host@.len() > 0,
        p.username@.len() > 0,
        p.password@.len() > 0,
        p.vhost matches Some(v) ==> v@.len() > 0,
        profile_from_form(f, q),
    ensures
        parse_unsigned(f.port@, 65535) is Some,
        q.profile_type@ == p.profile_type@,
        q.host@ == p.host@,
        q.port == p.port,
        q.username@ == p.username@,
        q.password@ == p.password@,
        (q.vhost is None) == (p.vhost is None),
        q.vhost matches Some(v) ==> (p.vhost matches Some(w) && v@ == w@),
        q.tls == Some(p.tls == Some(true)),
{
    lemma_parse_decimal(p.port as nat, 65535);
}

} // verus!
