//! The RabbitMQ management API as the browser uses it: the paths it
//! requests (with names percent-encoded) and how it reads the answers.

use vstd::prelude::*;
use vstd::utf8::encode_utf8;
use crate::json::{
    as_signed, as_text, json_member, member, parse_json, json_document, JsonShape, JsonValue,
};
use crate::model::{BindingInfo, BrokerInfo, ExchangeInfo, MessageInfo, PermissionEntry};
use crate::text::{owned, push_str};

verus! {

/// A message as the older client reads it.
#[derive(Debug)]
pub struct Message {
    pub index: usize,
    pub routing_key: String,
    pub exchange: String,
    pub redelivered: bool,
    pub timestamp: Option<i64>,
    pub content_type: String,
    pub body: String,
}

/// The cluster overview.
#[derive(Debug)]
pub struct Overview {
    pub cluster_name: String,
    pub rabbitmq_version: String,
}

// ---------------------------------------------------------------------------
// Percent-encoding
// ---------------------------------------------------------------------------

/// Bytes that stay as they are in an encoded name: ASCII letters, digits
/// and `-`, `.`, `_`, `~`.
pub open spec fn unreserved(b: u8) -> bool {
    (48 <= b <= 57) || (65 <= b <= 90) || (97 <= b <= 122) || b == 45 || b == 46 || b == 95
        || b == 126
}

/// The upper-case hexadecimal digit of `d` (below 16).
pub open spec fn hex_digit(d: u8) -> char {
    if d < 10 {
        ((48 + d) as u8) as char
    } else {
        ((55 + d) as u8) as char
    }
}

/// `bytes` percent-encoded: each byte that is not unreserved becomes `%`
/// and its two upper-case hexadecimal digits.
pub open spec fn percent_encoded(bytes: Seq<u8>) -> Seq<char>
    decreases bytes.len(),
{
    if bytes.len() == 0 {
        Seq::empty()
    } else {
        let b = bytes.last();
        percent_encoded(bytes.drop_last()) + if unreserved(b) {
            seq![b as char]
        } else {
            seq!['%', hex_digit(b / 16), hex_digit(b % 16)]
        }
    }
}

/// `urlencoding::encode`: the UTF-8 bytes of `s` percent-encoded, every
/// byte but ASCII letters, digits and `-`, `.`, `_`, `~` written as `%XX`
/// with upper-case hexadecimal digits (as the crate's source does it).
#[verifier::external_body]
fn url_encode(s: &str) -> (r: String)
    ensures
        r@ == percent_encoded(encode_utf8(s@)),
{
    urlencoding::encode(s).into_owned()
}

/// `/api/queues/` and the encoded namespace.
pub open spec fn queues_path_spec(namespace: Seq<char>) -> Seq<char> {
    "/api/queues/"@ + percent_encoded(encode_utf8(namespace))
}

/// The path listing the queues of a namespace.
pub fn queues_path(namespace: &str) -> (r: String)
    ensures
        r@ == queues_path_spec(namespace@),
{
    let mut p = owned("/api/queues/");
    push_str(&mut p, url_encode(namespace).as_str());
    p
}

/// The path of one queue.
pub open spec fn queue_path_spec(namespace: Seq<char>, queue: Seq<char>) -> Seq<char> {
    queues_path_spec(namespace) + "/"@ + percent_encoded(encode_utf8(queue))
}

pub fn queue_path(namespace: &str, queue: &str) -> (r: String)
    ensures
        r@ == queue_path_spec(namespace@, queue@),
{
    let mut p = queues_path(namespace);
    push_str(&mut p, "/");
    push_str(&mut p, url_encode(queue).as_str());
    p
}

/// The path that reads messages from a queue.
pub fn queue_get_path(namespace: &str, queue: &str) -> (r: String)
    ensures
        r@ == queue_path_spec(namespace@, queue@) + "/get"@,
{
    let mut p = queue_path(namespace, queue);
    push_str(&mut p, "/get");
    p
}

/// The path that deletes a queue, used or not, empty or not.
pub fn delete_queue_path(namespace: &str, queue: &str) -> (r: String)
    ensures
        r@ == queue_path_spec(namespace@, queue@) + "?if-unused=false&if-empty=false"@,
{
    let mut p = queue_path(namespace, queue);
    push_str(&mut p, "?if-unused=false&if-empty=false");
    p
}

/// The path that empties a queue.
pub fn purge_path(namespace: &str, queue: &str) -> (r: String)
    ensures
        r@ == queue_path_spec(namespace@, queue@) + "/contents"@,
{
    let mut p = queue_path(namespace, queue);
    push_str(&mut p, "/contents");
    p
}

/// The path listing the bindings of a queue.
pub fn queue_bindings_path(namespace: &str, queue: &str) -> (r: String)
    ensures
        r@ == queue_path_spec(namespace@, queue@) + "/bindings"@,
{
    let mut p = queue_path(namespace, queue);
    push_str(&mut p, "/bindings");
    p
}

/// The path of an exchange.
pub open spec fn exchange_path_spec(namespace: Seq<char>, exchange: Seq<char>) -> Seq<char> {
    "/api/exchanges/"@ + percent_encoded(encode_utf8(namespace)) + "/"@ + percent_encoded(
        encode_utf8(exchange),
    )
}

pub fn exchange_path(namespace: &str, exchange: &str) -> (r: String)
    ensures
        r@ == exchange_path_spec(namespace@, exchange@),
{
    let mut p = owned("/api/exchanges/");
    push_str(&mut p, url_encode(namespace).as_str());
    push_str(&mut p, "/");
    push_str(&mut p, url_encode(exchange).as_str());
    p
}

/// The path that publishes through an exchange.
pub fn exchange_publish_path(namespace: &str, exchange: &str) -> (r: String)
    ensures
        r@ == exchange_path_spec(namespace@, exchange@) + "/publish"@,
{
    let mut p = exchange_path(namespace, exchange);
    push_str(&mut p, "/publish");
    p
}

/// The path that publishes through the default exchange, where the
/// routing key names the queue.
pub fn default_publish_path(namespace: &str) -> (r: String)
    ensures
        r@ == "/api/exchanges/"@ + percent_encoded(encode_utf8(namespace@))
            + "/amq.default/publish"@,
{
    let mut p = owned("/api/exchanges/");
    push_str(&mut p, url_encode(namespace).as_str());
    push_str(&mut p, "/amq.default/publish");
    p
}

/// The path of a binding from an exchange to a queue; with a properties
/// key, the path of that one binding.
pub fn binding_path(namespace: &str, exchange: &str, queue: &str, properties_key: Option<&str>) -> (r:
    String)
    ensures
        ({
            let base = "/api/bindings/"@ + percent_encoded(encode_utf8(namespace@)) + "/e/"@
                + percent_encoded(encode_utf8(exchange@)) + "/q/"@ + percent_encoded(
                encode_utf8(queue@),
            );
            match properties_key {
                Some(k) => r@ == base + "/"@ + percent_encoded(encode_utf8(k@)),
                None => r@ == base,
            }
        }),
{
    let mut p = owned("/api/bindings/");
    push_str(&mut p, url_encode(namespace).as_str());
    push_str(&mut p, "/e/");
    push_str(&mut p, url_encode(exchange).as_str());
    push_str(&mut p, "/q/");
    push_str(&mut p, url_encode(queue).as_str());
    match properties_key {
        Some(k) => {
            push_str(&mut p, "/");
            push_str(&mut p, url_encode(k).as_str());
        },
        None => {},
    }
    p
}

/// A listing path of a namespace: `/api/` and `what`, then the encoded
/// namespace (exchanges, bindings, permissions).
pub fn namespace_listing_path(what: &str, namespace: &str) -> (r: String)
    ensures
        r@ == "/api/"@ + what@ + "/"@ + percent_encoded(encode_utf8(namespace@)),
{
    let mut p = owned("/api/");
    push_str(&mut p, what);
    push_str(&mut p, "/");
    push_str(&mut p, url_encode(namespace).as_str());
    p
}

// ---------------------------------------------------------------------------
// Reading answers
// ---------------------------------------------------------------------------

/// The string member `key` of `v`, or `default` when there is none.
pub open spec fn text_or(v: JsonValue, key: Seq<char>, default: Seq<char>) -> Seq<char> {
    match member(v, key) {
        Some(m) => match as_text(m) {
            Some(t) => t,
            None => default,
        },
        None => default,
    }
}

pub(crate) fn member_text_or(v: &JsonValue, key: &str, default: &str) -> (r: String)
    ensures
        r@ == text_or(*v, key@, default@),
{
    match json_member(v, key) {
        Some(m) => match &m.shape {
            JsonShape::Text(t) => t.clone(),
            _ => owned(default),
        },
        None => owned(default),
    }
}

/// The broker as the overview shows it: `RabbitMQ` and the version, and
/// the cluster name.
pub fn broker_info(overview: &Overview) -> (r: BrokerInfo)
    ensures
        r._name@ == "RabbitMQ "@ + overview.rabbitmq_version@,
        r._cluster@ == overview.cluster_name@,
{
    let mut name = owned("RabbitMQ ");
    push_str(&mut name, overview.rabbitmq_version.as_str());
    BrokerInfo { _name: name, _cluster: overview.cluster_name.clone() }
}

/// The elements of a JSON array (none for anything else).
pub open spec fn elements(doc: JsonValue) -> Seq<JsonValue> {
    match doc.shape {
        JsonShape::List(items) => items@,
        _ => Seq::empty(),
    }
}

/// An exchange as the listing describes it.
pub open spec fn exchange_of(e: JsonValue) -> (Seq<char>, Seq<char>, bool) {
    (
        text_or(e, "name"@, ""@),
        text_or(e, "type"@, ""@),
        match member(e, "durable"@) {
            Some(m) => match m.shape {
                JsonShape::Flag(b) => b,
                _ => false,
            },
            None => false,
        },
    )
}

/// The exchanges of a listing, in order.
pub fn exchanges_from(doc: &JsonValue) -> (r: Vec<ExchangeInfo>)
    ensures
        r@.len() == elements(*doc).len(),
        forall|i: int|
            0 <= i < r@.len() ==> (#[trigger] r@[i].name@, r@[i].exchange_type@, r@[i].durable)
                == exchange_of(elements(*doc)[i]),
{
    let mut out: Vec<ExchangeInfo> = Vec::new();
    match &doc.shape {
        JsonShape::List(items) => {
            let mut i: usize = 0;
            while i < items.len()
                invariant
                    i <= items@.len(),
                    elements(*doc) == items@,
                    out@.len() == i,
                    forall|k: int|
                        0 <= k < i ==> (#[trigger] out@[k].name@, out@[k].exchange_type@, out@[k].durable)
                            == exchange_of(items@[k]),
                decreases items.len() - i,
            {
                let e = &items[i];
                let durable = match json_member(e, "durable") {
                    Some(m) => match &m.shape {
                        JsonShape::Flag(b) => *b,
                        _ => false,
                    },
                    None => false,
                };
                out.push(
                    ExchangeInfo {
                        name: member_text_or(e, "name", ""),
                        exchange_type: member_text_or(e, "type", ""),
                        durable,
                    },
                );
                i = i + 1;
            }
        },
        _ => {},
    }
    out
}

/// A binding as the listing describes it.
pub open spec fn binding_of(b: JsonValue) -> (Seq<char>, Seq<char>, Seq<char>, Seq<char>, Seq<char>) {
    (
        text_or(b, "source"@, ""@),
        text_or(b, "destination"@, ""@),
        text_or(b, "routing_key"@, ""@),
        text_or(b, "destination_type"@, "queue"@),
        text_or(b, "properties_key"@, ""@),
    )
}

/// The view of a binding.
pub open spec fn binding_view(b: BindingInfo) -> (Seq<char>, Seq<char>, Seq<char>, Seq<char>, Seq<char>) {
    (b.source@, b.destination@, b.routing_key@, b.destination_type@, b.properties_key@)
}

/// The bindings of a listing with a source, in order (bindings from the
/// default exchange have none).
pub open spec fn listed_bindings(items: Seq<JsonValue>) -> Seq<(Seq<char>, Seq<char>, Seq<char>, Seq<char>, Seq<char>)>
    decreases items.len(),
{
    if items.len() == 0 {
        Seq::empty()
    } else {
        let rest = listed_bindings(items.drop_last());
        let b = binding_of(items.last());
        if b.0.len() > 0 {
            rest.push(b)
        } else {
            rest
        }
    }
}

/// The bindings of a listing, without those of the default exchange.
pub fn bindings_from(doc: &JsonValue) -> (r: Vec<BindingInfo>)
    ensures
        r@.map_values(|b: BindingInfo| binding_view(b)) == listed_bindings(elements(*doc)),
{
    let mut out: Vec<BindingInfo> = Vec::new();
    match &doc.shape {
        JsonShape::List(items) => {
            let mut i: usize = 0;
            while i < items.len()
                invariant
                    i <= items@.len(),
                    elements(*doc) == items@,
                    out@.map_values(|b: BindingInfo| binding_view(b)) == listed_bindings(
                        items@.take(i as int),
                    ),
                decreases items.len() - i,
            {
                let b = &items[i];
                let source = member_text_or(b, "source", "");
                proof {
                    assert(items@.take(i + 1).drop_last() =~= items@.take(i as int));
                    assert(items@.take(i + 1).last() == items@[i as int]);
                }
                if !source.as_str().is_empty() {
                    let info = BindingInfo {
                        source,
                        destination: member_text_or(b, "destination", ""),
                        routing_key: member_text_or(b, "routing_key", ""),
                        destination_type: member_text_or(b, "destination_type", "queue"),
                        properties_key: member_text_or(b, "properties_key", ""),
                    };
                    let ghost before = out@;
                    out.push(info);
                    assert(out@.map_values(|b: BindingInfo| binding_view(b)) =~= before.map_values(
                        |b: BindingInfo| binding_view(b),
                    ).push(binding_view(info)));
                }
                i = i + 1;
            }
            assert(items@.take(items@.len() as int) =~= items@);
        },
        _ => {
            assert(elements(*doc) =~= Seq::<JsonValue>::empty());
        },
    }
    out
}

/// The permission entries one user's record gives: one for each of
/// `configure`, `write` and `read` that is not empty, in that order.
pub open spec fn permissions_of(p: JsonValue, namespace: Seq<char>) -> Seq<(Seq<char>, Seq<char>, Seq<char>)> {
    let user = text_or(p, "user"@, ""@);
    let c = text_or(p, "configure"@, ""@);
    let w = text_or(p, "write"@, ""@);
    let r = text_or(p, "read"@, ""@);
    (if c.len() > 0 {
        seq![(user, c, "configure"@)]
    } else {
        Seq::empty()
    }) + (if w.len() > 0 {
        seq![(user, w, "write"@)]
    } else {
        Seq::empty()
    }) + (if r.len() > 0 {
        seq![(user, r, "read"@)]
    } else {
        Seq::empty()
    })
}

/// The entries of a whole listing, record after record.
pub open spec fn listed_permissions(items: Seq<JsonValue>, namespace: Seq<char>) -> Seq<(Seq<char>, Seq<char>, Seq<char>)>
    decreases items.len(),
{
    if items.len() == 0 {
        Seq::empty()
    } else {
        listed_permissions(items.drop_last(), namespace) + permissions_of(items.last(), namespace)
    }
}

/// The view of a permission entry: who, on what pattern, which right.
pub open spec fn permission_view(e: PermissionEntry) -> (Seq<char>, Seq<char>, Seq<char>) {
    (e.user_or_principal@, e.resource_name@, e.permission@)
}

/// An entry granted on the vhost `namespace`, for the right it names.
pub open spec fn on_vhost(e: PermissionEntry, namespace: Seq<char>) -> bool {
    e.host@ == namespace && e._resource_type@ == "vhost"@ && e._operation@ == e.permission@
}

fn push_permission(
    out: &mut Vec<PermissionEntry>,
    user: &str,
    pattern: &str,
    right: &str,
    namespace: &str,
)
    requires
        forall|k: int| 0 <= k < old(out)@.len() ==> on_vhost(#[trigger] old(out)@[k], namespace@),
    ensures
        forall|k: int| 0 <= k < final(out)@.len() ==> on_vhost(#[trigger] final(out)@[k], namespace@),
        final(out)@.len() == old(out)@.len() + 1,
        final(out)@.drop_last() == old(out)@,
        permission_view(final(out)@.last()) == (user@, pattern@, right@),
        final(out)@.last()._resource_type@ == "vhost"@,
        final(out)@.last()._operation@ == right@,
        final(out)@.last().host@ == namespace@,
{
    let ghost before = out@;
    out.push(
        PermissionEntry {
            user_or_principal: owned(user),
            _resource_type: owned("vhost"),
            resource_name: owned(pattern),
            permission: owned(right),
            _operation: owned(right),
            host: owned(namespace),
        },
    );
    assert(out@.drop_last() =~= before);
    assert forall|k: int| 0 <= k < out@.len() implies on_vhost(#[trigger] out@[k], namespace@) by {
        if k < before.len() {
            assert(out@[k] == before[k]);
        }
    }
}

/// The permissions of a namespace's listing: per user record, one entry
/// per granted right, each on the vhost `namespace`.
pub fn permissions_from(doc: &JsonValue, namespace: &str) -> (r: Vec<PermissionEntry>)
    ensures
        r@.map_values(|e: PermissionEntry| permission_view(e)) == listed_permissions(
            elements(*doc),
            namespace@,
        ),
        forall|i: int|
            0 <= i < r@.len() ==> #[trigger] r@[i].host@ == namespace@ && r@[i]._resource_type@
                == "vhost"@ && r@[i]._operation@ == r@[i].permission@,
{
    let mut out: Vec<PermissionEntry> = Vec::new();
    let ghost view = |e: PermissionEntry| permission_view(e);
    match &doc.shape {
        JsonShape::List(items) => {
            let mut i: usize = 0;
            while i < items.len()
                invariant
                    i <= items@.len(),
                    elements(*doc) == items@,
                    view == (|e: PermissionEntry| permission_view(e)),
                    out@.map_values(view) == listed_permissions(items@.take(i as int), namespace@),
                    forall|k: int| 0 <= k < out@.len() ==> on_vhost(#[trigger] out@[k], namespace@),
                decreases items.len() - i,
            {
                let p = &items[i];
                let user = member_text_or(p, "user", "");
                let configure = member_text_or(p, "configure", "");
                let write = member_text_or(p, "write", "");
                let read = member_text_or(p, "read", "");
                let ghost before = out@;
                let ghost rights = permissions_of(items@[i as int], namespace@);
                proof {
                    assert(items@.take(i + 1).drop_last() =~= items@.take(i as int));
                    assert(items@.take(i + 1).last() == items@[i as int]);
                }
                let ghost b1 = out@;
                if !configure.as_str().is_empty() {
                    push_permission(&mut out, user.as_str(), configure.as_str(), "configure", namespace);
                }
                let ghost b2 = out@;
                if !write.as_str().is_empty() {
                    push_permission(&mut out, user.as_str(), write.as_str(), "write", namespace);
                }
                let ghost b3 = out@;
                if !read.as_str().is_empty() {
                    push_permission(&mut out, user.as_str(), read.as_str(), "read", namespace);
                }
                proof {
                    let c = if configure@.len() > 0 {
                        seq![(user@, configure@, "configure"@)]
                    } else {
                        Seq::empty()
                    };
                    let w = if write@.len() > 0 {
                        seq![(user@, write@, "write"@)]
                    } else {
                        Seq::empty()
                    };
                    let rd = if read@.len() > 0 {
                        seq![(user@, read@, "read"@)]
                    } else {
                        Seq::empty()
                    };
                    assert(b2.map_values(view) =~= b1.map_values(view) + c);
                    assert(b3.map_values(view) =~= b2.map_values(view) + w);
                    assert(out@.map_values(view) =~= b3.map_values(view) + rd);
                    assert(rights == c + w + rd);
                    assert(out@.map_values(view) =~= before.map_values(view) + rights);
                }
                i = i + 1;
            }
            assert(items@.take(items@.len() as int) =~= items@);
        },
        _ => {
            assert(elements(*doc) =~= Seq::<JsonValue>::empty());
        },
    }
    out
}

// ---------------------------------------------------------------------------
// Messages read from a queue
// ---------------------------------------------------------------------------

/// The headers a message's properties carry: each member of the `headers`
/// object with its value as JSON text.
pub open spec fn headers_of(props: Option<JsonValue>) -> Seq<(Seq<char>, Seq<char>)> {
    match props {
        Some(p) => match member(p, "headers"@) {
            Some(h) => match h.shape {
                JsonShape::Record(es) => es@.map_values(|e: (String, JsonValue)| (e.0@, e.1.compact@)),
                _ => Seq::empty(),
            },
            None => Seq::empty(),
        },
        None => Seq::empty(),
    }
}

/// The header pairs of a message, as character sequences.
pub open spec fn header_pairs(h: Seq<(String, String)>) -> Seq<(Seq<char>, Seq<char>)> {
    h.map_values(|p: (String, String)| (p.0@, p.1@))
}

/// Whether `m` is the `index`-th message that the queue read returned as
/// `e`: routing key, exchange, payload, redelivery flag, and the content
/// type, timestamp and headers of its properties.
pub open spec fn message_of(m: MessageInfo, e: JsonValue, index: int) -> bool {
    let props = member(e, "properties"@);
    &&& m.index == index
    &&& m.routing_key@ == text_or(e, "routing_key"@, ""@)
    &&& m.exchange@ == text_or(e, "exchange"@, ""@)
    &&& m.body@ == text_or(e, "payload"@, ""@)
    &&& m.redelivered == match member(e, "redelivered"@) {
        Some(x) => match x.shape {
            JsonShape::Flag(b) => b,
            _ => false,
        },
        None => false,
    }
    &&& m.content_type@ == match props {
        Some(p) => text_or(p, "content_type"@, ""@),
        None => Seq::empty(),
    }
    &&& m.timestamp == match props {
        Some(p) => match member(p, "timestamp"@) {
            Some(t) => as_signed(t),
            None => None,
        },
        None => None,
    }
    &&& header_pairs(m.headers@) == headers_of(props)
}

fn headers_from(props: Option<&JsonValue>) -> (r: Vec<(String, String)>)
    ensures
        header_pairs(r@) == headers_of(
            match props {
                Some(p) => Some(*p),
                None => None,
            },
        ),
{
    let mut out: Vec<(String, String)> = Vec::new();
    if let Some(p) = props {
        if let Some(h) = json_member(p, "headers") {
            if let JsonShape::Record(es) = &h.shape {
                let mut i: usize = 0;
                while i < es.len()
                    invariant
                        i <= es@.len(),
                        out@.len() == i,
                        forall|k: int|
                            0 <= k < i ==> #[trigger] out@[k].0@ == es@[k].0@ && out@[k].1@
                                == es@[k].1.compact@,
                    decreases es.len() - i,
                {
                    let key = es[i].0.clone();
                    let value = es[i].1.compact.clone();
                    let ghost prev = out@;
                    out.push((key, value));
                    assert(forall|k: int| 0 <= k < i ==> out@[k] == prev[k]);
                    assert(out@[i as int].0@ == es@[i as int].0@);
                    i = i + 1;
                }
                assert(header_pairs(out@) =~= es@.map_values(
                    |e: (String, JsonValue)| (e.0@, e.1.compact@),
                ));
                return out;
            }
        }
    }
    out
}

/// The messages a queue read returned, numbered from 1.
pub fn messages_from(doc: &JsonValue) -> (r: Vec<MessageInfo>)
    ensures
        r@.len() == elements(*doc).len(),
        forall|i: int| 0 <= i < r@.len() ==> message_of(#[trigger] r@[i], elements(*doc)[i], i + 1),
{
    let mut out: Vec<MessageInfo> = Vec::new();
    match &doc.shape {
        JsonShape::List(items) => {
            let n = items.len();
            let mut i: usize = 0;
            while i < items.len()
                invariant
                    i <= items@.len(),
                    n == items@.len(),
                    elements(*doc) == items@,
                    out@.len() == i,
                    forall|k: int| 0 <= k < i ==> message_of(#[trigger] out@[k], items@[k], k + 1),
                decreases items.len() - i,
            {
                let e = &items[i];
                let props = json_member(e, "properties");
                let redelivered = match json_member(e, "redelivered") {
                    Some(x) => match &x.shape {
                        JsonShape::Flag(b) => *b,
                        _ => false,
                    },
                    None => false,
                };
                let content_type = match props {
                    Some(p) => member_text_or(p, "content_type", ""),
                    None => String::new(),
                };
                let timestamp = match props {
                    Some(p) => match json_member(p, "timestamp") {
                        Some(t) => match &t.shape {
                            JsonShape::Number { signed, .. } => *signed,
                            _ => None,
                        },
                        None => None,
                    },
                    None => None,
                };
                let m = MessageInfo {
                    index: i + 1,
                    routing_key: member_text_or(e, "routing_key", ""),
                    exchange: member_text_or(e, "exchange", ""),
                    redelivered,
                    timestamp,
                    content_type,
                    headers: headers_from(props),
                    body: member_text_or(e, "payload", ""),
                };
                let ghost before = out@;
                out.push(m);
                assert forall|k: int| 0 <= k < i + 1 implies message_of(
                    #[trigger] out@[k],
                    items@[k],
                    k + 1,
                ) by {
                    if k < i {
                        assert(out@[k] == before[k]);
                    }
                }
                i = i + 1;
            }
        },
        _ => {},
    }
    out
}

/// Reads the answer of a queue read (JSON text) as messages; `None` when
/// it is not JSON.
pub fn parse_messages(text: &str) -> (r: Option<Vec<MessageInfo>>)
    ensures
        match json_document(text@) {
            Some(d) => r matches Some(ms) && ms@.len() == elements(d).len() && forall|i: int|
                0 <= i < ms@.len() ==> message_of(#[trigger] ms@[i], elements(d)[i], i + 1),
            None => r is None,
        },
{
    match parse_json(text) {
        Some(d) => Some(messages_from(&d)),
        None => None,
    }
}

/// Reads the answer of an exchange listing (JSON text); `None` when it is
/// not JSON.
pub fn parse_exchanges(text: &str) -> (r: Option<Vec<ExchangeInfo>>)
    ensures
        match json_document(text@) {
            Some(d) => r matches Some(es) && es@.len() == elements(d).len() && forall|i: int|
                0 <= i < es@.len() ==> (#[trigger] es@[i].name@, es@[i].exchange_type@, es@[i].durable)
                    == exchange_of(elements(d)[i]),
            None => r is None,
        },
{
    match parse_json(text) {
        Some(d) => Some(exchanges_from(&d)),
        None => None,
    }
}

/// Reads the answer of a binding listing (JSON text); `None` when it is
/// not JSON.
pub fn parse_bindings(text: &str) -> (r: Option<Vec<BindingInfo>>)
    ensures
        match json_document(text@) {
            Some(d) => r matches Some(bs) && bs@.map_values(|b: BindingInfo| binding_view(b))
                == listed_bindings(elements(d)),
            None => r is None,
        },
{
    match parse_json(text) {
        Some(d) => Some(bindings_from(&d)),
        None => None,
    }
}

/// Reads the answer of a permission listing (JSON text) for `namespace`;
/// `None` when it is not JSON.
pub fn parse_permissions(text: &str, namespace: &str) -> (r: Option<Vec<PermissionEntry>>)
    ensures
        match json_document(text@) {
            Some(d) => r matches Some(ps) && ps@.map_values(|e: PermissionEntry| permission_view(e))
                == listed_permissions(elements(d), namespace@),
            None => r is None,
        },
{
    match parse_json(text) {
        Some(d) => Some(permissions_from(&d, namespace)),
        None => None,
    }
}

} // verus!
