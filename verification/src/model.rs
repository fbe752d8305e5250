//! The records that brokers hand back: messages, consumer groups, topology
//! and permissions.

use vstd::prelude::*;

verus! {

/// Info about the connected broker.
#[derive(Debug)]
pub struct BrokerInfo {
    pub _name: String,
    pub _cluster: String,
}

/// A single message with full detail.
#[derive(Debug)]
pub struct MessageInfo {
    pub index: usize,
    pub routing_key: String,
    pub exchange: String,
    pub redelivered: bool,
    pub timestamp: Option<i64>,
    pub content_type: String,
    pub headers: Vec<(String, String)>,
    pub body: String,
}

/// A copy of a list of header pairs.
pub fn copy_headers(h: &Vec<(String, String)>) -> (r: Vec<(String, String)>)
    ensures
        r@ == h@,
{
    let mut r: Vec<(String, String)> = Vec::new();
    let mut i: usize = 0;
    while i < h.len()
        invariant
            i <= h@.len(),
            r@ == h@.take(i as int),
        decreases h.len() - i,
    {
        let (k, v) = &h[i];
        r.push((k.clone(), v.clone()));
        i = i + 1;
        assert(r@ =~= h@.take(i as int));
    }
    assert(h@.take(h@.len() as int) =~= h@);
    r
}

impl MessageInfo {
    /// Field-by-field equality, headers compared by their contents.
    pub open spec fn same_as(self, other: MessageInfo) -> bool {
        &&& self.index == other.index
        &&& self.routing_key == other.routing_key
        &&& self.exchange == other.exchange
        &&& self.redelivered == other.redelivered
        &&& self.timestamp == other.timestamp
        &&& self.content_type == other.content_type
        &&& self.headers@ == other.headers@
        &&& self.body == other.body
    }

    /// An exact copy of this message.
    pub fn duplicate(&self) -> (r: MessageInfo)
        ensures
            r.same_as(*self),
    {
        MessageInfo {
            index: self.index,
            routing_key: self.routing_key.clone(),
            exchange: self.exchange.clone(),
            redelivered: self.redelivered,
            timestamp: self.timestamp,
            content_type: self.content_type.clone(),
            headers: copy_headers(&self.headers),
            body: self.body.clone(),
        }
    }
}

/// Consumer group info for a topic.
#[derive(Debug)]
pub struct ConsumerGroupInfo {
    pub name: String,
    pub state: String,
    pub members: u32,
    pub total_lag: i64,
    pub partitions: Vec<ConsumerGroupPartition>,
}

/// Per-partition consumer group offset and lag.
#[derive(Debug, Clone, Copy, PartialEq, Eq)]
pub struct ConsumerGroupPartition {
    pub partition: i32,
    pub current_offset: i64,
    pub high_watermark: i64,
    pub lag: i64,
}

/// Strategy for resetting consumer group offsets.
#[derive(Debug, Clone, Copy, PartialEq, Eq, Structural)]
pub enum OffsetResetStrategy {
    Earliest,
    Latest,
    /// Unix time in milliseconds.
    ToTimestamp(i64),
    /// One offset, applied to all partitions.
    ToOffset(i64),
}

/// Exchange info for the topology view.
#[derive(Debug)]
pub struct ExchangeInfo {
    pub name: String,
    pub exchange_type: String,
    pub durable: bool,
}

/// Binding info for the topology view.
#[derive(Debug)]
pub struct BindingInfo {
    pub source: String,
    pub destination: String,
    pub routing_key: String,
    pub destination_type: String,
    pub properties_key: String,
}

/// Permission or ACL entry for a user or principal.
#[derive(Debug)]
pub struct PermissionEntry {
    pub user_or_principal: String,
    pub _resource_type: String,
    pub resource_name: String,
    pub permission: String,
    pub _operation: String,
    pub host: String,
}

} // verus!
