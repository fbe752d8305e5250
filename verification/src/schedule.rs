//! Messages scheduled for later publication. Times are whole seconds on
//! one clock (the Unix time), so a schedule can be stored and read back.

use vstd::prelude::*;
use crate::text::owned;

verus! {

/// A message waiting to be published.
#[derive(Debug)]
pub struct ScheduledMessage {
    pub id: u64,
    pub namespace: String,
    pub queue: String,
    pub routing_key: String,
    pub content_type: String,
    pub body: String,
    /// When it was scheduled.
    pub scheduled_at: u64,
    /// When it is due.
    pub publish_at: u64,
    pub delay_secs: u64,
}

impl ScheduledMessage {
    /// An exact copy.
    pub fn duplicate(&self) -> (r: ScheduledMessage)
        ensures
            r == *self,
    {
        ScheduledMessage {
            id: self.id,
            namespace: self.namespace.clone(),
            queue: self.queue.clone(),
            routing_key: self.routing_key.clone(),
            content_type: self.content_type.clone(),
            body: self.body.clone(),
            scheduled_at: self.scheduled_at,
            publish_at: self.publish_at,
            delay_secs: self.delay_secs,
        }
    }
}

/// Whether `m` is due at `now`.
pub open spec fn is_due(m: ScheduledMessage, now: u64) -> bool {
    now >= m.publish_at
}

/// The later of two times: when a message stored or read back at `now` is
/// due (one whose time has passed is due at once).
pub open spec fn due_at(publish_at: u64, now: u64) -> u64 {
    if publish_at > now {
        publish_at
    } else {
        now
    }
}

/// The scheduled messages and the id the next one gets.
#[derive(Debug)]
pub struct Scheduler {
    pub messages: Vec<ScheduledMessage>,
    pub next_id: u64,
}

/// A scheduled message as stored: its due time on the clock.
#[derive(Debug)]
pub struct StoredMessage {
    pub id: u64,
    pub namespace: String,
    pub queue: String,
    pub routing_key: String,
    pub content_type: String,
    pub body: String,
    pub publish_epoch_secs: u64,
    pub delay_secs: u64,
}

impl Scheduler {
    /// Nothing scheduled; ids start at 0.
    pub fn new() -> (r: Scheduler)
        ensures
            r.messages@.len() == 0,
            r.next_id == 0,
    {
        Scheduler { messages: Vec::new(), next_id: 0 }
    }

    /// Schedules the publish form's message `delay_secs` from `now`, for
    /// the queue being browsed or, when none is, the routing key. Returns
    /// the new message's id.
    pub fn schedule(
        &mut self,
        namespace: &str,
        current_queue: &str,
        routing_key: &str,
        content_type: &str,
        body: &str,
        delay_secs: u64,
        now: u64,
    ) -> (r: u64)
        requires
            now + delay_secs <= u64::MAX,
            old(self).next_id < u64::MAX,
        ensures
            r == old(self).next_id,
            final(self).next_id == old(self).next_id + 1,
            final(self).messages@.len() == old(self).messages@.len() + 1,
            final(self).messages@.drop_last() == old(self).messages@,
            ({
                let m = final(self).messages@.last();
                &&& m.id == r
                &&& m.namespace@ == namespace@
                &&& m.queue@ == (if current_queue@.len() == 0 {
                    routing_key@
                } else {
                    current_queue@
                })
                &&& m.routing_key@ == routing_key@
                &&& m.content_type@ == content_type@
                &&& m.body@ == body@
                &&& m.scheduled_at == now
                &&& m.publish_at == now + delay_secs
                &&& m.delay_secs == delay_secs
            }),
    {
        let id = self.next_id;
        let queue = if current_queue.is_empty() {
            owned(routing_key)
        } else {
            owned(current_queue)
        };
        let m = ScheduledMessage {
            id,
            namespace: owned(namespace),
            queue,
            routing_key: owned(routing_key),
            content_type: owned(content_type),
            body: owned(body),
            scheduled_at: now,
            publish_at: now + delay_secs,
            delay_secs,
        };
        self.next_id = self.next_id + 1;
        let ghost before = self.messages@;
        self.messages.push(m);
        assert(self.messages@.drop_last() =~= before);
        id
    }

    /// Takes out the messages due at `now`, in order, and keeps the rest in
    /// order.
    pub fn take_due(&mut self, now: u64) -> (r: Vec<ScheduledMessage>)
        ensures
            r@ == old(self).messages@.filter(|m: ScheduledMessage| is_due(m, now)),
            final(self).messages@ == old(self).messages@.filter(|m: ScheduledMessage| !is_due(m, now)),
            final(self).next_id == old(self).next_id,
            r@.len() + final(self).messages@.len() == old(self).messages@.len(),
    {
        let ghost due = |m: ScheduledMessage| is_due(m, now);
        let ghost waiting = |m: ScheduledMessage| !is_due(m, now);
        let mut taken: Vec<ScheduledMessage> = Vec::new();
        let mut kept: Vec<ScheduledMessage> = Vec::new();
        let mut i: usize = 0;
        while i < self.messages.len()
            invariant
                i <= self.messages@.len(),
                due == (|m: ScheduledMessage| is_due(m, now)),
                waiting == (|m: ScheduledMessage| !is_due(m, now)),
                taken@ == self.messages@.take(i as int).filter(due),
                kept@ == self.messages@.take(i as int).filter(waiting),
                taken@.len() + kept@.len() == i,
            decreases self.messages.len() - i,
        {
            let m = self.messages[i].duplicate();
            proof {
                let s = self.messages@;
                assert(s.take(i + 1) =~= s.take(i as int).push(m));
                s.take(i as int).lemma_filter_push(m, due);
                s.take(i as int).lemma_filter_push(m, waiting);
            }
            if now >= m.publish_at {
                taken.push(m);
            } else {
                kept.push(m);
            }
            i = i + 1;
        }
        assert(self.messages@.take(self.messages@.len() as int) =~= self.messages@);
        self.messages = kept;
        taken
    }

    /// Drops the message with this id.
    pub fn cancel(&mut self, id: u64)
        ensures
            final(self).messages@ == old(self).messages@.filter(|m: ScheduledMessage| m.id != id),
            final(self).next_id == old(self).next_id,
    {
        let ghost keep = |m: ScheduledMessage| m.id != id;
        let mut kept: Vec<ScheduledMessage> = Vec::new();
        let mut i: usize = 0;
        while i < self.messages.len()
            invariant
                i <= self.messages@.len(),
                keep == (|m: ScheduledMessage| m.id != id),
                kept@ == self.messages@.take(i as int).filter(keep),
            decreases self.messages.len() - i,
        {
            let m = self.messages[i].duplicate();
            proof {
                let s = self.messages@;
                assert(s.take(i + 1) =~= s.take(i as int).push(m));
                s.take(i as int).lemma_filter_push(m, keep);
            }
            if m.id != id {
                kept.push(m);
            }
            i = i + 1;
        }
        assert(self.messages@.take(self.messages@.len() as int) =~= self.messages@);
        self.messages = kept;
    }

    /// Adds a stored message read back at `now`: one whose time has passed
    /// is due at once. Later ids stay above it.
    pub fn restore(&mut self, stored: StoredMessage, now: u64)
        requires
            stored.id < u64::MAX,
        ensures
            final(self).messages@.drop_last() == old(self).messages@,
            final(self).messages@.len() == old(self).messages@.len() + 1,
            ({
                let m = final(self).messages@.last();
                &&& m.id == stored.id
                &&& m.namespace == stored.namespace
                &&& m.queue == stored.queue
                &&& m.routing_key == stored.routing_key
                &&& m.content_type == stored.content_type
                &&& m.body == stored.body
                &&& m.scheduled_at == now
                &&& m.publish_at == due_at(stored.publish_epoch_secs, now)
                &&& m.delay_secs == stored.delay_secs
            }),
            final(self).next_id == (if stored.id >= old(self).next_id {
                (stored.id + 1) as u64
            } else {
                old(self).next_id
            }),
    {
        let publish_at = if stored.publish_epoch_secs > now {
            stored.publish_epoch_secs
        } else {
            now
        };
        if stored.id >= self.next_id {
            self.next_id = stored.id + 1;
        }
        let ghost before = self.messages@;
        self.messages.push(
            ScheduledMessage {
                id: stored.id,
                namespace: stored.namespace,
                queue: stored.queue,
                routing_key: stored.routing_key,
                content_type: stored.content_type,
                body: stored.body,
                scheduled_at: now,
                publish_at,
                delay_secs: stored.delay_secs,
            },
        );
        assert(self.messages@.drop_last() =~= before);
    }

    /// The schedule as stored at `now`: each message with its due time, or
    /// `now` for one already due.
    pub fn stored(&self, now: u64) -> (r: Vec<StoredMessage>)
        ensures
            r@.len() == self.messages@.len(),
            forall|i: int|
                0 <= i < r@.len() ==> {
                    let m = #[trigger] self.messages@[i];
                    &&& r@[i].id == m.id
                    &&& r@[i].namespace == m.namespace
                    &&& r@[i].queue == m.queue
                    &&& r@[i].routing_key == m.routing_key
                    &&& r@[i].content_type == m.content_type
                    &&& r@[i].body == m.body
                    &&& r@[i].publish_epoch_secs == due_at(m.publish_at, now)
                    &&& r@[i].delay_secs == m.delay_secs
                },
    {
        let mut out: Vec<StoredMessage> = Vec::new();
        let mut i: usize = 0;
        while i < self.messages.len()
            invariant
                i <= self.messages@.len(),
                out@.len() == i,
                forall|k: int|
                    0 <= k < i ==> {
                        let m = #[trigger] self.messages@[k];
                        &&& out@[k].id == m.id
                        &&& out@[k].namespace == m.namespace
                        &&& out@[k].queue == m.queue
                        &&& out@[k].routing_key == m.routing_key
                        &&& out@[k].content_type == m.content_type
                        &&& out@[k].body == m.body
                        &&& out@[k].publish_epoch_secs == due_at(m.publish_at, now)
                        &&& out@[k].delay_secs == m.delay_secs
                    },
            decreases self.messages.len() - i,
        {
            let m = &self.messages[i];
            let at = if m.publish_at > now {
                m.publish_at
            } else {
                now
            };
            out.push(
                StoredMessage {
                    id: m.id,
                    namespace: m.namespace.clone(),
                    queue: m.queue.clone(),
                    routing_key: m.routing_key.clone(),
                    content_type: m.content_type.clone(),
                    body: m.body.clone(),
                    publish_epoch_secs: at,
                    delay_secs: m.delay_secs,
                },
            );
            i = i + 1;
        }
        out
    }
}

/// Storing a schedule and reading it back at the same moment keeps each
/// message's due time when it is still pending, and keeps a due message due.
pub proof fn lemma_store_restore(publish_at: u64, now: u64)
    ensures
        publish_at > now ==> due_at(due_at(publish_at, now), now) == publish_at,
        is_due_time(due_at(due_at(publish_at, now), now), now) == is_due_time(publish_at, now),
{
}

/// Whether a message due at `publish_at` is due at `now`.
pub open spec fn is_due_time(publish_at: u64, now: u64) -> bool {
    now >= publish_at
}

} // verus!
