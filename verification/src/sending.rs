//! Sending messages one by one: copying or moving a queue's messages to
//! another queue, copying the selected messages, and sending dead-lettered
//! messages back to the exchange they came from. The caller reads and
//! publishes; what is sent, and what is reported, is decided here.

use vstd::prelude::*;
use crate::deletion::pairs_view;
use crate::model::{copy_headers, MessageInfo};
use crate::session::QueueOperation;
use crate::text::{decimal, owned, push_decimal, push_str, same_text};

verus! {

/// What the messages are sent for.
pub enum SendPurpose {
    /// Copy (peek) or move (consume) up to `count` messages of `source`
    /// to `dest`.
    Transfer { source: String, dest: String, op: QueueOperation, count: u32 },
    /// Copy the selected messages to `dest`.
    Selected { dest: String },
    /// Send the messages to `exchange` with `routing_key`, without their
    /// dead-letter headers.
    Reroute { exchange: String, routing_key: String },
}

/// Where a send stands.
#[derive(Debug, Clone, Copy, PartialEq, Eq, Structural)]
pub enum SendPhase {
    /// Waiting for the source queue's messages (a transfer only).
    Fetching,
    Sending,
    Finished,
}

/// A send under way.
pub struct SendJob {
    pub purpose: SendPurpose,
    pub messages: Vec<MessageInfo>,
    pub phase: SendPhase,
    /// The message being sent.
    pub next: usize,
}

/// What the caller reports.
pub enum SendEvent {
    /// The source queue's messages, or the broker's error.
    Fetched(Result<Vec<MessageInfo>, String>),
    /// The user cancelled (checked before each message).
    Cancelled,
    /// The message was published, or the broker's error.
    Sent(Result<(), String>),
}

/// What the caller does next.
pub enum SendAction {
    /// Read up to `count` messages of `queue`, consuming them when
    /// `consume`.
    Fetch { queue: String, count: u32, consume: bool },
    /// Report `completed` of `total`, then publish this message (to the
    /// exchange `to` when `exchange`, else to the queue `to`).
    Send {
        to: String,
        exchange: bool,
        body: String,
        routing_key: String,
        content_type: String,
        headers: Vec<(String, String)>,
        completed: usize,
        total: usize,
    },
    /// Report progress when given, then stop with this outcome.
    Finish { progress: Option<(usize, usize)>, outcome: Result<String, String> },
    /// The report does not fit the step the send is at.
    Ignore,
}

pub enum SendEffect {
    Fetch(Seq<char>, u32, bool),
    Send(Seq<char>, bool, Seq<char>, Seq<char>, Seq<char>, Seq<(Seq<char>, Seq<char>)>, usize, usize),
    Finish(Option<(usize, usize)>, Result<Seq<char>, Seq<char>>),
    Ignore,
}

impl View for SendAction {
    type V = SendEffect;

    open spec fn view(&self) -> SendEffect {
        match self {
            SendAction::Fetch { queue, count, consume } => SendEffect::Fetch(queue@, *count, *consume),
            SendAction::Send {
                to,
                exchange,
                body,
                routing_key,
                content_type,
                headers,
                completed,
                total,
            } => SendEffect::Send(
                to@,
                *exchange,
                body@,
                routing_key@,
                content_type@,
                pairs_view(headers@),
                *completed,
                *total,
            ),
            SendAction::Finish { progress, outcome } => SendEffect::Finish(
                *progress,
                match outcome {
                    Ok(t) => Ok(t@),
                    Err(e) => Err(e@),
                },
            ),
            SendAction::Ignore => SendEffect::Ignore,
        }
    }
}

// ---------------------------------------------------------------------------
// What is sent and said
// ---------------------------------------------------------------------------

/// The headers RabbitMQ adds when it dead-letters a message.
pub open spec fn dead_letter_header(k: Seq<char>) -> bool {
    k == "x-death"@ || k == "x-first-death-exchange"@ || k == "x-first-death-queue"@ || k
        == "x-first-death-reason"@
}

/// The headers of a message sent back, without the dead-letter ones.
pub open spec fn kept_headers(h: Seq<(String, String)>) -> Seq<(Seq<char>, Seq<char>)>
    decreases h.len(),
{
    if h.len() == 0 {
        seq![]
    } else {
        let rest = kept_headers(h.drop_last());
        if dead_letter_header(h.last().0@) {
            rest
        } else {
            rest.push((h.last().0@, h.last().1@))
        }
    }
}

/// Sending message `m` for `p`, after `completed` of `total`.
pub open spec fn send_effect(p: SendPurpose, m: MessageInfo, completed: usize, total: usize) -> SendEffect {
    match p {
        SendPurpose::Transfer { dest, .. } => SendEffect::Send(
            dest@,
            false,
            m.body@,
            m.routing_key@,
            m.content_type@,
            pairs_view(m.headers@),
            completed,
            total,
        ),
        SendPurpose::Selected { dest } => SendEffect::Send(
            dest@,
            false,
            m.body@,
            m.routing_key@,
            m.content_type@,
            pairs_view(m.headers@),
            completed,
            total,
        ),
        SendPurpose::Reroute { exchange, routing_key } => SendEffect::Send(
            exchange@,
            true,
            m.body@,
            routing_key@,
            m.content_type@,
            kept_headers(m.headers@),
            completed,
            total,
        ),
    }
}

pub open spec fn count_of(i: int, total: int) -> Seq<char> {
    decimal(i as nat) + "/"@ + decimal(total as nat)
}

/// The outcome when the user cancels before message `i` of `total`.
pub open spec fn cancelled_text(p: SendPurpose, i: int, total: int) -> Seq<char> {
    match p {
        SendPurpose::Reroute { .. } => "Re-route cancelled after "@ + count_of(i, total) + " messages"@,
        _ => "Cancelled after "@ + count_of(i, total) + " messages"@,
    }
}

/// The outcome when message `i` (from 0) of `total` could not be sent.
pub open spec fn failed_text(p: SendPurpose, i: int, total: int, e: Seq<char>) -> Seq<char> {
    match p {
        SendPurpose::Reroute { .. } => "Re-route failed at message "@ + count_of(i + 1, total) + ": "@ + e,
        _ => "Failed at message "@ + count_of(i + 1, total) + ": "@ + e,
    }
}

/// The outcome when all `total` messages were sent.
pub open spec fn done_text(p: SendPurpose, total: int) -> Seq<char> {
    match p {
        SendPurpose::Transfer { source, dest, op, .. } => (if op == QueueOperation::Copy {
            "Copied "@
        } else {
            "Moved "@
        }) + decimal(total as nat) + " messages from "@ + source@ + " to "@ + dest@,
        SendPurpose::Selected { dest } => "Copied "@ + decimal(total as nat) + " messages to "@ + dest@,
        SendPurpose::Reroute { exchange, routing_key } => "Re-routed "@ + decimal(total as nat)
            + " messages to exchange '"@ + exchange@ + "' with key '"@ + routing_key@ + "'"@,
    }
}

/// After message `i` of `msgs`: send the next one, or report the end.
pub open spec fn after_sent(p: SendPurpose, msgs: Seq<MessageInfo>, i: int) -> (SendPhase, usize, SendEffect) {
    if i + 1 < msgs.len() {
        (
            SendPhase::Sending,
            (i + 1) as usize,
            send_effect(p, msgs[i + 1], (i + 1) as usize, msgs.len() as usize),
        )
    } else {
        (
            SendPhase::Finished,
            (i + 1) as usize,
            SendEffect::Finish(
                Some((msgs.len() as usize, msgs.len() as usize)),
                Ok(done_text(p, msgs.len() as int)),
            ),
        )
    }
}

/// Starting to send `msgs` (none: report the end at once).
pub open spec fn first_send(p: SendPurpose, msgs: Seq<MessageInfo>) -> (SendPhase, usize, SendEffect) {
    if msgs.len() == 0 {
        (SendPhase::Finished, 0, SendEffect::Finish(Some((0, 0)), Ok(done_text(p, 0))))
    } else {
        (SendPhase::Sending, 0, send_effect(p, msgs[0], 0, msgs.len() as usize))
    }
}

pub enum SendEventModel {
    Fetched(Result<Seq<MessageInfo>, Seq<char>>),
    Cancelled,
    Sent(Result<(), Seq<char>>),
}

impl View for SendEvent {
    type V = SendEventModel;

    open spec fn view(&self) -> SendEventModel {
        match self {
            SendEvent::Fetched(r) => SendEventModel::Fetched(
                match r {
                    Ok(ms) => Ok(ms@),
                    Err(e) => Err(e@),
                },
            ),
            SendEvent::Cancelled => SendEventModel::Cancelled,
            SendEvent::Sent(r) => SendEventModel::Sent(
                match r {
                    Ok(()) => Ok(()),
                    Err(e) => Err(e@),
                },
            ),
        }
    }
}

/// What the send does with a report: phase, message being sent and
/// messages after it, and the action.
pub open spec fn send_step_spec(
    p: SendPurpose,
    phase: SendPhase,
    next: usize,
    msgs: Seq<MessageInfo>,
    e: SendEventModel,
) -> (SendPhase, usize, Seq<MessageInfo>, SendEffect) {
    match phase {
        SendPhase::Fetching => match e {
            SendEventModel::Fetched(Ok(ms)) => {
                let (ph, n, eff) = first_send(p, ms);
                (ph, n, ms, eff)
            },
            SendEventModel::Fetched(Err(x)) => (
                SendPhase::Finished,
                next,
                msgs,
                SendEffect::Finish(None, Err(x)),
            ),
            _ => (phase, next, msgs, SendEffect::Ignore),
        },
        SendPhase::Sending => match e {
            SendEventModel::Cancelled => (
                SendPhase::Finished,
                next,
                msgs,
                SendEffect::Finish(None, Ok(cancelled_text(p, next as int, msgs.len() as int))),
            ),
            SendEventModel::Sent(Err(x)) => (
                SendPhase::Finished,
                next,
                msgs,
                SendEffect::Finish(None, Err(failed_text(p, next as int, msgs.len() as int, x))),
            ),
            SendEventModel::Sent(Ok(())) => {
                let (ph, n, eff) = after_sent(p, msgs, next as int);
                (ph, n, msgs, eff)
            },
            _ => (phase, next, msgs, SendEffect::Ignore),
        },
        SendPhase::Finished => (phase, next, msgs, SendEffect::Ignore),
    }
}

/// `e` publishes message `m` as it is to the queue `dest`: its own body,
/// routing key, content type and headers, as number `k` of `total`.
pub open spec fn publishes_as_is(e: SendEffect, dest: Seq<char>, m: MessageInfo, k: int, total: int) -> bool {
    e matches SendEffect::Send(to, exchange, body, routing_key, content_type, headers, completed, t)
        && to == dest && !exchange && body == m.body@ && routing_key == m.routing_key@ && content_type
        == m.content_type@ && headers == pairs_view(m.headers@) && completed == k && t == total
}

/// A copy of the selected messages publishes each of them unchanged to
/// the destination queue, in order: the first is sent when the copy
/// starts, and when message `i` has been sent message `i + 1` follows,
/// each with its own body, routing key, content type and headers; only
/// the queue it goes to is new. A copy or move of a whole queue does the
/// same with the messages it fetched.
pub proof fn lemma_copy_publishes_messages_as_they_are(p: SendPurpose, dest: Seq<char>, msgs: Seq<MessageInfo>, i: int)
    requires
        (p matches SendPurpose::Selected { dest: d } && d@ == dest) || (p matches SendPurpose::Transfer {
            dest: d,
            ..
        } && d@ == dest),
        msgs.len() <= usize::MAX,
        0 <= i,
        i + 1 < msgs.len(),
    ensures
        publishes_as_is(first_send(p, msgs).2, dest, msgs[0], 0, msgs.len() as int),
        first_send(p, msgs).0 == SendPhase::Sending,
        publishes_as_is(
            send_step_spec(p, SendPhase::Sending, i as usize, msgs, SendEventModel::Sent(Ok(()))).3,
            dest,
            msgs[i + 1],
            i + 1,
            msgs.len() as int,
        ),
{
}

/// A re-route sends each message to the exchange with the given routing
/// key, keeping its body and content type and dropping only its
/// dead-letter headers.
pub proof fn lemma_reroute_keeps_bodies(p: SendPurpose, msgs: Seq<MessageInfo>, i: int)
    requires
        p is Reroute,
        msgs.len() <= usize::MAX,
        0 <= i,
        i + 1 < msgs.len(),
    ensures
        send_step_spec(p, SendPhase::Sending, i as usize, msgs, SendEventModel::Sent(Ok(()))).3 matches SendEffect::Send(
            to,
            exchange,
            body,
            routing_key,
            content_type,
            headers,
            completed,
            total,
        ) && to == p->Reroute_exchange@ && exchange && body == msgs[i + 1].body@ && routing_key
            == p->Reroute_routing_key@ && content_type == msgs[i + 1].content_type@ && (forall|j: int|
            0 <= j < headers.len() ==> !dead_letter_header(#[trigger] headers[j].0)) && completed == i + 1
            && total == msgs.len(),
{
    lemma_kept_headers_live(msgs[i + 1].headers@);
}

proof fn lemma_kept_headers_live(h: Seq<(String, String)>)
    ensures
        forall|j: int| 0 <= j < kept_headers(h).len() ==> !dead_letter_header(#[trigger] kept_headers(h)[j].0),
    decreases h.len(),
{
    if h.len() > 0 {
        lemma_kept_headers_live(h.drop_last());
        let rest = kept_headers(h.drop_last());
        assert forall|j: int| 0 <= j < kept_headers(h).len() implies !dead_letter_header(
            #[trigger] kept_headers(h)[j].0,
        ) by {
            if j < rest.len() {
                assert(kept_headers(h)[j] == rest[j]);
            }
        }
    }
}

fn kept_headers_of(h: &Vec<(String, String)>) -> (r: Vec<(String, String)>)
    ensures
        pairs_view(r@) == kept_headers(h@),
{
    let mut out: Vec<(String, String)> = Vec::new();
    let mut i: usize = 0;
    assert(h@.take(0) =~= Seq::<(String, String)>::empty());
    while i < h.len()
        invariant
            i <= h@.len(),
            pairs_view(out@) == kept_headers(h@.take(i as int)),
        decreases h.len() - i,
    {
        assert(h@.take(i + 1).drop_last() =~= h@.take(i as int));
        assert(h@.take(i + 1).last() == h@[i as int]);
        let k = h[i].0.as_str();
        let dead = same_text(k, "x-death") || same_text(k, "x-first-death-exchange") || same_text(
            k,
            "x-first-death-queue",
        ) || same_text(k, "x-first-death-reason");
        if !dead {
            let ghost before = out@;
            out.push((h[i].0.clone(), h[i].1.clone()));
            assert(pairs_view(out@) =~= pairs_view(before).push((h@[i as int].0@, h@[i as int].1@)));
        }
        i = i + 1;
    }
    assert(h@.take(h@.len() as int) =~= h@);
    out
}

fn send_action(p: &SendPurpose, m: &MessageInfo, completed: usize, total: usize) -> (r: SendAction)
    ensures
        r@ == send_effect(*p, *m, completed, total),
{
    match p {
        SendPurpose::Transfer { dest, .. } => SendAction::Send {
            to: dest.clone(),
            exchange: false,
            body: m.body.clone(),
            routing_key: m.routing_key.clone(),
            content_type: m.content_type.clone(),
            headers: copy_headers(&m.headers),
            completed,
            total,
        },
        SendPurpose::Selected { dest } => SendAction::Send {
            to: dest.clone(),
            exchange: false,
            body: m.body.clone(),
            routing_key: m.routing_key.clone(),
            content_type: m.content_type.clone(),
            headers: copy_headers(&m.headers),
            completed,
            total,
        },
        SendPurpose::Reroute { exchange, routing_key } => SendAction::Send {
            to: exchange.clone(),
            exchange: true,
            body: m.body.clone(),
            routing_key: routing_key.clone(),
            content_type: m.content_type.clone(),
            headers: kept_headers_of(&m.headers),
            completed,
            total,
        },
    }
}

fn count_text(t: &mut String, i: usize, total: usize)
    ensures
        final(t)@ == old(t)@ + count_of(i as int, total as int),
{
    push_decimal(t, i as u64);
    push_str(t, "/");
    push_decimal(t, total as u64);
}

fn done_message(p: &SendPurpose, total: usize) -> (r: String)
    ensures
        r@ == done_text(*p, total as int),
{
    match p {
        SendPurpose::Transfer { source, dest, op, .. } => {
            let mut t = if *op == QueueOperation::Copy {
                owned("Copied ")
            } else {
                owned("Moved ")
            };
            push_decimal(&mut t, total as u64);
            push_str(&mut t, " messages from ");
            push_str(&mut t, source.as_str());
            push_str(&mut t, " to ");
            push_str(&mut t, dest.as_str());
            t
        },
        SendPurpose::Selected { dest } => {
            let mut t = owned("Copied ");
            push_decimal(&mut t, total as u64);
            push_str(&mut t, " messages to ");
            push_str(&mut t, dest.as_str());
            t
        },
        SendPurpose::Reroute { exchange, routing_key } => {
            let mut t = owned("Re-routed ");
            push_decimal(&mut t, total as u64);
            push_str(&mut t, " messages to exchange '");
            push_str(&mut t, exchange.as_str());
            push_str(&mut t, "' with key '");
            push_str(&mut t, routing_key.as_str());
            push_str(&mut t, "'");
            t
        },
    }
}

impl SendJob {
    /// Starts a send: a transfer first fetches the source queue's messages;
    /// the others send `messages` (and do not start without any).
    pub fn start(purpose: SendPurpose, messages: Vec<MessageInfo>) -> (r: Option<(SendJob, SendAction)>)
        ensures
            purpose matches SendPurpose::Transfer { source, op, count, .. } ==> (r matches Some(x)
                && x.0.phase == SendPhase::Fetching && x.0.next == 0 && x.1@ == SendEffect::Fetch(
                source@,
                count,
                op == QueueOperation::Move,
            )),
            !(purpose is Transfer) ==> (r is None <==> messages@.len() == 0),
            !(purpose is Transfer) && r is Some ==> (r matches Some(x) && (x.0.phase, x.0.next, x.1@)
                == first_send(purpose, messages@) && x.0.messages@ == messages@),
            r matches Some(x) ==> x.0.purpose == purpose,
    {
        match &purpose {
            SendPurpose::Transfer { source, op, count, .. } => {
                let a = SendAction::Fetch {
                    queue: source.clone(),
                    count: *count,
                    consume: *op == QueueOperation::Move,
                };
                Some((SendJob { purpose, messages: Vec::new(), phase: SendPhase::Fetching, next: 0 }, a))
            },
            _ => {
                if messages.len() == 0 {
                    return None;
                }
                let a = send_action(&purpose, &messages[0], 0, messages.len());
                Some((SendJob { purpose, messages, phase: SendPhase::Sending, next: 0 }, a))
            },
        }
    }

    /// Takes a report and answers with the next thing to do.
    pub fn step(&mut self, e: SendEvent) -> (r: SendAction)
        requires
            old(self).phase == SendPhase::Sending ==> old(self).next < old(self).messages@.len(),
        ensures
            (final(self).phase, final(self).next, final(self).messages@, r@) == send_step_spec(
                old(self).purpose,
                old(self).phase,
                old(self).next,
                old(self).messages@,
                e@,
            ),
            final(self).purpose == old(self).purpose,
            final(self).phase == SendPhase::Sending ==> final(self).next < final(self).messages@.len(),
    {
        match self.phase {
            SendPhase::Fetching => match e {
                SendEvent::Fetched(Ok(ms)) => {
                    self.messages = ms;
                    self.next = 0;
                    if self.messages.len() == 0 {
                        self.phase = SendPhase::Finished;
                        SendAction::Finish { progress: Some((0, 0)), outcome: Ok(done_message(&self.purpose, 0)) }
                    } else {
                        self.phase = SendPhase::Sending;
                        send_action(&self.purpose, &self.messages[0], 0, self.messages.len())
                    }
                },
                SendEvent::Fetched(Err(x)) => {
                    self.phase = SendPhase::Finished;
                    SendAction::Finish { progress: None, outcome: Err(x) }
                },
                _ => SendAction::Ignore,
            },
            SendPhase::Sending => {
                let total = self.messages.len();
                match e {
                    SendEvent::Cancelled => {
                        self.phase = SendPhase::Finished;
                        let mut t = match &self.purpose {
                            SendPurpose::Reroute { .. } => owned("Re-route cancelled after "),
                            _ => owned("Cancelled after "),
                        };
                        count_text(&mut t, self.next, total);
                        push_str(&mut t, " messages");
                        SendAction::Finish { progress: None, outcome: Ok(t) }
                    },
                    SendEvent::Sent(Err(x)) => {
                        self.phase = SendPhase::Finished;
                        let mut t = match &self.purpose {
                            SendPurpose::Reroute { .. } => owned("Re-route failed at message "),
                            _ => owned("Failed at message "),
                        };
                        count_text(&mut t, self.next + 1, total);
                        push_str(&mut t, ": ");
                        push_str(&mut t, x.as_str());
                        SendAction::Finish { progress: None, outcome: Err(t) }
                    },
                    SendEvent::Sent(Ok(())) => {
                        self.next = self.next + 1;
                        if self.next < total {
                            send_action(&self.purpose, &self.messages[self.next], self.next, total)
                        } else {
                            self.phase = SendPhase::Finished;
                            SendAction::Finish {
                                progress: Some((total, total)),
                                outcome: Ok(done_message(&self.purpose, total)),
                            }
                        }
                    },
                    _ => SendAction::Ignore,
                }
            },
            SendPhase::Finished => SendAction::Ignore,
        }
    }
}

} // verus!
