//! Dumping a queue to a file of JSON lines. RabbitMQ queues can only be
//! read by consuming, so they are consumed into the file in batches and
//! then every line is published back; Kafka topics are peeked (until a
//! batch arrives or two polls come back empty); other brokers get one peek.
//! The caller does the reading, writing and publishing; the decisions are
//! here.

use vstd::prelude::*;
use crate::deletion::{message_fields, pairs_view, read_message_fields};
use crate::json::{json_document, parse_json};
use crate::text::{decimal, owned, push_decimal, push_str};

verus! {

/// How a broker's queue is dumped.
#[derive(Debug, Clone, Copy, PartialEq, Eq, Structural)]
pub enum DumpKind {
    /// Consume in batches of 100, then publish everything back.
    Consume,
    /// Peek batches of 500 until one arrives or two come back empty.
    Peek,
    /// One peek of 100.
    Once,
}

/// The kind of dump for a broker type (`rabbitmq`, `kafka`, or another).
pub open spec fn dump_kind_spec(backend_type: Seq<char>) -> DumpKind {
    if backend_type == "rabbitmq"@ {
        DumpKind::Consume
    } else if backend_type == "kafka"@ {
        DumpKind::Peek
    } else {
        DumpKind::Once
    }
}

pub fn dump_kind(backend_type: &str) -> (r: DumpKind)
    ensures
        r == dump_kind_spec(backend_type@),
{
    if crate::text::same_text(backend_type, "rabbitmq") {
        DumpKind::Consume
    } else if crate::text::same_text(backend_type, "kafka") {
        DumpKind::Peek
    } else {
        DumpKind::Once
    }
}

/// `queuepeek-dump-QUEUE-TIMESTAMP.jsonl`.
pub open spec fn dump_file_name_spec(queue: Seq<char>, timestamp: Seq<char>) -> Seq<char> {
    "queuepeek-dump-"@ + queue + "-"@ + timestamp + ".jsonl"@
}

pub fn dump_file_name(queue: &str, timestamp: &str) -> (r: String)
    ensures
        r@ == dump_file_name_spec(queue@, timestamp@),
{
    let mut s = owned("queuepeek-dump-");
    push_str(&mut s, queue);
    push_str(&mut s, "-");
    push_str(&mut s, timestamp);
    push_str(&mut s, ".jsonl");
    s
}

/// Where a dump stands.
#[derive(Debug, Clone, Copy, PartialEq, Eq, Structural)]
pub enum DumpPhase {
    Starting,
    Reading,
    Finished,
}

/// A dump under way.
pub struct DumpJob {
    pub kind: DumpKind,
    /// The file being written, for the messages that name it.
    pub path: String,
    pub phase: DumpPhase,
    /// Messages written so far.
    pub total: usize,
    /// Empty peeks in a row.
    pub empty_polls: u8,
}

/// What the caller reports.
pub enum DumpEvent {
    /// The file was created (and, for a single peek, whether the user had
    /// cancelled already), or could not be.
    Created(Result<bool, String>),
    /// The user cancelled (checked before each batch).
    Cancelled,
    /// A batch was read and written: how many messages, or the broker's
    /// error.
    Read(Result<usize, String>),
    /// Writing a message to the file failed.
    WriteFailed(String),
}

/// What the caller does next.
pub enum DumpAction {
    /// Read up to `count` messages (consuming them when `consume`).
    Read { count: u32, consume: bool },
    /// Report progress, then read up to `count` messages.
    ReportAndRead { completed: usize, count: u32, consume: bool },
    /// Report progress when given, publish every line of the file back
    /// (for a consumed queue) when `republish`, then stop with the outcome.
    Finish { progress: Option<(usize, usize)>, republish: bool, outcome: Result<String, String> },
    /// The report does not fit the step the dump is at.
    Ignore,
}

pub enum DumpEventModel {
    Created(Result<bool, Seq<char>>),
    Cancelled,
    Read(Result<usize, Seq<char>>),
    WriteFailed(Seq<char>),
}

pub enum DumpEffect {
    Read(u32, bool),
    ReportAndRead(usize, u32, bool),
    Finish(Option<(usize, usize)>, bool, Result<Seq<char>, Seq<char>>),
    Ignore,
}

impl View for DumpEvent {
    type V = DumpEventModel;

    open spec fn view(&self) -> DumpEventModel {
        match self {
            DumpEvent::Created(r) => DumpEventModel::Created(
                match r {
                    Ok(b) => Ok(*b),
                    Err(e) => Err(e@),
                },
            ),
            DumpEvent::Cancelled => DumpEventModel::Cancelled,
            DumpEvent::Read(r) => DumpEventModel::Read(
                match r {
                    Ok(n) => Ok(*n),
                    Err(e) => Err(e@),
                },
            ),
            DumpEvent::WriteFailed(e) => DumpEventModel::WriteFailed(e@),
        }
    }
}

impl View for DumpAction {
    type V = DumpEffect;

    open spec fn view(&self) -> DumpEffect {
        match self {
            DumpAction::Read { count, consume } => DumpEffect::Read(*count, *consume),
            DumpAction::ReportAndRead { completed, count, consume } => DumpEffect::ReportAndRead(
                *completed,
                *count,
                *consume,
            ),
            DumpAction::Finish { progress, republish, outcome } => DumpEffect::Finish(
                *progress,
                *republish,
                match outcome {
                    Ok(t) => Ok(t@),
                    Err(e) => Err(e@),
                },
            ),
            DumpAction::Ignore => DumpEffect::Ignore,
        }
    }
}

/// The batch size of a kind of dump.
pub open spec fn batch_of(kind: DumpKind) -> u32 {
    match kind {
        DumpKind::Consume => 100,
        DumpKind::Peek => 500,
        DumpKind::Once => 100,
    }
}

/// `Dumped N messages to PATH`.
pub open spec fn dumped(total: int, path: Seq<char>) -> Seq<char> {
    "Dumped "@ + decimal(total as nat) + " messages to "@ + path
}

pub open spec fn finished(
    s: (DumpPhase, usize, u8),
    progress: Option<(usize, usize)>,
    republish: bool,
    outcome: Result<Seq<char>, Seq<char>>,
) -> ((DumpPhase, usize, u8), DumpEffect) {
    ((DumpPhase::Finished, s.1, s.2), DumpEffect::Finish(progress, republish, outcome))
}

/// What the dump does with a report; the state is the phase, the messages
/// written and the empty peeks in a row.
pub open spec fn dump_step_spec(
    kind: DumpKind,
    s: (DumpPhase, usize, u8),
    e: DumpEventModel,
    path: Seq<char>,
) -> ((DumpPhase, usize, u8), DumpEffect) {
    let consume = kind == DumpKind::Consume;
    let total = s.1;
    match s.0 {
        DumpPhase::Starting => match e {
            DumpEventModel::Created(Err(x)) => finished(s, None, false, Err("Creating file: "@ + x)),
            DumpEventModel::Created(Ok(cancelled)) => if kind == DumpKind::Once && cancelled {
                finished(s, None, false, Ok("Dump cancelled"@))
            } else {
                ((DumpPhase::Reading, total, s.2), DumpEffect::Read(batch_of(kind), consume))
            },
            _ => (s, DumpEffect::Ignore),
        },
        DumpPhase::Reading => match e {
            DumpEventModel::Cancelled => if kind == DumpKind::Once {
                (s, DumpEffect::Ignore)
            } else {
                finished(
                    s,
                    None,
                    false,
                    Ok(
                        "Dump cancelled after "@ + decimal(total as nat) + " messages — saved to "@
                            + path,
                    ),
                )
            },
            DumpEventModel::WriteFailed(x) => finished(
                s,
                None,
                false,
                Err("Writing: "@ + x + " — partial dump at "@ + path),
            ),
            DumpEventModel::Read(Err(x)) => match kind {
                DumpKind::Consume => if total > 0 {
                    finished(
                        s,
                        Some((total, 0)),
                        true,
                        Ok(dumped(total as int, path) + " (consume stopped: "@ + x + ")"@),
                    )
                } else {
                    finished(s, None, false, Err("Consume failed: "@ + x))
                },
                DumpKind::Peek => if total > 0 {
                    finished(s, None, false, Ok(dumped(total as int, path) + " (stopped: "@ + x + ")"@))
                } else {
                    finished(s, None, false, Err("Peek failed: "@ + x))
                },
                DumpKind::Once => finished(s, None, false, Err("Peek failed: "@ + x)),
            },
            DumpEventModel::Read(Ok(n)) => match kind {
                DumpKind::Consume => if n == 0 {
                    finished(s, None, true, Ok(dumped(total as int, path)))
                } else {
                    let t = (total + n) as usize;
                    if n < 100 {
                        finished((s.0, t, s.2), Some((t, 0)), true, Ok(dumped(t as int, path)))
                    } else {
                        ((DumpPhase::Reading, t, s.2), DumpEffect::ReportAndRead(t, 100, true))
                    }
                },
                DumpKind::Peek => if n == 0 {
                    if s.2 + 1 >= 2 {
                        finished((s.0, total, (s.2 + 1) as u8), None, false, Ok(dumped(total as int, path)))
                    } else {
                        ((DumpPhase::Reading, total, (s.2 + 1) as u8), DumpEffect::Read(500, false))
                    }
                } else {
                    let t = (total + n) as usize;
                    finished((s.0, t, 0), Some((t, 0)), false, Ok(dumped(t as int, path)))
                },
                DumpKind::Once => finished((s.0, n, s.2), Some((n, n)), false, Ok(dumped(n as int, path))),
            },
            DumpEventModel::Created(_) => (s, DumpEffect::Ignore),
        },
        DumpPhase::Finished => (s, DumpEffect::Ignore),
    }
}

/// What is published back from a line of the file: the message's fields,
/// or nothing for a line that is no JSON.
pub open spec fn republished_line(line: Seq<char>) -> Option<(Seq<char>, Seq<char>, Seq<char>, Seq<(Seq<char>, Seq<char>)>)> {
    match json_document(line) {
        Some(v) => Some(message_fields(v)),
        None => None,
    }
}

/// The message to publish back from a line of the file (`None` for a line
/// that is no JSON, which is skipped).
pub fn republish_line(line: &str) -> (r: Option<(String, String, String, Vec<(String, String)>)>)
    ensures
        match republished_line(line@) {
            Some(f) => r matches Some(x) && (x.0@, x.1@, x.2@, pairs_view(x.3@)) == f,
            None => r is None,
        },
{
    match parse_json(line) {
        Some(v) => Some(read_message_fields(&v)),
        None => None,
    }
}

impl View for DumpJob {
    type V = (DumpPhase, usize, u8);

    open spec fn view(&self) -> (DumpPhase, usize, u8) {
        (self.phase, self.total, self.empty_polls)
    }
}

fn dumped_text(total: usize, path: &str) -> (r: String)
    ensures
        r@ == dumped(total as int, path@),
{
    let mut t = owned("Dumped ");
    push_decimal(&mut t, total as u64);
    push_str(&mut t, " messages to ");
    push_str(&mut t, path);
    t
}

impl DumpJob {
    /// A dump of the given kind into the file at `path`.
    pub fn new(kind: DumpKind, path: String) -> (r: DumpJob)
        ensures
            r.kind == kind,
            r.path@ == path@,
            r@ == (DumpPhase::Starting, 0usize, 0u8),
    {
        DumpJob { kind, path, phase: DumpPhase::Starting, total: 0, empty_polls: 0 }
    }

    /// Takes a report and answers with the next thing to do. A batch
    /// cannot take the count past `usize::MAX`.
    pub fn step(&mut self, e: DumpEvent) -> (r: DumpAction)
        requires
            old(self).empty_polls < 2,
            e matches DumpEvent::Read(Ok(n)) ==> old(self).total + n <= usize::MAX,
        ensures
            (final(self)@, r@) == dump_step_spec(old(self).kind, old(self)@, e@, old(self).path@),
            final(self).kind == old(self).kind,
            final(self).path@ == old(self).path@,
            final(self).phase != DumpPhase::Finished ==> final(self).empty_polls < 2,
    {
        let consume = self.kind == DumpKind::Consume;
        let batch: u32 = match self.kind {
            DumpKind::Consume => 100,
            DumpKind::Peek => 500,
            DumpKind::Once => 100,
        };
        match self.phase {
            DumpPhase::Starting => match e {
                DumpEvent::Created(Err(x)) => {
                    self.phase = DumpPhase::Finished;
                    let mut t = owned("Creating file: ");
                    push_str(&mut t, x.as_str());
                    DumpAction::Finish { progress: None, republish: false, outcome: Err(t) }
                },
                DumpEvent::Created(Ok(cancelled)) => {
                    if self.kind == DumpKind::Once && cancelled {
                        self.phase = DumpPhase::Finished;
                        DumpAction::Finish {
                            progress: None,
                            republish: false,
                            outcome: Ok(owned("Dump cancelled")),
                        }
                    } else {
                        self.phase = DumpPhase::Reading;
                        DumpAction::Read { count: batch, consume }
                    }
                },
                _ => DumpAction::Ignore,
            },
            DumpPhase::Reading => match e {
                DumpEvent::Cancelled => {
                    if self.kind == DumpKind::Once {
                        DumpAction::Ignore
                    } else {
                        self.phase = DumpPhase::Finished;
                        let mut t = owned("Dump cancelled after ");
                        push_decimal(&mut t, self.total as u64);
                        push_str(&mut t, " messages — saved to ");
                        push_str(&mut t, self.path.as_str());
                        DumpAction::Finish { progress: None, republish: false, outcome: Ok(t) }
                    }
                },
                DumpEvent::WriteFailed(x) => {
                    self.phase = DumpPhase::Finished;
                    let mut t = owned("Writing: ");
                    push_str(&mut t, x.as_str());
                    push_str(&mut t, " — partial dump at ");
                    push_str(&mut t, self.path.as_str());
                    DumpAction::Finish { progress: None, republish: false, outcome: Err(t) }
                },
                DumpEvent::Read(Err(x)) => {
                    self.phase = DumpPhase::Finished;
                    match self.kind {
                        DumpKind::Consume => if self.total > 0 {
                            let mut t = dumped_text(self.total, self.path.as_str());
                            push_str(&mut t, " (consume stopped: ");
                            push_str(&mut t, x.as_str());
                            push_str(&mut t, ")");
                            DumpAction::Finish {
                                progress: Some((self.total, 0)),
                                republish: true,
                                outcome: Ok(t),
                            }
                        } else {
                            let mut t = owned("Consume failed: ");
                            push_str(&mut t, x.as_str());
                            DumpAction::Finish { progress: None, republish: false, outcome: Err(t) }
                        },
                        DumpKind::Peek => if self.total > 0 {
                            let mut t = dumped_text(self.total, self.path.as_str());
                            push_str(&mut t, " (stopped: ");
                            push_str(&mut t, x.as_str());
                            push_str(&mut t, ")");
                            DumpAction::Finish { progress: None, republish: false, outcome: Ok(t) }
                        } else {
                            let mut t = owned("Peek failed: ");
                            push_str(&mut t, x.as_str());
                            DumpAction::Finish { progress: None, republish: false, outcome: Err(t) }
                        },
                        DumpKind::Once => {
                            let mut t = owned("Peek failed: ");
                            push_str(&mut t, x.as_str());
                            DumpAction::Finish { progress: None, republish: false, outcome: Err(t) }
                        },
                    }
                },
                DumpEvent::Read(Ok(n)) => match self.kind {
                    DumpKind::Consume => if n == 0 {
                        self.phase = DumpPhase::Finished;
                        DumpAction::Finish {
                            progress: None,
                            republish: true,
                            outcome: Ok(dumped_text(self.total, self.path.as_str())),
                        }
                    } else {
                        self.total = self.total + n;
                        if n < 100 {
                            self.phase = DumpPhase::Finished;
                            DumpAction::Finish {
                                progress: Some((self.total, 0)),
                                republish: true,
                                outcome: Ok(dumped_text(self.total, self.path.as_str())),
                            }
                        } else {
                            DumpAction::ReportAndRead { completed: self.total, count: 100, consume: true }
                        }
                    },
                    DumpKind::Peek => if n == 0 {
                        self.empty_polls = self.empty_polls + 1;
                        if self.empty_polls >= 2 {
                            self.phase = DumpPhase::Finished;
                            DumpAction::Finish {
                                progress: None,
                                republish: false,
                                outcome: Ok(dumped_text(self.total, self.path.as_str())),
                            }
                        } else {
                            DumpAction::Read { count: 500, consume: false }
                        }
                    } else {
                        self.empty_polls = 0;
                        self.total = self.total + n;
                        self.phase = DumpPhase::Finished;
                        DumpAction::Finish {
                            progress: Some((self.total, 0)),
                            republish: false,
                            outcome: Ok(dumped_text(self.total, self.path.as_str())),
                        }
                    },
                    DumpKind::Once => {
                        self.total = n;
                        self.phase = DumpPhase::Finished;
                        DumpAction::Finish {
                            progress: Some((n, n)),
                            republish: false,
                            outcome: Ok(dumped_text(n, self.path.as_str())),
                        }
                    },
                },
                DumpEvent::Created(_) => DumpAction::Ignore,
            },
            DumpPhase::Finished => DumpAction::Ignore,
        }
    }
}

} // verus!
