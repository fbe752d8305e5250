//! Deleting chosen messages from a queue that can only be read from the
//! front: every message is consumed into a backup file, one JSON line per
//! message, then every line but the chosen ones is published again. The
//! caller talks to the broker and the file and reports what happened; the
//! job decides what comes next.

use vstd::prelude::*;
use crate::json::{as_text, json_document, json_member, member, parse_json, JsonShape, JsonValue};
use crate::rabbitmq::{member_text_or, text_or};
use crate::text::{decimal, owned, push_decimal, push_str};

verus! {

/// How many messages one consume request asks for.
pub const BATCH_SIZE: u32 = 100;

/// Where a deletion job stands.
#[derive(Debug, Clone, Copy, PartialEq, Eq, Structural)]
pub enum DeletePhase {
    /// Waiting for the backup file to be created.
    Starting,
    /// Consuming the queue into the backup.
    Consuming,
    /// Waiting for the backup to be opened for reading.
    Opening,
    /// Reading the backup line by line.
    Reading,
    /// Waiting for a message to be published again.
    Publishing,
    Finished,
}

/// A deletion under way.
pub struct DeleteJob {
    /// The positions (in consume order) of the messages to drop.
    pub targets: Vec<usize>,
    /// Where the backup is, for the messages that name it.
    pub backup: String,
    pub phase: DeletePhase,
    /// Messages consumed so far.
    pub consumed: usize,
    /// The backup line being handled.
    pub line: usize,
    pub republished: usize,
    pub deleted: usize,
}

/// What the caller reports.
pub enum DeleteEvent {
    /// The backup file was created, or could not be.
    BackupCreated(Result<(), String>),
    /// The user cancelled (checked before each batch and each line).
    Cancelled,
    /// A batch was consumed and written to the backup: how many messages,
    /// or the broker's error.
    Consumed(Result<usize, String>),
    /// Writing a consumed message to the backup failed.
    WriteFailed(String),
    /// The backup was opened for reading, or could not be.
    BackupOpened(Result<(), String>),
    /// The next line of the backup, or the error reading it.
    Line(Result<String, String>),
    /// The backup has no more lines.
    LinesEnded,
    /// The message was published again, or the broker's error.
    Published(Result<(), String>),
}

/// What the caller does next.
pub enum DeleteAction {
    /// Report `completed` messages consumed, then consume up to `count`.
    Consume { count: u32, completed: usize },
    /// Report `consumed` messages consumed when given, then open the
    /// backup for reading.
    OpenBackup { consumed: Option<usize> },
    /// Report progress when given, then read the next line.
    ReadLine { progress: Option<(usize, usize)> },
    /// Publish this message again.
    Publish { body: String, routing_key: String, content_type: String, headers: Vec<(String, String)> },
    /// Stop with this outcome; on success the backup is removed.
    Finish(Result<String, String>),
    /// The report does not fit the step the job is at.
    Ignore,
}

// ---------------------------------------------------------------------------
// The model
// ---------------------------------------------------------------------------

pub enum EventModel {
    BackupCreated(Result<(), Seq<char>>),
    Cancelled,
    Consumed(Result<usize, Seq<char>>),
    WriteFailed(Seq<char>),
    BackupOpened(Result<(), Seq<char>>),
    Line(Result<Seq<char>, Seq<char>>),
    LinesEnded,
    Published(Result<(), Seq<char>>),
}

pub enum ActionModel {
    Consume(u32, usize),
    OpenBackup(Option<usize>),
    ReadLine(Option<(usize, usize)>),
    Publish(Seq<char>, Seq<char>, Seq<char>, Seq<(Seq<char>, Seq<char>)>),
    Finish(Result<Seq<char>, Seq<char>>),
    Ignore,
}

/// Phase, consumed, line, republished, deleted.
pub struct JobModel {
    pub phase: DeletePhase,
    pub consumed: usize,
    pub line: usize,
    pub republished: usize,
    pub deleted: usize,
}

pub open spec fn unit_result(r: Result<(), String>) -> Result<(), Seq<char>> {
    match r {
        Ok(()) => Ok(()),
        Err(e) => Err(e@),
    }
}

impl View for DeleteEvent {
    type V = EventModel;

    open spec fn view(&self) -> EventModel {
        match self {
            DeleteEvent::BackupCreated(r) => EventModel::BackupCreated(unit_result(*r)),
            DeleteEvent::Cancelled => EventModel::Cancelled,
            DeleteEvent::Consumed(r) => EventModel::Consumed(
                match r {
                    Ok(n) => Ok(*n),
                    Err(e) => Err(e@),
                },
            ),
            DeleteEvent::WriteFailed(e) => EventModel::WriteFailed(e@),
            DeleteEvent::BackupOpened(r) => EventModel::BackupOpened(unit_result(*r)),
            DeleteEvent::Line(r) => EventModel::Line(
                match r {
                    Ok(t) => Ok(t@),
                    Err(e) => Err(e@),
                },
            ),
            DeleteEvent::LinesEnded => EventModel::LinesEnded,
            DeleteEvent::Published(r) => EventModel::Published(unit_result(*r)),
        }
    }
}

pub open spec fn pairs_view(h: Seq<(String, String)>) -> Seq<(Seq<char>, Seq<char>)> {
    h.map_values(|p: (String, String)| (p.0@, p.1@))
}

impl View for DeleteAction {
    type V = ActionModel;

    open spec fn view(&self) -> ActionModel {
        match self {
            DeleteAction::Consume { count, completed } => ActionModel::Consume(*count, *completed),
            DeleteAction::OpenBackup { consumed } => ActionModel::OpenBackup(*consumed),
            DeleteAction::ReadLine { progress } => ActionModel::ReadLine(*progress),
            DeleteAction::Publish { body, routing_key, content_type, headers } => ActionModel::Publish(
                body@,
                routing_key@,
                content_type@,
                pairs_view(headers@),
            ),
            DeleteAction::Finish(r) => ActionModel::Finish(
                match r {
                    Ok(t) => Ok(t@),
                    Err(e) => Err(e@),
                },
            ),
            DeleteAction::Ignore => ActionModel::Ignore,
        }
    }
}

impl View for DeleteJob {
    type V = JobModel;

    open spec fn view(&self) -> JobModel {
        JobModel {
            phase: self.phase,
            consumed: self.consumed,
            line: self.line,
            republished: self.republished,
            deleted: self.deleted,
        }
    }
}

/// The counts agree: no more lines were dropped or published again than
/// were handled (a line that is no JSON is skipped), and no more lines are
/// handled than messages were consumed.
pub open spec fn job_wf(m: JobModel) -> bool {
    &&& m.republished + m.deleted <= m.line
    &&& m.line <= m.consumed
    &&& (m.phase == DeletePhase::Publishing ==> m.line < m.consumed)
}

/// The headers of a backed-up message: each member of its `headers`
/// object, with a string's contents (empty for anything else).
pub open spec fn header_texts(h: Option<JsonValue>) -> Seq<(Seq<char>, Seq<char>)> {
    match h {
        Some(x) => match x.shape {
            JsonShape::Record(es) => es@.map_values(
                |e: (String, JsonValue)| (
                    e.0@,
                    match as_text(e.1) {
                        Some(t) => t,
                        None => Seq::<char>::empty(),
                    },
                ),
            ),
            _ => seq![],
        },
        None => seq![],
    }
}

/// What is published from a message written as JSON (by an export, a
/// dump or a backup): body, routing key, content type (each empty when
/// missing) and headers.
pub open spec fn message_fields(v: JsonValue) -> (Seq<char>, Seq<char>, Seq<char>, Seq<(Seq<char>, Seq<char>)>) {
    (
        text_or(v, "body"@, ""@),
        text_or(v, "routing_key"@, ""@),
        text_or(v, "content_type"@, ""@),
        header_texts(member(v, "headers"@)),
    )
}

/// Publishing a backed-up message again.
pub open spec fn republished_fields(v: JsonValue) -> ActionModel {
    let f = message_fields(v);
    ActionModel::Publish(f.0, f.1, f.2, f.3)
}

pub open spec fn finish_err(m: JobModel, e: Seq<char>) -> (JobModel, ActionModel) {
    (JobModel { phase: DeletePhase::Finished, ..m }, ActionModel::Finish(Err(e)))
}

/// What the job does with a report, given the positions to drop and the
/// backup's path.
pub open spec fn delete_step_spec(m: JobModel, e: EventModel, targets: Seq<usize>, backup: Seq<char>) -> (
    JobModel,
    ActionModel,
) {
    let ignore = (m, ActionModel::Ignore);
    match m.phase {
        DeletePhase::Starting => match e {
            EventModel::BackupCreated(Ok(())) => (
                JobModel { phase: DeletePhase::Consuming, ..m },
                ActionModel::Consume(BATCH_SIZE, m.consumed),
            ),
            EventModel::BackupCreated(Err(x)) => finish_err(m, "Creating backup: "@ + x),
            _ => ignore,
        },
        DeletePhase::Consuming => match e {
            EventModel::Cancelled => finish_err(m, "Cancelled"@ + " — backup at "@ + backup),
            EventModel::Consumed(Err(x)) => finish_err(
                m,
                "Consume failed after "@ + decimal(m.consumed as nat) + ": "@ + x + " — backup at "@
                    + backup,
            ),
            EventModel::WriteFailed(x) => finish_err(m, "Writing backup: "@ + x),
            EventModel::Consumed(Ok(n)) => if n == 0 {
                (JobModel { phase: DeletePhase::Opening, ..m }, ActionModel::OpenBackup(None))
            } else {
                let c = (m.consumed + n) as usize;
                if n < BATCH_SIZE {
                    (
                        JobModel { phase: DeletePhase::Opening, consumed: c, ..m },
                        ActionModel::OpenBackup(Some(c)),
                    )
                } else {
                    (JobModel { consumed: c, ..m }, ActionModel::Consume(BATCH_SIZE, c))
                }
            },
            _ => ignore,
        },
        DeletePhase::Opening => match e {
            EventModel::BackupOpened(Ok(())) => (
                JobModel { phase: DeletePhase::Reading, ..m },
                ActionModel::ReadLine(None),
            ),
            EventModel::BackupOpened(Err(x)) => finish_err(
                m,
                "Reading backup: "@ + x + " — file at "@ + backup,
            ),
            _ => ignore,
        },
        DeletePhase::Reading => match e {
            EventModel::Cancelled => finish_err(
                m,
                "Cancelled during re-publish"@ + " — backup at "@ + backup,
            ),
            EventModel::Line(Err(x)) => finish_err(
                m,
                "Reading line "@ + decimal(m.line as nat) + ": "@ + x + " — backup at "@ + backup,
            ),
            EventModel::Line(Ok(t)) => if targets.contains(m.line) {
                (
                    JobModel { line: (m.line + 1) as usize, deleted: (m.deleted + 1) as usize, ..m },
                    ActionModel::ReadLine(None),
                )
            } else {
                match json_document(t) {
                    Some(v) => (JobModel { phase: DeletePhase::Publishing, ..m }, republished_fields(v)),
                    None => (JobModel { line: (m.line + 1) as usize, ..m }, ActionModel::ReadLine(None)),
                }
            },
            EventModel::LinesEnded => (
                JobModel { phase: DeletePhase::Finished, ..m },
                ActionModel::Finish(
                    Ok(
                        "Deleted "@ + decimal(m.deleted as nat) + " messages, kept "@ + decimal(
                            m.republished as nat,
                        ),
                    ),
                ),
            ),
            _ => ignore,
        },
        DeletePhase::Publishing => match e {
            EventModel::Published(Err(x)) => finish_err(
                m,
                "Re-publish failed at msg "@ + decimal((m.line + 1) as nat) + ": "@ + x
                    + " — backup at "@ + backup,
            ),
            EventModel::Published(Ok(())) => (
                JobModel {
                    phase: DeletePhase::Reading,
                    line: (m.line + 1) as usize,
                    republished: (m.republished + 1) as usize,
                    ..m
                },
                ActionModel::ReadLine(
                    Some(((m.republished + 1) as usize, (m.consumed - m.deleted) as usize)),
                ),
            ),
            _ => ignore,
        },
        DeletePhase::Finished => ignore,
    }
}

/// A whole re-publish pass over the backup's `lines`, every publish
/// succeeding: the job at the end, and what was published, in order.
pub open spec fn republish_pass(m: JobModel, lines: Seq<Seq<char>>, targets: Seq<usize>, backup: Seq<char>) -> (
    JobModel,
    Seq<ActionModel>,
)
    decreases lines.len(),
{
    if lines.len() == 0 {
        (m, seq![])
    } else {
        let (m1, a) = delete_step_spec(m, EventModel::Line(Ok(lines[0])), targets, backup);
        let (m2, out) = if a is Publish {
            (delete_step_spec(m1, EventModel::Published(Ok(())), targets, backup).0, seq![a])
        } else {
            (m1, seq![])
        };
        let (m3, rest) = republish_pass(m2, lines.drop_first(), targets, backup);
        (m3, out + rest)
    }
}

/// The messages to keep among `lines`, the first of which is at position
/// `from`: those not chosen that are JSON, in order.
pub open spec fn kept_messages(lines: Seq<Seq<char>>, targets: Seq<usize>, from: int) -> Seq<ActionModel>
    decreases lines.len(),
{
    if lines.len() == 0 {
        seq![]
    } else {
        let first = if !targets.contains(from as usize) && json_document(lines[0]) is Some {
            seq![republished_fields(json_document(lines[0])->0)]
        } else {
            seq![]
        };
        first + kept_messages(lines.drop_first(), targets, from + 1)
    }
}

/// How many of the positions `from .. from + n` are chosen.
pub open spec fn chosen_count(n: nat, targets: Seq<usize>, from: int) -> nat
    decreases n,
{
    if n == 0 {
        0
    } else {
        (if targets.contains(from as usize) { 1nat } else { 0nat }) + chosen_count(
            (n - 1) as nat,
            targets,
            from + 1,
        )
    }
}

/// Deleting keeps exactly the messages not chosen: a re-publish pass over
/// the backup publishes again every line that is not at a chosen position
/// (and is a message), in the backup's order, and counts each chosen line
/// as deleted; the job then waits for the end of the backup.
pub proof fn lemma_republish_pass(m: JobModel, lines: Seq<Seq<char>>, targets: Seq<usize>, backup: Seq<char>)
    requires
        m.phase == DeletePhase::Reading,
        job_wf(m),
        m.line + lines.len() <= m.consumed,
    ensures
        republish_pass(m, lines, targets, backup).1 == kept_messages(lines, targets, m.line as int),
        republish_pass(m, lines, targets, backup).0.phase == DeletePhase::Reading,
        republish_pass(m, lines, targets, backup).0.line == m.line + lines.len(),
        republish_pass(m, lines, targets, backup).0.deleted == m.deleted + chosen_count(
            lines.len(),
            targets,
            m.line as int,
        ),
        republish_pass(m, lines, targets, backup).0.consumed == m.consumed,
    decreases lines.len(),
{
    if lines.len() > 0 {
        let (m1, a) = delete_step_spec(m, EventModel::Line(Ok(lines[0])), targets, backup);
        let (m2, out) = if a is Publish {
            (delete_step_spec(m1, EventModel::Published(Ok(())), targets, backup).0, seq![a])
        } else {
            (m1, seq![])
        };
        assert(m2.phase == DeletePhase::Reading);
        assert(m2.line == m.line + 1);
        assert(m2.deleted == m.deleted + if targets.contains(m.line) {
            1int
        } else {
            0int
        });
        assert((m.line as int) as usize == m.line);
        assert(job_wf(m2));
        assert(chosen_count(lines.len(), targets, m.line as int) == (if targets.contains(m.line) {
            1nat
        } else {
            0nat
        }) + chosen_count(lines.drop_first().len(), targets, m.line + 1));
        lemma_republish_pass(m2, lines.drop_first(), targets, backup);
    }
}

// ---------------------------------------------------------------------------
// Running the job
// ---------------------------------------------------------------------------

fn header_texts_of(v: &JsonValue) -> (r: Vec<(String, String)>)
    ensures
        pairs_view(r@) == header_texts(member(*v, "headers"@)),
{
    let mut out: Vec<(String, String)> = Vec::new();
    if let Some(h) = json_member(v, "headers") {
        if let JsonShape::Record(es) = &h.shape {
            let mut i: usize = 0;
            while i < es.len()
                invariant
                    i <= es@.len(),
                    pairs_view(out@) == es@.take(i as int).map_values(
                        |e: (String, JsonValue)| (
                            e.0@,
                            match as_text(e.1) {
                                Some(t) => t,
                                None => Seq::<char>::empty(),
                            },
                        ),
                    ),
                decreases es.len() - i,
            {
                let value = match &es[i].1.shape {
                    JsonShape::Text(t) => t.clone(),
                    _ => String::new(),
                };
                let ghost before = out@;
                out.push((es[i].0.clone(), value));
                assert(pairs_view(out@) =~= pairs_view(before).push((es@[i as int].0@, value@)));
                assert(es@.take(i + 1) =~= es@.take(i as int).push(es@[i as int]));
                i = i + 1;
            }
            assert(es@.take(es@.len() as int) =~= es@);
            return out;
        }
    }
    assert(pairs_view(out@) =~= Seq::<(Seq<char>, Seq<char>)>::empty());
    out
}

/// The body, routing key, content type and headers of a message written
/// as JSON.
pub fn read_message_fields(v: &JsonValue) -> (r: (String, String, String, Vec<(String, String)>))
    ensures
        (r.0@, r.1@, r.2@, pairs_view(r.3@)) == message_fields(*v),
{
    proof {
        reveal_strlit("");
    }
    (
        member_text_or(v, "body", ""),
        member_text_or(v, "routing_key", ""),
        member_text_or(v, "content_type", ""),
        header_texts_of(v),
    )
}

fn republish_from(v: &JsonValue) -> (r: DeleteAction)
    ensures
        r@ == republished_fields(*v),
{
    let (body, routing_key, content_type, headers) = read_message_fields(v);
    DeleteAction::Publish { body, routing_key, content_type, headers }
}

fn contains_position(v: &Vec<usize>, x: usize) -> (r: bool)
    ensures
        r == v@.contains(x),
{
    let mut i: usize = 0;
    while i < v.len()
        invariant
            i <= v@.len(),
            forall|j: int| 0 <= j < i ==> v@[j] != x,
        decreases v.len() - i,
    {
        if v[i] == x {
            return true;
        }
        i = i + 1;
    }
    false
}

fn failed(text: String) -> (r: DeleteAction)
    ensures
        r@ == ActionModel::Finish(Err(text@)),
{
    DeleteAction::Finish(Err(text))
}

impl DeleteJob {
    /// A job that drops the messages at `targets` (positions in consume
    /// order), keeping its backup at `backup`.
    pub fn new(targets: Vec<usize>, backup: String) -> (r: DeleteJob)
        ensures
            r.targets@ == targets@,
            r.backup@ == backup@,
            r@ == (JobModel {
                phase: DeletePhase::Starting,
                consumed: 0,
                line: 0,
                republished: 0,
                deleted: 0,
            }),
            job_wf(r@),
    {
        DeleteJob {
            targets,
            backup,
            phase: DeletePhase::Starting,
            consumed: 0,
            line: 0,
            republished: 0,
            deleted: 0,
        }
    }

    fn starting_step(&mut self, e: DeleteEvent) -> (r: DeleteAction)
        requires
            old(self).phase == DeletePhase::Starting,
            job_wf(old(self)@),
        ensures
            (final(self)@, r@) == delete_step_spec(old(self)@, e@, old(self).targets@, old(self).backup@),
            final(self).targets@ == old(self).targets@,
            final(self).backup@ == old(self).backup@,
            job_wf(final(self)@),
    {
        match e {
        DeleteEvent::BackupCreated(Ok(())) => {
            self.phase = DeletePhase::Consuming;
            DeleteAction::Consume { count: BATCH_SIZE, completed: self.consumed }
        },
        DeleteEvent::BackupCreated(Err(x)) => {
            self.phase = DeletePhase::Finished;
            let mut t = owned("Creating backup: ");
            push_str(&mut t, x.as_str());
            failed(t)
        },
        _ => DeleteAction::Ignore,
    }
    }

    fn consuming_step(&mut self, e: DeleteEvent) -> (r: DeleteAction)
        requires
            old(self).phase == DeletePhase::Consuming,
            job_wf(old(self)@),
            e matches DeleteEvent::Consumed(Ok(n)) ==> old(self).consumed + n <= usize::MAX,
        ensures
            (final(self)@, r@) == delete_step_spec(old(self)@, e@, old(self).targets@, old(self).backup@),
            final(self).targets@ == old(self).targets@,
            final(self).backup@ == old(self).backup@,
            job_wf(final(self)@),
    {
        match e {
        DeleteEvent::Cancelled => {
            self.phase = DeletePhase::Finished;
            let mut t = owned("Cancelled");
            push_str(&mut t, " — backup at ");
            push_str(&mut t, self.backup.as_str());
            failed(t)
        },
        DeleteEvent::Consumed(Err(x)) => {
            self.phase = DeletePhase::Finished;
            let mut t = owned("Consume failed after ");
            push_decimal(&mut t, self.consumed as u64);
            push_str(&mut t, ": ");
            push_str(&mut t, x.as_str());
            push_str(&mut t, " — backup at ");
            push_str(&mut t, self.backup.as_str());
            failed(t)
        },
        DeleteEvent::WriteFailed(x) => {
            self.phase = DeletePhase::Finished;
            let mut t = owned("Writing backup: ");
            push_str(&mut t, x.as_str());
            failed(t)
        },
        DeleteEvent::Consumed(Ok(n)) => {
            if n == 0 {
                self.phase = DeletePhase::Opening;
                DeleteAction::OpenBackup { consumed: None }
            } else {
                self.consumed = self.consumed + n;
                if n < BATCH_SIZE as usize {
                    self.phase = DeletePhase::Opening;
                    DeleteAction::OpenBackup { consumed: Some(self.consumed) }
                } else {
                    DeleteAction::Consume { count: BATCH_SIZE, completed: self.consumed }
                }
            }
        },
        _ => DeleteAction::Ignore,
    }
    }

    fn opening_step(&mut self, e: DeleteEvent) -> (r: DeleteAction)
        requires
            old(self).phase == DeletePhase::Opening,
            job_wf(old(self)@),
        ensures
            (final(self)@, r@) == delete_step_spec(old(self)@, e@, old(self).targets@, old(self).backup@),
            final(self).targets@ == old(self).targets@,
            final(self).backup@ == old(self).backup@,
            job_wf(final(self)@),
    {
        match e {
        DeleteEvent::BackupOpened(Ok(())) => {
            self.phase = DeletePhase::Reading;
            DeleteAction::ReadLine { progress: None }
        },
        DeleteEvent::BackupOpened(Err(x)) => {
            self.phase = DeletePhase::Finished;
            let mut t = owned("Reading backup: ");
            push_str(&mut t, x.as_str());
            push_str(&mut t, " — file at ");
            push_str(&mut t, self.backup.as_str());
            failed(t)
        },
        _ => DeleteAction::Ignore,
    }
    }

    fn reading_step(&mut self, e: DeleteEvent) -> (r: DeleteAction)
        requires
            old(self).phase == DeletePhase::Reading,
            job_wf(old(self)@),
            e is Line ==> old(self).line < old(self).consumed,
        ensures
            (final(self)@, r@) == delete_step_spec(old(self)@, e@, old(self).targets@, old(self).backup@),
            final(self).targets@ == old(self).targets@,
            final(self).backup@ == old(self).backup@,
            job_wf(final(self)@),
    {
        match e {
        DeleteEvent::Cancelled => {
            self.phase = DeletePhase::Finished;
            let mut t = owned("Cancelled during re-publish");
            push_str(&mut t, " — backup at ");
            push_str(&mut t, self.backup.as_str());
            failed(t)
        },
        DeleteEvent::Line(Err(x)) => {
            self.phase = DeletePhase::Finished;
            let mut t = owned("Reading line ");
            push_decimal(&mut t, self.line as u64);
            push_str(&mut t, ": ");
            push_str(&mut t, x.as_str());
            push_str(&mut t, " — backup at ");
            push_str(&mut t, self.backup.as_str());
            failed(t)
        },
        DeleteEvent::Line(Ok(text)) => {
            if contains_position(&self.targets, self.line) {
                self.line = self.line + 1;
                self.deleted = self.deleted + 1;
                DeleteAction::ReadLine { progress: None }
            } else {
                match parse_json(text.as_str()) {
                    Some(v) => {
                        self.phase = DeletePhase::Publishing;
                        republish_from(&v)
                    },
                    None => {
                        self.line = self.line + 1;
                        DeleteAction::ReadLine { progress: None }
                    },
                }
            }
        },
        DeleteEvent::LinesEnded => {
            self.phase = DeletePhase::Finished;
            let mut t = owned("Deleted ");
            push_decimal(&mut t, self.deleted as u64);
            push_str(&mut t, " messages, kept ");
            push_decimal(&mut t, self.republished as u64);
            DeleteAction::Finish(Ok(t))
        },
        _ => DeleteAction::Ignore,
    }
    }

    fn publishing_step(&mut self, e: DeleteEvent) -> (r: DeleteAction)
        requires
            old(self).phase == DeletePhase::Publishing,
            job_wf(old(self)@),
        ensures
            (final(self)@, r@) == delete_step_spec(old(self)@, e@, old(self).targets@, old(self).backup@),
            final(self).targets@ == old(self).targets@,
            final(self).backup@ == old(self).backup@,
            job_wf(final(self)@),
    {
        match e {
        DeleteEvent::Published(Err(x)) => {
            self.phase = DeletePhase::Finished;
            let mut t = owned("Re-publish failed at msg ");
            push_decimal(&mut t, (self.line + 1) as u64);
            push_str(&mut t, ": ");
            push_str(&mut t, x.as_str());
            push_str(&mut t, " — backup at ");
            push_str(&mut t, self.backup.as_str());
            failed(t)
        },
        DeleteEvent::Published(Ok(())) => {
            self.phase = DeletePhase::Reading;
            self.line = self.line + 1;
            self.republished = self.republished + 1;
            DeleteAction::ReadLine { progress: Some((self.republished, self.consumed - self.deleted)) }
        },
        _ => DeleteAction::Ignore,
    }
    }

    /// Takes a report and answers with the next thing to do. A batch
    /// cannot take the count past `usize::MAX`, and the backup has no more
    /// lines than messages were consumed into it.
    pub fn step(&mut self, e: DeleteEvent) -> (r: DeleteAction)
        requires
            job_wf(old(self)@),
            e matches DeleteEvent::Consumed(Ok(n)) ==> old(self).consumed + n <= usize::MAX,
            old(self).phase == DeletePhase::Reading && e is Line ==> old(self).line < old(
                self,
            ).consumed,
        ensures
            (final(self)@, r@) == delete_step_spec(old(self)@, e@, old(self).targets@, old(self).backup@),
            final(self).targets@ == old(self).targets@,
            final(self).backup@ == old(self).backup@,
            job_wf(final(self)@),
    {
        match self.phase {
            DeletePhase::Starting => self.starting_step(e),
            DeletePhase::Consuming => self.consuming_step(e),
            DeletePhase::Opening => self.opening_step(e),
            DeletePhase::Reading => self.reading_step(e),
            DeletePhase::Publishing => self.publishing_step(e),
            DeletePhase::Finished => DeleteAction::Ignore,
        }
    }
}

} // verus!
