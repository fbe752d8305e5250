//! Importing messages from a file into the current queue: the file is a
//! JSON array (as exports write) or JSON lines (as dumps write); each
//! message is published in turn. The caller reads the file and talks to
//! the broker; what is read and what happens next is decided here.

use vstd::prelude::*;
use vstd::utf8::{decode_utf8, valid_utf8};
use crate::deletion::{message_fields, pairs_view, read_message_fields};
use crate::model::MessageInfo;
use crate::operations::{header_object, reads_back};
use crate::json::{json_document, parse_json, JsonShape, JsonValue};
use crate::text::{
    chars_of, is_white, is_whitespace, owned, push_decimal, push_str, strip_front, trim, trimmed,
};

verus! {

// ---------------------------------------------------------------------------
// Reading the file
// ---------------------------------------------------------------------------

/// The text `String::from_utf8_lossy` makes of `bytes`: invalid sequences
/// become U+FFFD.
pub uninterp spec fn utf8_lossy(bytes: Seq<u8>) -> Seq<char>;

/// `String::from_utf8_lossy`: the result is named `utf8_lossy` of the
/// bytes; as its documentation says, valid UTF-8 is decoded as it is.
#[verifier::external_body]
pub(crate) fn lossy_text(bytes: &[u8]) -> (r: String)
    ensures
        r@ == utf8_lossy(bytes@),
        valid_utf8(bytes@) ==> r@ == decode_utf8(bytes@),
{
    String::from_utf8_lossy(bytes).into_owned()
}

/// Whether a file whose first bytes are `head` holds a JSON array: its
/// first character after any white space is `[`.
pub open spec fn json_array_head(head: Seq<u8>) -> bool {
    let t = strip_front(utf8_lossy(head), |c: char| is_white(c));
    t.len() > 0 && t[0] == '['
}

proof fn lemma_strip_front_step(s: Seq<char>)
    requires
        s.len() > 0,
        is_white(s[0]),
    ensures
        strip_front(s, |c: char| is_white(c)) == strip_front(s.drop_first(), |c: char| is_white(c)),
{
}

/// Whether a file starting with the bytes `head` (its first 64 bytes, or
/// all of a shorter file) is a JSON array rather than JSON lines.
pub fn is_json_array(head: &[u8]) -> (r: bool)
    ensures
        r == json_array_head(head@),
{
    let t = lossy_text(head);
    let cs = chars_of(t.as_str());
    let mut i: usize = 0;
    assert(cs@.skip(0) =~= cs@);
    while i < cs.len() && is_whitespace(cs[i])
        invariant
            i <= cs@.len(),
            strip_front(cs@, |c: char| is_white(c)) == strip_front(cs@.skip(i as int), |c: char| is_white(c)),
        decreases cs.len() - i,
    {
        proof {
            lemma_strip_front_step(cs@.skip(i as int));
            assert(cs@.skip(i as int).drop_first() =~= cs@.skip(i + 1));
        }
        i = i + 1;
    }
    assert(strip_front(cs@.skip(i as int), |c: char| is_white(c)) == cs@.skip(i as int));
    i < cs.len() && cs[i] == '['
}

/// The message `serde_json` gives for `text` when it is no JSON array.
pub uninterp spec fn json_array_error(text: Seq<char>) -> Seq<char>;

/// The elements of `text` when it is a JSON array.
pub open spec fn json_array_of(text: Seq<char>) -> Option<Seq<JsonValue>> {
    match json_document(text) {
        Some(d) => match d.shape {
            JsonShape::List(items) => Some(items@),
            _ => None,
        },
        None => None,
    }
}

/// `serde_json::from_str::<Vec<serde_json::Value>>`'s error, when there is
/// one: named `json_array_error` of the text. Claimed: there is one exactly
/// when the text is no JSON array.
#[verifier::external_body]
fn array_error(text: &str) -> (r: Option<String>)
    ensures
        r is None <==> json_array_of(text@) is Some,
        r matches Some(e) ==> e@ == json_array_error(text@),
{
    serde_json::from_str::<Vec<serde_json::Value>>(text).err().map(|e| e.to_string())
}

/// The messages of a file that is a JSON array, or the error for a file
/// that is not one.
pub fn array_messages(text: &str) -> (r: Result<Vec<JsonValue>, String>)
    ensures
        match json_array_of(text@) {
            Some(items) => r matches Ok(v) && v@ == items,
            None => r matches Err(e) && e@ == "Parsing JSON array: "@ + json_array_error(text@),
        },
{
    if let Some(e) = array_error(text) {
        let mut m = owned("Parsing JSON array: ");
        push_str(&mut m, e.as_str());
        return Err(m);
    }
    match parse_json(text) {
        Some(d) => match d.shape {
            JsonShape::List(items) => Ok(items),
            _ => Err(String::new()),
        },
        None => Err(String::new()),
    }
}

/// The messages of a file of JSON lines: every line that could be read,
/// is not blank and is JSON, in order.
pub open spec fn line_messages(lines: Seq<Option<String>>) -> Seq<JsonValue>
    decreases lines.len(),
{
    if lines.len() == 0 {
        seq![]
    } else {
        let rest = line_messages(lines.drop_last());
        match lines.last() {
            Some(l) => if trim(l@).len() > 0 && json_document(l@) is Some {
                rest.push(json_document(l@)->0)
            } else {
                rest
            },
            None => rest,
        }
    }
}

/// The messages of a file of JSON lines; `lines` holds each line as read,
/// `None` for one that could not be read.
pub fn jsonl_messages(lines: &Vec<Option<String>>) -> (r: Vec<JsonValue>)
    ensures
        r@ == line_messages(lines@),
{
    let mut out: Vec<JsonValue> = Vec::new();
    let mut i: usize = 0;
    assert(lines@.take(0) =~= Seq::<Option<String>>::empty());
    while i < lines.len()
        invariant
            i <= lines@.len(),
            out@ == line_messages(lines@.take(i as int)),
        decreases lines.len() - i,
    {
        assert(lines@.take(i + 1).drop_last() =~= lines@.take(i as int));
        assert(lines@.take(i + 1).last() == lines@[i as int]);
        if let Some(l) = &lines[i] {
            let t = trimmed(l.as_str());
            if !t.as_str().is_empty() {
                if let Some(v) = parse_json(l.as_str()) {
                    out.push(v);
                }
            }
        }
        i = i + 1;
    }
    assert(lines@.take(lines@.len() as int) =~= lines@);
    out
}

/// Messages written one to a line, as a dump writes them, are read back by
/// an import of JSON lines in the same order, each with its body, routing
/// key, content type and headers (each header name once, with its last
/// value).
pub proof fn lemma_dump_lines_import(ms: Seq<MessageInfo>, lines: Seq<Option<String>>)
    requires
        lines.len() == ms.len(),
        forall|i: int|
            0 <= i < lines.len() ==> (#[trigger] lines[i] matches Some(l) && reads_back(l@, ms[i]) && trim(
                l@,
            ).len() > 0),
    ensures
        line_messages(lines).len() == ms.len(),
        forall|i: int|
            0 <= i < ms.len() ==> {
                let f = message_fields(#[trigger] line_messages(lines)[i]);
                &&& f.0 == ms[i].body@
                &&& f.1 == ms[i].routing_key@
                &&& f.2 == ms[i].content_type@
                &&& header_object(pairs_view(ms[i].headers@), f.3)
            },
    decreases lines.len(),
{
    if lines.len() > 0 {
        let n = lines.len() - 1;
        assert forall|i: int| 0 <= i < lines.drop_last().len() implies (#[trigger] lines.drop_last()[i] matches Some(
            l,
        ) && reads_back(l@, ms.drop_last()[i]) && trim(l@).len() > 0) by {
            assert(lines.drop_last()[i] == lines[i]);
        }
        lemma_dump_lines_import(ms.drop_last(), lines.drop_last());
        assert(lines[n] matches Some(l) && reads_back(l@, ms[n]) && trim(l@).len() > 0);
        let l = lines[n]->Some_0;
        assert(lines.last() == lines[n]);
        assert(json_document(l@) is Some);
    }
}

// ---------------------------------------------------------------------------
// Publishing
// ---------------------------------------------------------------------------

/// Where an import stands.
#[derive(Debug, Clone, Copy, PartialEq, Eq, Structural)]
pub enum ImportPhase {
    Waiting,
    Publishing,
    Finished,
}

/// An import under way: the messages read, the one being published, and
/// the file they came from.
pub struct ImportJob {
    pub messages: Vec<JsonValue>,
    pub path: String,
    pub phase: ImportPhase,
    pub next: usize,
}

/// What the caller reports.
pub enum ImportEvent {
    Started,
    /// The user cancelled (checked before each message).
    Cancelled,
    /// The message was published, or the broker's error.
    Published(Result<(), String>),
}

/// What the caller does next.
pub enum ImportAction {
    /// Report `completed` of `total`, then publish this message.
    Publish {
        body: String,
        routing_key: String,
        content_type: String,
        headers: Vec<(String, String)>,
        completed: usize,
        total: usize,
    },
    /// Report progress when given, then stop with this outcome.
    Finish { progress: Option<(usize, usize)>, outcome: Result<String, String> },
    /// The report does not fit the step the import is at.
    Ignore,
}

pub enum ImportEffect {
    Publish(Seq<char>, Seq<char>, Seq<char>, Seq<(Seq<char>, Seq<char>)>, usize, usize),
    Finish(Option<(usize, usize)>, Result<Seq<char>, Seq<char>>),
    Ignore,
}

impl View for ImportAction {
    type V = ImportEffect;

    open spec fn view(&self) -> ImportEffect {
        match self {
            ImportAction::Publish { body, routing_key, content_type, headers, completed, total } =>
                ImportEffect::Publish(
                body@,
                routing_key@,
                content_type@,
                pairs_view(headers@),
                *completed,
                *total,
            ),
            ImportAction::Finish { progress, outcome } => ImportEffect::Finish(
                *progress,
                match outcome {
                    Ok(t) => Ok(t@),
                    Err(e) => Err(e@),
                },
            ),
            ImportAction::Ignore => ImportEffect::Ignore,
        }
    }
}

pub enum ImportEventModel {
    Started,
    Cancelled,
    Published(Result<(), Seq<char>>),
}

impl View for ImportEvent {
    type V = ImportEventModel;

    open spec fn view(&self) -> ImportEventModel {
        match self {
            ImportEvent::Started => ImportEventModel::Started,
            ImportEvent::Cancelled => ImportEventModel::Cancelled,
            ImportEvent::Published(r) => ImportEventModel::Published(
                match r {
                    Ok(()) => Ok(()),
                    Err(e) => Err(e@),
                },
            ),
        }
    }
}

/// Publishing message `i` of `msgs`, after reporting `i` of them done.
pub open spec fn publish_at(msgs: Seq<JsonValue>, i: int) -> ImportEffect {
    let f = message_fields(msgs[i]);
    ImportEffect::Publish(f.0, f.1, f.2, f.3, i as usize, msgs.len() as usize)
}

/// What the import does with a report: phase and next message after it,
/// and the action.
pub open spec fn import_step_spec(
    phase: ImportPhase,
    next: usize,
    e: ImportEventModel,
    msgs: Seq<JsonValue>,
    path: Seq<char>,
) -> (ImportPhase, usize, ImportEffect) {
    let total = msgs.len();
    match phase {
        ImportPhase::Waiting => match e {
            ImportEventModel::Started => (ImportPhase::Publishing, 0, publish_at(msgs, 0)),
            _ => (phase, next, ImportEffect::Ignore),
        },
        ImportPhase::Publishing => match e {
            ImportEventModel::Cancelled => (
                ImportPhase::Finished,
                next,
                ImportEffect::Finish(
                    None,
                    Ok(
                        "Import cancelled after "@ + decimal_of(next as int) + "/"@ + decimal_of(
                            total as int,
                        ) + " messages"@,
                    ),
                ),
            ),
            ImportEventModel::Published(Err(x)) => (
                ImportPhase::Finished,
                next,
                ImportEffect::Finish(
                    None,
                    Err(
                        "Import failed at message "@ + decimal_of(next + 1) + "/"@ + decimal_of(
                            total as int,
                        ) + ": "@ + x,
                    ),
                ),
            ),
            ImportEventModel::Published(Ok(())) => if next + 1 < total {
                (ImportPhase::Publishing, (next + 1) as usize, publish_at(msgs, next + 1))
            } else {
                (
                    ImportPhase::Finished,
                    (next + 1) as usize,
                    ImportEffect::Finish(
                        Some((total as usize, total as usize)),
                        Ok("Imported "@ + decimal_of(total as int) + " messages from "@ + path),
                    ),
                )
            },
            ImportEventModel::Started => (phase, next, ImportEffect::Ignore),
        },
        ImportPhase::Finished => (phase, next, ImportEffect::Ignore),
    }
}

pub open spec fn decimal_of(n: int) -> Seq<char> {
    crate::text::decimal(n as nat)
}

/// `k` publishes in a row succeeding, from `phase` at message `next`: the
/// state after them and the actions they lead to.
pub open spec fn successes(
    phase: ImportPhase,
    next: usize,
    k: nat,
    msgs: Seq<JsonValue>,
    path: Seq<char>,
) -> (ImportPhase, usize, Seq<ImportEffect>)
    decreases k,
{
    if k == 0 {
        (phase, next, seq![])
    } else {
        let (p1, n1, a) = import_step_spec(
            phase,
            next,
            ImportEventModel::Published(Ok(())),
            msgs,
            path,
        );
        let (p2, n2, rest) = successes(p1, n1, (k - 1) as nat, msgs, path);
        (p2, n2, seq![a] + rest)
    }
}

proof fn lemma_successes(next: usize, msgs: Seq<JsonValue>, path: Seq<char>)
    requires
        next < msgs.len() <= usize::MAX,
    ensures
        ({
            let (p, n, acts) = successes(
                ImportPhase::Publishing,
                next,
                (msgs.len() - next) as nat,
                msgs,
                path,
            );
            &&& p == ImportPhase::Finished
            &&& acts.len() == msgs.len() - next
            &&& forall|i: int| 0 <= i < acts.len() - 1 ==> #[trigger] acts[i] == publish_at(msgs, next + 1 + i)
            &&& acts[acts.len() - 1] == ImportEffect::Finish(
                Some((msgs.len() as usize, msgs.len() as usize)),
                Ok("Imported "@ + decimal_of(msgs.len() as int) + " messages from "@ + path),
            )
        }),
    decreases msgs.len() - next,
{
    let k = (msgs.len() - next) as nat;
    let (p1, n1, a) = import_step_spec(
        ImportPhase::Publishing,
        next,
        ImportEventModel::Published(Ok(())),
        msgs,
        path,
    );
    if next + 1 < msgs.len() {
        lemma_successes((next + 1) as usize, msgs, path);
        let (p2, n2, rest) = successes(p1, n1, (k - 1) as nat, msgs, path);
        let acts = seq![a] + rest;
        assert forall|i: int| 0 <= i < acts.len() - 1 implies #[trigger] acts[i] == publish_at(
            msgs,
            next + 1 + i,
        ) by {
            if i > 0 {
                assert(acts[i] == rest[i - 1]);
            }
        }
        assert(acts[acts.len() - 1] == rest[rest.len() - 1]);
    } else {
        assert(k == 1);
        let (p2, n2, rest) = successes(p1, n1, 0, msgs, path);
        assert(rest.len() == 0);
        assert(seq![a] + rest =~= seq![a]);
    }
}

/// An import whose publishes all succeed publishes the messages read, in
/// their order, each once, reporting each step; then it reports that all
/// of them were imported.
pub proof fn lemma_import_publishes_all(msgs: Seq<JsonValue>, path: Seq<char>)
    requires
        0 < msgs.len() <= usize::MAX,
    ensures
        ({
            let (p0, n0, first) = import_step_spec(
                ImportPhase::Waiting,
                0,
                ImportEventModel::Started,
                msgs,
                path,
            );
            let (p, n, acts) = successes(p0, n0, msgs.len(), msgs, path);
            let all = seq![first] + acts;
            &&& p == ImportPhase::Finished
            &&& all.len() == msgs.len() + 1
            &&& forall|i: int| 0 <= i < msgs.len() ==> #[trigger] all[i] == publish_at(msgs, i)
            &&& all[msgs.len() as int] == ImportEffect::Finish(
                Some((msgs.len() as usize, msgs.len() as usize)),
                Ok("Imported "@ + decimal_of(msgs.len() as int) + " messages from "@ + path),
            )
        }),
{
    lemma_successes(0, msgs, path);
    let (p0, n0, first) = import_step_spec(
        ImportPhase::Waiting,
        0,
        ImportEventModel::Started,
        msgs,
        path,
    );
    let (p, n, acts) = successes(p0, n0, msgs.len(), msgs, path);
    let all = seq![first] + acts;
    assert forall|i: int| 0 <= i < msgs.len() implies #[trigger] all[i] == publish_at(msgs, i) by {
        if i > 0 {
            assert(all[i] == acts[i - 1]);
        }
    }
    assert(all[msgs.len() as int] == acts[acts.len() - 1]);
}

impl ImportJob {
    /// An import of `messages`, read from `path`; a file with no messages
    /// is refused.
    pub fn new(messages: Vec<JsonValue>, path: String) -> (r: Result<ImportJob, String>)
        ensures
            messages@.len() == 0 <==> r is Err,
            r matches Err(e) ==> e@ == "No messages found in file"@,
            r matches Ok(j) ==> j.messages@ == messages@ && j.path@ == path@ && j.phase
                == ImportPhase::Waiting && j.next == 0,
    {
        if messages.len() == 0 {
            Err(owned("No messages found in file"))
        } else {
            Ok(ImportJob { messages, path, phase: ImportPhase::Waiting, next: 0 })
        }
    }

    fn publish_next(&self) -> (r: ImportAction)
        requires
            self.next < self.messages@.len(),
        ensures
            r@ == publish_at(self.messages@, self.next as int),
    {
        let (body, routing_key, content_type, headers) = read_message_fields(&self.messages[self.next]);
        ImportAction::Publish {
            body,
            routing_key,
            content_type,
            headers,
            completed: self.next,
            total: self.messages.len(),
        }
    }

    /// Takes a report and answers with the next thing to do.
    pub fn step(&mut self, e: ImportEvent) -> (r: ImportAction)
        requires
            old(self).messages@.len() > 0,
            old(self).phase == ImportPhase::Publishing ==> old(self).next < old(self).messages@.len(),
        ensures
            (final(self).phase, final(self).next, r@) == import_step_spec(
                old(self).phase,
                old(self).next,
                e@,
                old(self).messages@,
                old(self).path@,
            ),
            final(self).messages@ == old(self).messages@,
            final(self).path@ == old(self).path@,
            final(self).phase == ImportPhase::Publishing ==> final(self).next < final(self).messages@.len(),
    {
        let total = self.messages.len();
        match self.phase {
            ImportPhase::Waiting => match e {
                ImportEvent::Started => {
                    self.phase = ImportPhase::Publishing;
                    self.next = 0;
                    self.publish_next()
                },
                _ => ImportAction::Ignore,
            },
            ImportPhase::Publishing => match e {
                ImportEvent::Cancelled => {
                    self.phase = ImportPhase::Finished;
                    let mut t = owned("Import cancelled after ");
                    push_decimal(&mut t, self.next as u64);
                    push_str(&mut t, "/");
                    push_decimal(&mut t, total as u64);
                    push_str(&mut t, " messages");
                    ImportAction::Finish { progress: None, outcome: Ok(t) }
                },
                ImportEvent::Published(Err(x)) => {
                    self.phase = ImportPhase::Finished;
                    let mut t = owned("Import failed at message ");
                    push_decimal(&mut t, (self.next + 1) as u64);
                    push_str(&mut t, "/");
                    push_decimal(&mut t, total as u64);
                    push_str(&mut t, ": ");
                    push_str(&mut t, x.as_str());
                    ImportAction::Finish { progress: None, outcome: Err(t) }
                },
                ImportEvent::Published(Ok(())) => {
                    self.next = self.next + 1;
                    if self.next < total {
                        self.publish_next()
                    } else {
                        self.phase = ImportPhase::Finished;
                        let mut t = owned("Imported ");
                        push_decimal(&mut t, total as u64);
                        push_str(&mut t, " messages from ");
                        push_str(&mut t, self.path.as_str());
                        ImportAction::Finish { progress: Some((total, total)), outcome: Ok(t) }
                    }
                },
                ImportEvent::Started => ImportAction::Ignore,
            },
            ImportPhase::Finished => ImportAction::Ignore,
        }
    }
}

} // verus!
