//! The update session: one updater run, from spawn to a closed connection.
//!
//! A session tees the updater's raw output to the client while a line
//! splitter and the progress parser feed the same client structured events,
//! then tears everything down in a fixed order: byte pipe end → process
//! wait → line-task join → connection close. The decisions live in
//! [`UpdateSessionMachine`]: the driver feeds it what happened — a chunk, a
//! pipe error, end of stream, a parsed line, the child's exit, the line
//! task's join — and performs the action handed back. A ghost trace records
//! every message the driver was told to send, in order, which is what the
//! teardown law [`lemma_close_is_last`] speaks of: the close message, once
//! sent, is the last message of the session.
//!
//! [`LineSplitter`] is the byte-to-line stage between the raw stream and
//! the parser: fed arbitrary chunks, it hands out each completed line with
//! the newline stripped and one optional carriage return before it removed,
//! keeping the unfinished tail buffered.

use vstd::prelude::*;
use crate::update::{UpdateProgressEvent, UpdateEventModel, spec_classify, spec_line_fits,
    parse_line};

verus! {

/// How many raw chunks the handoff channel between the byte source and the
/// line splitter may hold before backpressure sets in.
pub const LINE_CHANNEL_CAPACITY: usize = 128;

/// Where a session stands.
#[derive(Clone, Copy, Debug, PartialEq, Eq, Structural)]
pub enum UpdatePhase {
    /// Raw chunks are forwarded as they arrive.
    Streaming,
    /// The byte pipe ended or failed; awaiting the child's exit.
    AwaitingExit,
    /// The child exited; awaiting the line task's join.
    AwaitingLineTask,
    /// The connection close was issued; nothing more is ever sent.
    Closed,
}

/// What happened, as the driver observes it.
#[derive(Debug, PartialEq)]
pub enum UpdateSessionEvent {
    /// One chunk of raw updater output arrived.
    Chunk(Vec<u8>),
    /// The byte pipe failed.
    ChunkError,
    /// The byte pipe reached its end.
    StreamEnded,
    /// The line splitter completed one line.
    Line(String),
    /// The child process was waited for and exited.
    ProcessExited,
    /// The line task was joined.
    LineTaskFinished,
}

/// What the driver must do next.
#[derive(Debug, PartialEq)]
pub enum UpdateAction {
    /// Send the chunk to the client as a raw message and feed it to the
    /// line splitter.
    Forward(Vec<u8>),
    /// Send one structured event message to the client.
    Emit(UpdateProgressEvent),
    /// Stop forwarding and wait for the child process to exit.
    AwaitExit,
    /// Close the line splitter's feed and join the line task.
    JoinLineTask,
    /// Close the client's duplex connection.
    Close,
    /// Nothing to do for this event.
    Ignore,
}

/// Model of an event.
pub enum UpdateSessionEventModel {
    Chunk(Seq<u8>),
    ChunkError,
    StreamEnded,
    Line(Seq<char>),
    ProcessExited,
    LineTaskFinished,
}

/// Model of an action.
pub enum UpdateActionModel {
    Forward(Seq<u8>),
    Emit(UpdateEventModel),
    AwaitExit,
    JoinLineTask,
    Close,
    Ignore,
}

impl View for UpdateSessionEvent {
    type V = UpdateSessionEventModel;

    open spec fn view(&self) -> UpdateSessionEventModel {
        match self {
            UpdateSessionEvent::Chunk(d) => UpdateSessionEventModel::Chunk(d@),
            UpdateSessionEvent::ChunkError => UpdateSessionEventModel::ChunkError,
            UpdateSessionEvent::StreamEnded => UpdateSessionEventModel::StreamEnded,
            UpdateSessionEvent::Line(l) => UpdateSessionEventModel::Line(l@),
            UpdateSessionEvent::ProcessExited => UpdateSessionEventModel::ProcessExited,
            UpdateSessionEvent::LineTaskFinished => UpdateSessionEventModel::LineTaskFinished,
        }
    }
}

impl View for UpdateAction {
    type V = UpdateActionModel;

    open spec fn view(&self) -> UpdateActionModel {
        match self {
            UpdateAction::Forward(d) => UpdateActionModel::Forward(d@),
            UpdateAction::Emit(e) => UpdateActionModel::Emit(e@),
            UpdateAction::AwaitExit => UpdateActionModel::AwaitExit,
            UpdateAction::JoinLineTask => UpdateActionModel::JoinLineTask,
            UpdateAction::Close => UpdateActionModel::Close,
            UpdateAction::Ignore => UpdateActionModel::Ignore,
        }
    }
}

/// One message on the duplex client connection.
pub enum UpdateMessageModel {
    /// A raw-bytes message.
    Raw(Seq<u8>),
    /// A structured progress event message.
    Event(UpdateEventModel),
    /// The explicit close of the connection.
    Close,
}

/// Model of a session: its phase and every message sent so far, in order.
pub struct UpdateSessionModel {
    pub phase: UpdatePhase,
    pub sent: Seq<UpdateMessageModel>,
}

/// A session as it starts: streaming, nothing sent.
pub open spec fn spec_update_initial() -> UpdateSessionModel {
    UpdateSessionModel { phase: UpdatePhase::Streaming, sent: Seq::empty() }
}

/// A parsed line's step: an event line emits its classification to the
/// client; an unrecognized line is silently dropped.
pub open spec fn spec_line_step(s: UpdateSessionModel, l: Seq<char>) -> (
    UpdateSessionModel,
    UpdateActionModel,
) {
    match spec_classify(l) {
        Some(m) => (
            UpdateSessionModel {
                phase: s.phase,
                sent: s.sent.push(UpdateMessageModel::Event(m)),
            },
            UpdateActionModel::Emit(m),
        ),
        None => (s, UpdateActionModel::Ignore),
    }
}

/// How the session answers one observation. Chunks are forwarded only
/// while streaming; the pipe's end or failure moves to waiting for the
/// child; the child's exit moves to joining the line task; the join issues
/// the connection close; lines may produce events in every phase before the
/// join, since the line task drains concurrently; a closed session ignores
/// everything.
pub open spec fn spec_update_step(s: UpdateSessionModel, ev: UpdateSessionEventModel) -> (
    UpdateSessionModel,
    UpdateActionModel,
) {
    match s.phase {
        UpdatePhase::Streaming => match ev {
            UpdateSessionEventModel::Chunk(d) => (
                UpdateSessionModel {
                    phase: UpdatePhase::Streaming,
                    sent: s.sent.push(UpdateMessageModel::Raw(d)),
                },
                UpdateActionModel::Forward(d),
            ),
            UpdateSessionEventModel::ChunkError => (
                UpdateSessionModel { phase: UpdatePhase::AwaitingExit, sent: s.sent },
                UpdateActionModel::AwaitExit,
            ),
            UpdateSessionEventModel::StreamEnded => (
                UpdateSessionModel { phase: UpdatePhase::AwaitingExit, sent: s.sent },
                UpdateActionModel::AwaitExit,
            ),
            UpdateSessionEventModel::Line(l) => spec_line_step(s, l),
            _ => (s, UpdateActionModel::Ignore),
        },
        UpdatePhase::AwaitingExit => match ev {
            UpdateSessionEventModel::ProcessExited => (
                UpdateSessionModel { phase: UpdatePhase::AwaitingLineTask, sent: s.sent },
                UpdateActionModel::JoinLineTask,
            ),
            UpdateSessionEventModel::Line(l) => spec_line_step(s, l),
            _ => (s, UpdateActionModel::Ignore),
        },
        UpdatePhase::AwaitingLineTask => match ev {
            UpdateSessionEventModel::LineTaskFinished => (
                UpdateSessionModel {
                    phase: UpdatePhase::Closed,
                    sent: s.sent.push(UpdateMessageModel::Close),
                },
                UpdateActionModel::Close,
            ),
            UpdateSessionEventModel::Line(l) => spec_line_step(s, l),
            _ => (s, UpdateActionModel::Ignore),
        },
        UpdatePhase::Closed => (s, UpdateActionModel::Ignore),
    }
}

/// The decision core of one update session.
pub struct UpdateSessionMachine {
    phase: UpdatePhase,
    sent: Ghost<Seq<UpdateMessageModel>>,
}

impl View for UpdateSessionMachine {
    type V = UpdateSessionModel;

    closed spec fn view(&self) -> UpdateSessionModel {
        UpdateSessionModel { phase: self.phase, sent: self.sent@ }
    }
}

impl UpdateSessionMachine {
    /// A fresh session, as [`spec_update_initial`] states.
    pub fn new() -> (m: Self)
        ensures
            m@ == spec_update_initial(),
    {
        UpdateSessionMachine { phase: UpdatePhase::Streaming, sent: Ghost(Seq::empty()) }
    }

    /// The session's phase.
    pub fn phase(&self) -> (p: UpdatePhase)
        ensures
            p == self@.phase,
    {
        self.phase
    }

    /// Decides one observation, as [`spec_update_step`] states. A line's
    /// numbers must fit their event fields (`line_fits` tests that; the
    /// driver checks it before feeding a line in).
    pub fn on_event(&mut self, ev: UpdateSessionEvent) -> (a: UpdateAction)
        requires
            ev@ matches UpdateSessionEventModel::Line(l) ==> spec_line_fits(l),
        ensures
            (final(self)@, a@) == spec_update_step(old(self)@, ev@),
    {
        match ev {
            UpdateSessionEvent::Chunk(d) => {
                match self.phase {
                    UpdatePhase::Streaming => {
                        proof {
                            self.sent@ = self.sent@.push(UpdateMessageModel::Raw(d@));
                        }
                        UpdateAction::Forward(d)
                    },
                    _ => UpdateAction::Ignore,
                }
            },
            UpdateSessionEvent::ChunkError => {
                match self.phase {
                    UpdatePhase::Streaming => {
                        self.phase = UpdatePhase::AwaitingExit;
                        UpdateAction::AwaitExit
                    },
                    _ => UpdateAction::Ignore,
                }
            },
            UpdateSessionEvent::StreamEnded => {
                match self.phase {
                    UpdatePhase::Streaming => {
                        self.phase = UpdatePhase::AwaitingExit;
                        UpdateAction::AwaitExit
                    },
                    _ => UpdateAction::Ignore,
                }
            },
            UpdateSessionEvent::Line(l) => {
                match self.phase {
                    UpdatePhase::Closed => UpdateAction::Ignore,
                    _ => {
                        match parse_line(l.as_str()) {
                            Some(e) => {
                                proof {
                                    self.sent@ = self.sent@.push(UpdateMessageModel::Event(e@));
                                }
                                UpdateAction::Emit(e)
                            },
                            None => UpdateAction::Ignore,
                        }
                    },
                }
            },
            UpdateSessionEvent::ProcessExited => {
                match self.phase {
                    UpdatePhase::AwaitingExit => {
                        self.phase = UpdatePhase::AwaitingLineTask;
                        UpdateAction::JoinLineTask
                    },
                    _ => UpdateAction::Ignore,
                }
            },
            UpdateSessionEvent::LineTaskFinished => {
                match self.phase {
                    UpdatePhase::AwaitingLineTask => {
                        self.phase = UpdatePhase::Closed;
                        proof {
                            self.sent@ = self.sent@.push(UpdateMessageModel::Close);
                        }
                        UpdateAction::Close
                    },
                    _ => UpdateAction::Ignore,
                }
            },
        }
    }
}

/// The session folded over a whole run of observations.
pub open spec fn spec_update_run(
    s: UpdateSessionModel,
    evs: Seq<UpdateSessionEventModel>,
) -> UpdateSessionModel
    decreases evs.len(),
{
    if evs.len() == 0 {
        s
    } else {
        spec_update_run(spec_update_step(s, evs[0]).0, evs.drop_first())
    }
}

/// The teardown invariant every reachable session state satisfies: a close
/// message appears in the sent trace only as its last message, and only
/// once the session is closed.
pub open spec fn teardown_inv(s: UpdateSessionModel) -> bool {
    forall|i: int|
        0 <= i < s.sent.len() && (#[trigger] s.sent[i]) is Close ==> s.phase is Closed && i
            == s.sent.len() - 1
}

proof fn lemma_step_preserves_teardown_inv(s: UpdateSessionModel, ev: UpdateSessionEventModel)
    requires
        teardown_inv(s),
    ensures
        teardown_inv(spec_update_step(s, ev).0),
{
}

/// Teardown: in any run of an update session from its start — any sequence
/// of chunks, lines, pipe failures, the process's exit and the line task's
/// join, in any order — the connection-close message is sent at most once,
/// and no message of any kind follows it: nothing is ever delivered on a
/// connection already reported closed.
pub proof fn lemma_close_is_last(evs: Seq<UpdateSessionEventModel>)
    ensures
        ({
            let end = spec_update_run(spec_update_initial(), evs);
            forall|i: int|
                0 <= i < end.sent.len() && (#[trigger] end.sent[i]) is Close ==> i
                    == end.sent.len() - 1
        }),
{
    lemma_run_preserves_teardown_inv(spec_update_initial(), evs);
}

proof fn lemma_run_preserves_teardown_inv(
    s: UpdateSessionModel,
    evs: Seq<UpdateSessionEventModel>,
)
    requires
        teardown_inv(s),
    ensures
        teardown_inv(spec_update_run(s, evs)),
    decreases evs.len(),
{
    if evs.len() > 0 {
        lemma_step_preserves_teardown_inv(s, evs[0]);
        lemma_run_preserves_teardown_inv(spec_update_step(s, evs[0]).0, evs.drop_first());
    }
}

/// The complete lines in `b`, in order: each maximal `\n`-terminated
/// segment, with the `\n` stripped and one `\r` just before it, if any,
/// stripped too.
pub open spec fn spec_lines(b: Seq<u8>) -> Seq<Seq<u8>>
    decreases b.len(),
    via spec_lines_decreases
{
    if exists|i: int| 0 <= i < b.len() && b[i] == 10u8 {
        let i = spec_first_nl(b, 0);
        seq![spec_strip_cr(b.subrange(0, i))] + spec_lines(b.subrange(i + 1, b.len() as int))
    } else {
        Seq::empty()
    }
}

#[via_fn]
proof fn spec_lines_decreases(b: Seq<u8>) {
    if exists|i: int| 0 <= i < b.len() && b[i] == 10u8 {
        let j = choose|j: int| 0 <= j < b.len() && b[j] == 10u8;
        lemma_first_nl(b, 0);
        assert(spec_first_nl(b, 0) <= j);
    }
}

/// What remains of `b` after its last complete line.
pub open spec fn spec_line_rest(b: Seq<u8>) -> Seq<u8>
    decreases b.len(),
    via spec_line_rest_decreases
{
    if exists|i: int| 0 <= i < b.len() && b[i] == 10u8 {
        let i = spec_first_nl(b, 0);
        spec_line_rest(b.subrange(i + 1, b.len() as int))
    } else {
        b
    }
}

#[via_fn]
proof fn spec_line_rest_decreases(b: Seq<u8>) {
    if exists|i: int| 0 <= i < b.len() && b[i] == 10u8 {
        let j = choose|j: int| 0 <= j < b.len() && b[j] == 10u8;
        lemma_first_nl(b, 0);
        assert(spec_first_nl(b, 0) <= j);
    }
}

/// The position of the first newline at or after `i`, or the length if
/// there is none.
pub open spec fn spec_first_nl(b: Seq<u8>, i: int) -> int
    decreases b.len() - i,
{
    if i < 0 || i >= b.len() {
        b.len() as int
    } else if b[i] == 10u8 {
        i
    } else {
        spec_first_nl(b, i + 1)
    }
}

/// `l` without one trailing carriage return, if it has one.
pub open spec fn spec_strip_cr(l: Seq<u8>) -> Seq<u8> {
    if l.len() > 0 && l.last() == 13u8 {
        l.drop_last()
    } else {
        l
    }
}

proof fn lemma_first_nl(b: Seq<u8>, i: int)
    requires
        0 <= i <= b.len(),
    ensures
        i <= spec_first_nl(b, i) <= b.len(),
        forall|j: int| i <= j < spec_first_nl(b, i) ==> b[j] != 10u8,
        spec_first_nl(b, i) < b.len() ==> b[spec_first_nl(b, i)] == 10u8,
    decreases b.len() - i,
{
    if i < b.len() && b[i] != 10u8 {
        lemma_first_nl(b, i + 1);
    }
}

/// A buffer without newlines is all rest and no lines.
proof fn lemma_no_nl(b: Seq<u8>)
    requires
        forall|j: int| 0 <= j < b.len() ==> b[j] != 10u8,
    ensures
        spec_lines(b) == Seq::<Seq<u8>>::empty(),
        spec_line_rest(b) == b,
{
}

/// Splitting distributes over a first line: the lines of `b` are the first
/// `\n`-terminated segment followed by the lines of what comes after it.
proof fn lemma_lines_unfold(b: Seq<u8>, i: int)
    requires
        0 <= i < b.len(),
        b[i] == 10u8,
        forall|j: int| 0 <= j < i ==> b[j] != 10u8,
    ensures
        spec_lines(b) == seq![spec_strip_cr(b.subrange(0, i))] + spec_lines(
            b.subrange(i + 1, b.len() as int),
        ),
        spec_line_rest(b) == spec_line_rest(b.subrange(i + 1, b.len() as int)),
{
    lemma_first_nl(b, 0);
    let f = spec_first_nl(b, 0);
    if f < i {
        assert(b[f] != 10u8);
    }
    if i < f {
        assert(b[i] != 10u8);
    }
}

/// The byte-to-line stage: it accumulates the unfinished tail of the
/// stream and hands out each line the moment its newline arrives.
pub struct LineSplitter {
    buf: Vec<u8>,
}

impl View for LineSplitter {
    type V = Seq<u8>;

    closed spec fn view(&self) -> Seq<u8> {
        self.buf@
    }
}

impl LineSplitter {
    /// The splitter's buffered tail never holds a newline.
    pub closed spec fn wf(&self) -> bool {
        forall|j: int| 0 <= j < self.buf@.len() ==> self.buf@[j] != 10u8
    }

    /// A fresh splitter with an empty buffer.
    pub fn new() -> (s: Self)
        ensures
            s@ == Seq::<u8>::empty(),
            s.wf(),
    {
        LineSplitter { buf: Vec::new() }
    }

    /// Feeds one chunk: hands out every line completed by it — the lines
    /// of the buffered tail followed by the chunk — and keeps the new
    /// unfinished tail.
    pub fn push_chunk(&mut self, chunk: &[u8]) -> (lines: Vec<Vec<u8>>)
        requires
            old(self).wf(),
        ensures
            final(self).wf(),
            lines@.map_values(|l: Vec<u8>| l@) == spec_lines(old(self)@ + chunk@),
            final(self)@ == spec_line_rest(old(self)@ + chunk@),
    {
        let ghost whole = old(self)@ + chunk@;
        let mut lines: Vec<Vec<u8>> = Vec::new();
        let mut k: usize = 0;
        proof {
            assert(self.buf@ + chunk@.subrange(0, chunk@.len() as int) =~= whole);
            assert(lines@.map_values(|l: Vec<u8>| l@) + spec_lines(whole) =~= spec_lines(whole));
            assert(spec_line_rest(whole) == spec_line_rest(
                self.buf@ + chunk@.subrange(0, chunk@.len() as int),
            ));
        }
        while k < chunk.len()
            invariant
                0 <= k <= chunk@.len(),
                self.wf(),
                whole == old(self)@ + chunk@,
                spec_lines(whole) == lines@.map_values(|l: Vec<u8>| l@) + spec_lines(
                    self.buf@ + chunk@.subrange(k as int, chunk@.len() as int),
                ),
                spec_line_rest(whole) == spec_line_rest(
                    self.buf@ + chunk@.subrange(k as int, chunk@.len() as int),
                ),
            decreases chunk@.len() - k,
        {
            let ghost pre = self.buf@ + chunk@.subrange(k as int, chunk@.len() as int);
            let ghost tail = self.buf@;
            let byte = chunk[k];
            if byte == 10u8 {
                proof {
                    assert(pre[tail.len() as int] == 10u8);
                    lemma_lines_unfold(pre, tail.len() as int);
                    assert(pre.subrange(0, tail.len() as int) =~= tail);
                }
                let mut line = Vec::new();
                core::mem::swap(&mut line, &mut self.buf);
                if line.len() > 0 && line[line.len() - 1] == 13u8 {
                    line.pop();
                }
                proof {
                    assert(line@ == spec_strip_cr(tail));
                    assert(pre.subrange(tail.len() as int + 1, pre.len() as int) =~= self.buf@
                        + chunk@.subrange(k + 1, chunk@.len() as int));
                }
                let ghost lines_before = lines@;
                lines.push(line);
                proof {
                    assert(lines@.map_values(|l: Vec<u8>| l@) =~= lines_before.map_values(
                        |l: Vec<u8>| l@,
                    ).push(line@));
                    assert(spec_lines(whole) =~= lines@.map_values(|l: Vec<u8>| l@) + spec_lines(
                        self.buf@ + chunk@.subrange(k + 1, chunk@.len() as int),
                    ));
                }
            } else {
                self.buf.push(byte);
                proof {
                    assert(self.buf@ + chunk@.subrange(k + 1, chunk@.len() as int) =~= pre);
                }
            }
            k += 1;
        }
        proof {
            assert(self.buf@ + chunk@.subrange(chunk@.len() as int, chunk@.len() as int)
                =~= self.buf@);
            lemma_no_nl(self.buf@);
            assert(lines@.map_values(|l: Vec<u8>| l@) =~= lines@.map_values(|l: Vec<u8>| l@)
                + spec_lines(self.buf@));
        }
        lines
    }

    /// Ends the stream: hands out the unfinished tail as a final line if
    /// one is buffered, leaving the splitter empty.
    pub fn finish(&mut self) -> (last: Option<Vec<u8>>)
        requires
            old(self).wf(),
        ensures
            final(self)@ == Seq::<u8>::empty(),
            final(self).wf(),
            old(self)@.len() == 0 ==> last is None,
            old(self)@.len() > 0 ==> (last matches Some(l) && l@ == old(self)@),
    {
        if self.buf.len() == 0 {
            None
        } else {
            let mut line = Vec::new();
            core::mem::swap(&mut line, &mut self.buf);
            Some(line)
        }
    }
}

} // verus!
