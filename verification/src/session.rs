//! The command session actor and the command texts it sends.
//!
//! One actor exclusively owns one RCON connection and drains one queue of
//! command requests, so a protocol that permits only a single outstanding
//! request looks, to its callers, like an arbitrary-concurrency service.
//! The actor's decisions are pure: [`SessionActor::on_event`] maps each
//! wakeup — a request, a closed queue, or an idle timeout — to the action
//! the loop's driver must perform, and a ghost trace records every command
//! dispatched to the connection, in order. The driver performs the I/O and
//! reports outcomes back through [`SessionActor::on_keepalive_result`] and
//! [`SessionActor::on_reply_delivery`].

use vstd::prelude::*;
use vstd::string::{StringExecFns, StrSliceExecFns};

verus! {

/// How long the actor waits for a request before probing the connection
/// with a keepalive, in seconds.
pub const IDLE_TIMEOUT_SECS: u64 = 5;

/// One wakeup of the actor's loop.
#[derive(Debug, PartialEq)]
pub enum SessionEvent {
    /// A command arrived on the queue, paired with the ticket of the
    /// caller's single-use reply slot.
    Request(String, u64),
    /// The queue closed: every handle was dropped.
    QueueClosed,
    /// Nothing arrived within the idle threshold.
    IdleTimeout,
}

/// What the actor asks its driver to do for one wakeup.
#[derive(Debug, PartialEq)]
pub enum SessionAction {
    /// Execute the command on the connection and deliver the result to the
    /// reply slot with this ticket.
    Execute(String, u64),
    /// Execute the keepalive command on the connection and discard its
    /// result.
    Keepalive,
    /// Terminate the loop; the session is over for good.
    Stop,
}

/// Model of an event: the command's characters and the reply ticket.
pub enum EventModel {
    Request(Seq<char>, u64),
    QueueClosed,
    IdleTimeout,
}

/// Model of an action.
pub enum ActionModel {
    Execute(Seq<char>, u64),
    Keepalive,
    Stop,
}

impl View for SessionEvent {
    type V = EventModel;

    open spec fn view(&self) -> EventModel {
        match self {
            SessionEvent::Request(c, t) => EventModel::Request(c@, *t),
            SessionEvent::QueueClosed => EventModel::QueueClosed,
            SessionEvent::IdleTimeout => EventModel::IdleTimeout,
        }
    }
}

impl View for SessionAction {
    type V = ActionModel;

    open spec fn view(&self) -> ActionModel {
        match self {
            SessionAction::Execute(c, t) => ActionModel::Execute(c@, *t),
            SessionAction::Keepalive => ActionModel::Keepalive,
            SessionAction::Stop => ActionModel::Stop,
        }
    }
}

/// The command of a request event.
pub open spec fn req_cmd(ev: EventModel) -> Seq<char> {
    match ev {
        EventModel::Request(c, _) => c,
        _ => Seq::empty(),
    }
}

/// The reply ticket of a request event.
pub open spec fn req_ticket(ev: EventModel) -> u64 {
    match ev {
        EventModel::Request(_, t) => t,
        _ => 0,
    }
}

/// The keepalive probe: the server's "list connected players" query.
pub open spec fn spec_keepalive() -> Seq<char> {
    "ShowPlayers"@
}

/// Model of the actor: whether it still serves requests, and the trace of
/// every command it has dispatched to the connection, in dispatch order.
pub struct SessionModel {
    pub running: bool,
    pub dispatched: Seq<Seq<char>>,
}

/// How the actor answers one wakeup. A terminated actor only stops. A
/// running one executes an arrived command (recording it), stops for good
/// when the queue closes, and probes with exactly one keepalive when idle.
pub open spec fn spec_on_event(s: SessionModel, ev: EventModel) -> (SessionModel, ActionModel) {
    if !s.running {
        (s, ActionModel::Stop)
    } else {
        match ev {
            EventModel::Request(c, t) => (
                SessionModel { running: true, dispatched: s.dispatched.push(c) },
                ActionModel::Execute(c, t),
            ),
            EventModel::QueueClosed => (
                SessionModel { running: false, dispatched: s.dispatched },
                ActionModel::Stop,
            ),
            EventModel::IdleTimeout => (
                SessionModel { running: true, dispatched: s.dispatched.push(spec_keepalive()) },
                ActionModel::Keepalive,
            ),
        }
    }
}

/// The decision core of the command session actor.
pub struct SessionActor {
    running: bool,
    dispatched: Ghost<Seq<Seq<char>>>,
}

impl View for SessionActor {
    type V = SessionModel;

    closed spec fn view(&self) -> SessionModel {
        SessionModel { running: self.running, dispatched: self.dispatched@ }
    }
}

impl SessionActor {
    /// A fresh actor: serving, with nothing dispatched yet.
    pub fn new() -> (s: Self)
        ensures
            s@.running,
            s@.dispatched == Seq::<Seq<char>>::empty(),
    {
        SessionActor { running: true, dispatched: Ghost(Seq::empty()) }
    }

    /// Whether the actor still serves requests.
    pub fn is_running(&self) -> (b: bool)
        ensures
            b == self@.running,
    {
        self.running
    }

    /// Decides one wakeup, as [`spec_on_event`] states.
    pub fn on_event(&mut self, ev: SessionEvent) -> (a: SessionAction)
        ensures
            (final(self)@, a@) == spec_on_event(old(self)@, ev@),
    {
        if !self.running {
            return SessionAction::Stop;
        }
        match ev {
            SessionEvent::Request(c, t) => {
                self.dispatched = Ghost(self.dispatched@.push(c@));
                SessionAction::Execute(c, t)
            },
            SessionEvent::QueueClosed => {
                self.running = false;
                SessionAction::Stop
            },
            SessionEvent::IdleTimeout => {
                self.dispatched = Ghost(self.dispatched@.push(spec_keepalive()));
                SessionAction::Keepalive
            },
        }
    }

    /// Takes the outcome of delivering a reply to its caller. A caller that
    /// abandoned its reply slot makes delivery fail; that is deliberately
    /// not fatal — the actor changes nothing and serves on.
    pub fn on_reply_delivery(&mut self, delivered: bool)
        ensures
            final(self)@ == old(self)@,
    {
    }

    /// Takes the outcome of the keepalive probe. A failed probe means the
    /// connection is dead: the actor terminates for good. A successful one
    /// changes nothing.
    pub fn on_keepalive_result(&mut self, ok: bool)
        ensures
            final(self)@.dispatched == old(self)@.dispatched,
            final(self)@.running == (old(self)@.running && ok),
    {
        if !ok {
            self.running = false;
        }
    }
}

/// The actor folded over a whole sequence of wakeups: the final state and
/// the actions answered, one per event, in order.
pub open spec fn spec_run(s: SessionModel, evs: Seq<EventModel>) -> (SessionModel, Seq<ActionModel>)
    decreases evs.len(),
{
    if evs.len() == 0 {
        (s, Seq::empty())
    } else {
        let first = spec_on_event(s, evs[0]);
        let rest = spec_run(first.0, evs.drop_first());
        (rest.0, seq![first.1] + rest.1)
    }
}

/// Ordering: however many concurrent callers race to submit, the actor
/// dispatches exactly the commands that arrived — no duplication, no drop —
/// in arrival order, and each action carries the ticket of its own
/// request's reply slot, so every caller receives the reply matching its
/// own command only.
pub proof fn lemma_fifo_ordering(s: SessionModel, evs: Seq<EventModel>)
    requires
        s.running,
        forall|i: int| 0 <= i < evs.len() ==> (#[trigger] evs[i]) is Request,
    ensures
        ({
            let run = spec_run(s, evs);
            &&& run.1.len() == evs.len()
            &&& forall|i: int|
                0 <= i < evs.len() ==> run.1[i] == ActionModel::Execute(
                    req_cmd(#[trigger] evs[i]),
                    req_ticket(evs[i]),
                )
            &&& run.0.running
            &&& run.0.dispatched == s.dispatched + Seq::new(evs.len(), |i| req_cmd(evs[i]))
        }),
    decreases evs.len(),
{
    let run = spec_run(s, evs);
    if evs.len() == 0 {
        assert(run.0.dispatched =~= s.dispatched + Seq::new(0, |i| req_cmd(evs[i])));
    } else {
        let first = spec_on_event(s, evs[0]);
        lemma_fifo_ordering(first.0, evs.drop_first());
        let tail = spec_run(first.0, evs.drop_first());
        assert forall|i: int| 0 <= i < evs.len() implies run.1[i] == ActionModel::Execute(
            req_cmd(#[trigger] evs[i]),
            req_ticket(evs[i]),
        ) by {
            if i > 0 {
                assert(run.1[i] == tail.1[i - 1]);
                assert(evs.drop_first()[i - 1] == evs[i]);
            }
        }
        assert(run.0.dispatched =~= s.dispatched + Seq::new(evs.len(), |i| req_cmd(evs[i])));
    }
}

/// Keepalive liveness: a running session that sits idle past the threshold
/// dispatches exactly one keepalive command before any further observation,
/// and keeps serving.
pub proof fn lemma_keepalive_liveness(s: SessionModel)
    requires
        s.running,
    ensures
        ({
            let step = spec_on_event(s, EventModel::IdleTimeout);
            &&& step.1 == ActionModel::Keepalive
            &&& step.0.running
            &&& step.0.dispatched == s.dispatched.push(spec_keepalive())
        }),
{
}

/// The decimal digit `d` as a character.
pub open spec fn spec_digit_char(d: nat) -> char {
    if d == 0 {
        '0'
    } else if d == 1 {
        '1'
    } else if d == 2 {
        '2'
    } else if d == 3 {
        '3'
    } else if d == 4 {
        '4'
    } else if d == 5 {
        '5'
    } else if d == 6 {
        '6'
    } else if d == 7 {
        '7'
    } else if d == 8 {
        '8'
    } else {
        '9'
    }
}

/// The decimal notation of `n`: most significant digit first, no leading
/// zero except for zero itself.
pub open spec fn spec_dec_digits(n: nat) -> Seq<char>
    decreases n,
{
    if n < 10 {
        seq![spec_digit_char(n)]
    } else {
        spec_dec_digits(n / 10).push(spec_digit_char(n % 10))
    }
}

/// The one-character string of the decimal digit `d`.
fn digit_str(d: u8) -> (s: &'static str)
    requires
        d < 10,
    ensures
        s@ == seq![spec_digit_char(d as nat)],
{
    let s: &'static str = match d {
        0 => "0",
        1 => "1",
        2 => "2",
        3 => "3",
        4 => "4",
        5 => "5",
        6 => "6",
        7 => "7",
        8 => "8",
        _ => "9",
    };
    proof {
        reveal_strlit("0");
        reveal_strlit("1");
        reveal_strlit("2");
        reveal_strlit("3");
        reveal_strlit("4");
        reveal_strlit("5");
        reveal_strlit("6");
        reveal_strlit("7");
        reveal_strlit("8");
        reveal_strlit("9");
        assert(s@ =~= seq![spec_digit_char(d as nat)]);
    }
    s
}

/// Appends the decimal notation of `n` to `out`.
fn push_dec_digits(n: usize, out: &mut String)
    ensures
        final(out)@ == old(out)@ + spec_dec_digits(n as nat),
    decreases n,
{
    if n >= 10 {
        push_dec_digits(n / 10, out);
    }
    out.append(digit_str((n % 10) as u8));
    proof {
        assert(final(out)@ =~= old(out)@ + spec_dec_digits(n as nat));
    }
}

/// The decimal notation of `n`.
pub fn decimal_string(n: usize) -> (s: String)
    ensures
        s@ == spec_dec_digits(n as nat),
{
    let mut s = String::new();
    push_dec_digits(n, &mut s);
    proof {
        assert(s@ =~= spec_dec_digits(n as nat));
    }
    s
}

/// The keepalive probe's command text.
pub fn keepalive_command() -> (s: String)
    ensures
        s@ == spec_keepalive(),
{
    "ShowPlayers".to_owned()
}

/// `Shutdown <seconds> <message>`: one space-joined line, the message kept
/// verbatim with no escaping of embedded spaces.
pub fn shutdown_command(seconds: usize, message_text: &str) -> (s: String)
    ensures
        s@ == "Shutdown "@ + spec_dec_digits(seconds as nat) + " "@ + message_text@,
{
    let mut s = "Shutdown ".to_owned();
    push_dec_digits(seconds, &mut s);
    s.append(" ");
    s.append(message_text);
    proof {
        assert(s@ =~= "Shutdown "@ + spec_dec_digits(seconds as nat) + " "@ + message_text@);
    }
    s
}

/// `DoExit`.
pub fn do_exit_command() -> (s: String)
    ensures
        s@ == "DoExit"@,
{
    "DoExit".to_owned()
}

/// `Broadcast <message>`, the message kept verbatim.
pub fn broadcast_command(message_text: &str) -> (s: String)
    ensures
        s@ == "Broadcast "@ + message_text@,
{
    let mut s = "Broadcast ".to_owned();
    s.append(message_text);
    s
}

/// `KickPlayer <steamid>`.
pub fn kick_player_command(steamid: &str) -> (s: String)
    ensures
        s@ == "KickPlayer "@ + steamid@,
{
    let mut s = "KickPlayer ".to_owned();
    s.append(steamid);
    s
}

/// `BanPlayer <steamid>`.
pub fn ban_player_command(steamid: &str) -> (s: String)
    ensures
        s@ == "BanPlayer "@ + steamid@,
{
    let mut s = "BanPlayer ".to_owned();
    s.append(steamid);
    s
}

/// `ShowPlayers` — also the keepalive probe.
pub fn show_players_command() -> (s: String)
    ensures
        s@ == "ShowPlayers"@,
{
    "ShowPlayers".to_owned()
}

/// `Info`.
pub fn info_command() -> (s: String)
    ensures
        s@ == "Info"@,
{
    "Info".to_owned()
}

/// `Save`.
pub fn save_command() -> (s: String)
    ensures
        s@ == "Save"@,
{
    "Save".to_owned()
}

} // verus!
