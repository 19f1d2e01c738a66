use palboard_gateway::session::{
    ban_player_command, broadcast_command, decimal_string, do_exit_command, info_command,
    keepalive_command, kick_player_command, save_command, show_players_command, shutdown_command,
    SessionAction, SessionActor, SessionEvent, IDLE_TIMEOUT_SECS,
};

/// A stand-in for the connection: it only counts what the actor dispatches.
struct CountingConnection {
    commands: Vec<String>,
    keepalives: usize,
}

impl CountingConnection {
    fn new() -> Self {
        CountingConnection { commands: Vec::new(), keepalives: 0 }
    }

    fn perform(&mut self, action: SessionAction) -> Option<(String, u64)> {
        match action {
            SessionAction::Execute(cmd, ticket) => {
                self.commands.push(cmd.clone());
                Some((cmd, ticket))
            }
            SessionAction::Keepalive => {
                self.keepalives += 1;
                None
            }
            SessionAction::Stop => None,
        }
    }
}

#[test]
fn request_is_executed_with_its_own_ticket() {
    let mut actor = SessionActor::new();
    assert!(actor.is_running());
    let action = actor.on_event(SessionEvent::Request("Info".to_string(), 7));
    assert_eq!(action, SessionAction::Execute("Info".to_string(), 7));
    assert!(actor.is_running());
}

#[test]
fn requests_are_served_in_arrival_order() {
    let mut actor = SessionActor::new();
    let mut conn = CountingConnection::new();
    let submissions =
        [("Save", 1u64), ("Broadcast hello", 2), ("KickPlayer 42", 3), ("Info", 4)];
    for (cmd, ticket) in submissions.iter() {
        let action = actor.on_event(SessionEvent::Request(cmd.to_string(), *ticket));
        let (executed, replied_to) = conn.perform(action).expect("a request must execute");
        assert_eq!(executed, *cmd, "the dispatched command is the caller's own");
        assert_eq!(replied_to, *ticket, "the reply goes to the submitting caller");
        actor.on_reply_delivery(true);
    }
    let expected: Vec<String> = submissions.iter().map(|(c, _)| c.to_string()).collect();
    assert_eq!(conn.commands, expected, "no duplication, no drop, arrival order");
    assert_eq!(conn.keepalives, 0);
}

#[test]
fn idle_session_issues_exactly_one_keepalive() {
    let mut actor = SessionActor::new();
    let mut conn = CountingConnection::new();
    let action = actor.on_event(SessionEvent::IdleTimeout);
    assert_eq!(action, SessionAction::Keepalive);
    conn.perform(action);
    assert_eq!(conn.keepalives, 1);
    actor.on_keepalive_result(true);
    assert!(actor.is_running());
    let next = actor.on_event(SessionEvent::Request("Info".to_string(), 1));
    assert_eq!(next, SessionAction::Execute("Info".to_string(), 1));
    assert_eq!(conn.keepalives, 1, "no further keepalive before the next observation");
}

#[test]
fn failed_keepalive_terminates_the_session() {
    let mut actor = SessionActor::new();
    assert_eq!(actor.on_event(SessionEvent::IdleTimeout), SessionAction::Keepalive);
    actor.on_keepalive_result(false);
    assert!(!actor.is_running());
    let after = actor.on_event(SessionEvent::Request("Info".to_string(), 9));
    assert_eq!(after, SessionAction::Stop, "a dead session serves nothing");
}

#[test]
fn closed_queue_terminates_the_session() {
    let mut actor = SessionActor::new();
    assert_eq!(actor.on_event(SessionEvent::QueueClosed), SessionAction::Stop);
    assert!(!actor.is_running());
}

#[test]
fn abandoned_reply_is_not_fatal() {
    let mut actor = SessionActor::new();
    let action = actor.on_event(SessionEvent::Request("Save".to_string(), 3));
    assert_eq!(action, SessionAction::Execute("Save".to_string(), 3));
    actor.on_reply_delivery(false);
    assert!(actor.is_running(), "a caller that walked away does not kill the session");
}

#[test]
fn idle_threshold_is_five_time_units() {
    assert_eq!(IDLE_TIMEOUT_SECS, 5);
}

#[test]
fn command_texts_are_fixed_formats() {
    assert_eq!(shutdown_command(30, "Server rebooting now"), "Shutdown 30 Server rebooting now");
    assert_eq!(shutdown_command(0, ""), "Shutdown 0 ");
    assert_eq!(do_exit_command(), "DoExit");
    assert_eq!(broadcast_command("hello world"), "Broadcast hello world");
    assert_eq!(kick_player_command("76561198000000000"), "KickPlayer 76561198000000000");
    assert_eq!(ban_player_command("76561198000000001"), "BanPlayer 76561198000000001");
    assert_eq!(show_players_command(), "ShowPlayers");
    assert_eq!(info_command(), "Info");
    assert_eq!(save_command(), "Save");
    assert_eq!(keepalive_command(), "ShowPlayers");
}

#[test]
fn decimal_rendering_is_plain_base_ten() {
    assert_eq!(decimal_string(0), "0");
    assert_eq!(decimal_string(5), "5");
    assert_eq!(decimal_string(10), "10");
    assert_eq!(decimal_string(1234567890), "1234567890");
}
