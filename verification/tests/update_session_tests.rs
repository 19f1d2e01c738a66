use palboard_gateway::update::UpdateProgressEvent;
use palboard_gateway::update_session::{
    LineSplitter, UpdateAction, UpdatePhase, UpdateSessionEvent, UpdateSessionMachine,
};

fn is_message(action: &UpdateAction) -> bool {
    matches!(
        action,
        UpdateAction::Forward(_) | UpdateAction::Emit(_) | UpdateAction::Close
    )
}

#[test]
fn a_full_run_closes_the_connection_last() {
    let mut machine = UpdateSessionMachine::new();
    assert_eq!(machine.phase(), UpdatePhase::Streaming);
    let run = vec![
        UpdateSessionEvent::Chunk(b"[----] Verif".to_vec()),
        UpdateSessionEvent::Chunk(b"ying installation...\n".to_vec()),
        UpdateSessionEvent::Line("[----] Verifying installation...".to_string()),
        UpdateSessionEvent::Chunk(b"Success!\n".to_vec()),
        UpdateSessionEvent::StreamEnded,
        UpdateSessionEvent::Line("Success!".to_string()),
        UpdateSessionEvent::ProcessExited,
        UpdateSessionEvent::Line("tail without newline".to_string()),
        UpdateSessionEvent::LineTaskFinished,
        UpdateSessionEvent::Chunk(b"late".to_vec()),
        UpdateSessionEvent::Line("Success!".to_string()),
        UpdateSessionEvent::ProcessExited,
    ];
    let mut messages: Vec<UpdateAction> = Vec::new();
    for event in run {
        let action = machine.on_event(event);
        if is_message(&action) {
            messages.push(action);
        }
    }
    assert_eq!(machine.phase(), UpdatePhase::Closed);
    let close_at = messages.iter().position(|a| matches!(a, UpdateAction::Close)).unwrap();
    assert_eq!(close_at, messages.len() - 1, "the close message is the last one observed");
    assert_eq!(
        messages.len(),
        6,
        "three raw chunks and two events precede the close; nothing follows it"
    );
}

#[test]
fn chunks_are_forwarded_verbatim_while_streaming() {
    let mut machine = UpdateSessionMachine::new();
    let action = machine.on_event(UpdateSessionEvent::Chunk(vec![1, 2, 3]));
    assert_eq!(action, UpdateAction::Forward(vec![1, 2, 3]));
}

#[test]
fn a_pipe_error_stops_forwarding_and_awaits_the_child() {
    let mut machine = UpdateSessionMachine::new();
    assert_eq!(machine.on_event(UpdateSessionEvent::ChunkError), UpdateAction::AwaitExit);
    assert_eq!(machine.phase(), UpdatePhase::AwaitingExit);
    assert_eq!(
        machine.on_event(UpdateSessionEvent::Chunk(vec![9])),
        UpdateAction::Ignore,
        "no chunk is forwarded after the pipe failed"
    );
    assert_eq!(machine.on_event(UpdateSessionEvent::ProcessExited), UpdateAction::JoinLineTask);
    assert_eq!(machine.on_event(UpdateSessionEvent::LineTaskFinished), UpdateAction::Close);
}

#[test]
fn lines_still_produce_events_until_the_join() {
    let mut machine = UpdateSessionMachine::new();
    machine.on_event(UpdateSessionEvent::StreamEnded);
    machine.on_event(UpdateSessionEvent::ProcessExited);
    let action = machine.on_event(UpdateSessionEvent::Line("Success!".to_string()));
    assert_eq!(action, UpdateAction::Emit(UpdateProgressEvent::Completed));
    machine.on_event(UpdateSessionEvent::LineTaskFinished);
    let after_close = machine.on_event(UpdateSessionEvent::Line("Success!".to_string()));
    assert_eq!(after_close, UpdateAction::Ignore, "no event after the close");
}

#[test]
fn unrecognized_lines_are_dropped_silently() {
    let mut machine = UpdateSessionMachine::new();
    let action = machine.on_event(UpdateSessionEvent::Line("noise".to_string()));
    assert_eq!(action, UpdateAction::Ignore);
    assert_eq!(machine.phase(), UpdatePhase::Streaming);
}

#[test]
fn out_of_order_observations_are_ignored() {
    let mut machine = UpdateSessionMachine::new();
    assert_eq!(machine.on_event(UpdateSessionEvent::ProcessExited), UpdateAction::Ignore);
    assert_eq!(machine.on_event(UpdateSessionEvent::LineTaskFinished), UpdateAction::Ignore);
    assert_eq!(machine.phase(), UpdatePhase::Streaming);
}

#[test]
fn splitter_hands_out_lines_as_they_complete() {
    let mut splitter = LineSplitter::new();
    assert!(splitter.push_chunk(b"ab").is_empty());
    let lines = splitter.push_chunk(b"c\nde\r\nf");
    assert_eq!(lines, vec![b"abc".to_vec(), b"de".to_vec()]);
    assert_eq!(splitter.finish(), Some(b"f".to_vec()));
    assert_eq!(splitter.finish(), None);
}

#[test]
fn splitter_keeps_empty_lines_and_strips_one_carriage_return() {
    let mut splitter = LineSplitter::new();
    let lines = splitter.push_chunk(b"x\n\n\r\r\n");
    assert_eq!(lines, vec![b"x".to_vec(), b"".to_vec(), b"\r".to_vec()]);
    assert_eq!(splitter.finish(), None);
}
