use palboard_gateway::codec::{
    Frame, RconError, SERVERDATA_AUTH, SERVERDATA_AUTH_RESPONSE, SERVERDATA_RESPONSE_VALUE,
};
use palboard_gateway::rcon::{
    auth_request, exec_request, ConnectionPhase, RconProtocol, AUTH_REQUEST_ID, EXEC_REQUEST_ID,
};

#[test]
fn auth_request_carries_the_credential_under_the_sentinel_id() {
    let f = auth_request("let-me-in");
    assert_eq!(f.id, AUTH_REQUEST_ID);
    assert_eq!(f.kind, SERVERDATA_AUTH);
    assert_eq!(f.body, "let-me-in");
}

#[test]
fn exec_request_carries_the_command() {
    let f = exec_request("ShowPlayers");
    assert_eq!(f.id, EXEC_REQUEST_ID);
    assert_eq!(f.kind, 2);
    assert_eq!(f.body, "ShowPlayers");
}

#[test]
fn dialing_without_a_credential_is_ready_at_once() {
    let p = RconProtocol::new(false);
    assert_eq!(p.phase(), ConnectionPhase::Ready);
}

#[test]
fn matching_auth_reply_authenticates() {
    let mut p = RconProtocol::new(true);
    assert_eq!(p.phase(), ConnectionPhase::AwaitingAuth);
    let reply = Frame { id: AUTH_REQUEST_ID, kind: SERVERDATA_AUTH_RESPONSE, body: String::new() };
    assert!(p.on_auth_reply(Some(&reply)).is_ok());
    assert_eq!(p.phase(), ConnectionPhase::Ready);
}

#[test]
fn wrong_id_fails_authentication() {
    let mut p = RconProtocol::new(true);
    let reply = Frame { id: 99, kind: SERVERDATA_AUTH_RESPONSE, body: String::new() };
    assert_eq!(p.on_auth_reply(Some(&reply)).unwrap_err(), RconError::AuthenticationFailed);
    assert_eq!(p.phase(), ConnectionPhase::Failed);
}

#[test]
fn wrong_kind_fails_authentication() {
    let mut p = RconProtocol::new(true);
    let reply = Frame { id: AUTH_REQUEST_ID, kind: SERVERDATA_RESPONSE_VALUE, body: String::new() };
    assert_eq!(p.on_auth_reply(Some(&reply)).unwrap_err(), RconError::AuthenticationFailed);
}

#[test]
fn closed_stream_during_handshake_fails_authentication() {
    let mut p = RconProtocol::new(true);
    assert_eq!(p.on_auth_reply(None).unwrap_err(), RconError::AuthenticationFailed);
    assert_eq!(p.phase(), ConnectionPhase::Failed);
}

#[test]
fn exec_reply_body_is_returned_unmodified() {
    let mut p = RconProtocol::new(false);
    let reply = Frame {
        id: EXEC_REQUEST_ID,
        kind: SERVERDATA_RESPONSE_VALUE,
        body: "name,uid,steamid \n".to_string(),
    };
    assert_eq!(p.on_exec_reply(Some(reply)).unwrap(), "name,uid,steamid \n");
    assert_eq!(p.phase(), ConnectionPhase::Ready);
}

#[test]
fn unexpected_reply_kind_is_a_protocol_violation_with_the_frame_attached() {
    let mut p = RconProtocol::new(false);
    let reply = Frame { id: 0, kind: 3, body: "odd".to_string() };
    match p.on_exec_reply(Some(reply)).unwrap_err() {
        RconError::ProtocolViolation(f) => {
            assert_eq!(f.kind, 3);
            assert_eq!(f.body, "odd");
        }
        other => panic!("expected a protocol violation, got {:?}", other),
    }
    assert_eq!(p.phase(), ConnectionPhase::Failed);
}

#[test]
fn closed_stream_during_exec_is_a_connection_reset() {
    let mut p = RconProtocol::new(false);
    assert_eq!(p.on_exec_reply(None).unwrap_err(), RconError::ConnectionReset);
    assert_eq!(p.phase(), ConnectionPhase::Failed);
}
