//! The request/response rules of one RCON connection.
//!
//! A connection owns one transport stream and is authenticated at most once,
//! at dial time; the protocol is strictly request→response with a single
//! outstanding request. Because the auth-response and exec-command kinds
//! share a numeric code, a frame's meaning depends on the protocol phase,
//! which [`RconProtocol`] tracks explicitly: awaiting the handshake reply,
//! ready for commands, or failed for good. The transport itself lives with
//! the caller, who sends the frames built here and feeds the replies back.

use vstd::prelude::*;
use vstd::string::StrSliceExecFns;
use crate::codec::{Frame, RconError, SERVERDATA_AUTH, SERVERDATA_AUTH_RESPONSE,
    SERVERDATA_EXECCOMMAND, SERVERDATA_RESPONSE_VALUE};

verus! {

/// The sentinel id carried by the one authentication request.
pub const AUTH_REQUEST_ID: i32 = 13;

/// The fixed id carried by every command request.
pub const EXEC_REQUEST_ID: i32 = 14;

/// Where a connection stands in its life: handshaking, serving, or dead.
#[derive(Clone, Copy, Debug, PartialEq, Eq, Structural)]
pub enum ConnectionPhase {
    /// An auth frame went out; exactly one reply decides the connection's
    /// fate.
    AwaitingAuth,
    /// Authenticated (or dialed without a credential); commands may flow.
    Ready,
    /// A fatal error happened; the connection must be discarded, never
    /// reused or redialed automatically.
    Failed,
}

/// The authentication request for a credential: the auth kind under the
/// sentinel id, the credential as the body.
pub fn auth_request(credential: &str) -> (f: Frame)
    ensures
        f@.id == AUTH_REQUEST_ID,
        f@.kind == SERVERDATA_AUTH,
        f@.body == credential@,
{
    Frame { id: AUTH_REQUEST_ID, kind: SERVERDATA_AUTH, body: credential.to_owned() }
}

/// The request frame for one command: the exec kind under the fixed id,
/// the command text as the body.
pub fn exec_request(command: &str) -> (f: Frame)
    ensures
        f@.id == EXEC_REQUEST_ID,
        f@.kind == SERVERDATA_EXECCOMMAND,
        f@.body == command@,
{
    Frame { id: EXEC_REQUEST_ID, kind: SERVERDATA_EXECCOMMAND, body: command.to_owned() }
}

/// The protocol state machine of one connection.
#[derive(Debug)]
pub struct RconProtocol {
    phase: ConnectionPhase,
}

impl View for RconProtocol {
    type V = ConnectionPhase;

    closed spec fn view(&self) -> ConnectionPhase {
        self.phase
    }
}

impl RconProtocol {
    /// A fresh connection: handshaking if a credential was supplied, ready
    /// at once if not.
    pub fn new(has_credential: bool) -> (p: Self)
        ensures
            p@ == if has_credential {
                ConnectionPhase::AwaitingAuth
            } else {
                ConnectionPhase::Ready
            },
    {
        RconProtocol {
            phase: if has_credential {
                ConnectionPhase::AwaitingAuth
            } else {
                ConnectionPhase::Ready
            },
        }
    }

    /// The connection's phase.
    pub fn phase(&self) -> (p: ConnectionPhase)
        ensures
            p == self@,
    {
        self.phase
    }

    /// Judges the one handshake reply. It is accepted only if a reply
    /// arrived at all, its id matches the sentinel, and its kind is the
    /// auth-response code; any mismatch — a closed connection included —
    /// fails the dial as `AuthenticationFailed`, finally: the connection
    /// must be discarded, with no retry.
    pub fn on_auth_reply(&mut self, reply: Option<&Frame>) -> (r: Result<(), RconError>)
        requires
            old(self)@ is AwaitingAuth,
        ensures
            (r is Ok) == (reply matches Some(f) && f@.id == AUTH_REQUEST_ID && f@.kind
                == SERVERDATA_AUTH_RESPONSE),
            r is Ok ==> final(self)@ is Ready,
            r is Err ==> (final(self)@ is Failed && (r matches Err(e) && e
                is AuthenticationFailed)),
    {
        match reply {
            Some(f) if f.id == AUTH_REQUEST_ID && f.kind == SERVERDATA_AUTH_RESPONSE => {
                self.phase = ConnectionPhase::Ready;
                Ok(())
            },
            _ => {
                self.phase = ConnectionPhase::Failed;
                Err(RconError::AuthenticationFailed)
            },
        }
    }

    /// Judges the one reply to a command. A missing reply (the stream
    /// closed) is `ConnectionReset`; a reply of any kind but the
    /// response-value code is `ProtocolViolation` with the offending frame
    /// attached; both are fatal to the connection. A response-value reply
    /// yields its body text unmodified, trailing whitespace included.
    pub fn on_exec_reply(&mut self, reply: Option<Frame>) -> (r: Result<String, RconError>)
        requires
            old(self)@ is Ready,
        ensures
            ({
                match reply {
                    None => r matches Err(e) && e is ConnectionReset && final(self)@ is Failed,
                    Some(f) => if f@.kind == SERVERDATA_RESPONSE_VALUE {
                        r matches Ok(body) && body@ == f@.body && final(self)@ is Ready
                    } else {
                        r matches Err(e) && (e matches RconError::ProtocolViolation(g) && g@
                            == f@) && final(self)@ is Failed
                    },
                }
            }),
    {
        match reply {
            None => {
                self.phase = ConnectionPhase::Failed;
                Err(RconError::ConnectionReset)
            },
            Some(f) => {
                if f.kind == SERVERDATA_RESPONSE_VALUE {
                    Ok(f.body)
                } else {
                    self.phase = ConnectionPhase::Failed;
                    Err(RconError::ProtocolViolation(f))
                }
            },
        }
    }
}

} // verus!
