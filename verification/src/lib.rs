//! Control-plane gateway core for administering a remote game server.
//!
//! The library owns the logic of two subsystems. The first is the binary
//! remote-console (RCON) protocol: a frame codec over an accumulating byte
//! buffer, the request/response rules of a single authenticated connection,
//! and the command session that serializes arbitrarily many concurrent
//! callers onto that one connection while keeping it alive. The second is
//! the external updater run: selection of the updater's argument vector,
//! line-by-line classification of its output into structured progress
//! events, and the state machine that forwards raw bytes and events to a
//! client and tears the run down deterministically.
//!
//! All I/O (sockets, processes, channels, HTTP) lives outside the library;
//! callers feed bytes, lines and events in and perform the actions handed
//! back.

pub mod codec;
pub mod rcon;
pub mod session;
pub mod unreal_struct;
pub mod update;
pub mod update_session;
