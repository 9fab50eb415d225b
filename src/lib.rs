//! Core rules of a federated messaging homeserver.
//!
//! - `auth`, with its laws in `auth_laws`: which room state authorizes an
//!   event, and whether that state admits it, per room version
//!   (`room_version`), over the event model of `event`.
//! - `timeline`: a room's admitted events, each appended only after its auth
//!   events.
//! - `state_res` and `state_compressor`: splitting candidate states into
//!   agreed and conflicted entries, and storing snapshots as deltas.
//! - `join`: the remote-join handshake, from the choice of servers to the
//!   joined room; `federation`: the server side of joins, invites and
//!   history requests.
//! - `uiaa`, over `session_store`: user-interactive authentication sessions
//!   and the flows that gate registration and other sensitive requests;
//!   `fallback`: the web pages of its captcha fallback.
//! - `version`, `git`, `random`, `stats`: version strings, random values and
//!   federation counters.
use vstd::prelude::*;

pub mod auth;
pub mod auth_laws;
pub mod event;
pub mod fallback;
pub mod federation;
pub mod git;
pub mod join;
pub mod random;
pub mod room_version;
pub mod session_store;
pub mod state_compressor;
pub mod state_res;
pub mod stats;
pub mod timeline;
pub mod uiaa;
pub mod version;

verus! {
} // verus!
