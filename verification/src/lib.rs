//! Core of a terminal chat client: session lifecycle, token renewal,
//! conversation-list polling, and the realtime chat multiplexer.
//!
//! Network and terminal I/O live outside this crate; every decision the
//! client makes (what to store, what to render, what to push, when to
//! stop) is a verified function here. The properties the client stands on
//! are stated and proved where their subjects live:
//!
//! - the session store holds exactly the most recently issued claims/token
//!   pair, never half of one ([`session`]);
//! - the published conversation list is always the last fetched one — a
//!   failed poll never blanks or tears it ([`snapshot`]);
//! - renders and read-index pushes happen exactly once per chat message of
//!   the open conversation, heartbeats are silent, and the sentinel exit
//!   line always ends the loop ([`chat`]);
//! - the wire codecs (events, read-index and send bodies, token claims)
//!   parse exactly their canonical forms and round-trip ([`wire`],
//!   [`message`], [`jwt`]).

pub mod chars;
pub mod chat;
pub mod jwt;
pub mod message;
pub mod screens;
pub mod session;
pub mod snapshot;
pub mod sse;
pub mod wire;
