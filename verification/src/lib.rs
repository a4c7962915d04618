//! Game State Integration server core.
//!
//! A small local HTTP-shaped endpoint receives periodic POST requests whose
//! body is a JSON snapshot of a running game. This crate holds the verified
//! core of that server:
//!
//! * [`framer`]: an incremental parser that locates the header block of one
//!   request in a growing byte buffer, extracts the declared `Content-Length`,
//!   and returns a payload of exactly that many bytes;
//! * [`bus`]: a single-producer, multi-consumer broadcast of payloads with an
//!   independent cursor and a bounded backlog per subscriber;
//! * [`subscription`]: the lifecycle of one registered handler consuming from
//!   the bus;
//! * [`lifecycle`]: the server state machine, its shutdown signal and the
//!   aggregation of every task's terminal outcome;
//! * [`errors`]: the per-connection error taxonomy;
//! * the game-state data model ([`team`], [`players`], [`heroes`],
//!   [`buildings`], [`items`], [`wearables`], [`abilities`], [`gamestate`],
//!   with [`text`] underneath) that consumers decode payloads into.
//!
//! All socket I/O, task spawning and JSON decoding live outside this crate;
//! the functions here work on plain values and carry contracts for them.

pub mod abilities;
pub mod buildings;
pub mod bus;
pub mod errors;
pub mod framer;
pub mod gamestate;
pub mod heroes;
pub mod items;
pub mod lifecycle;
pub mod players;
pub mod subscription;
pub mod team;
pub mod text;
pub mod wearables;





