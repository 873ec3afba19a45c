//! Session and game orchestration core of a real-time multiplayer quiz server.
//!
//! One host connection creates a room and drives timed rounds; players join
//! the room by name, submit answers and receive the round results. This crate
//! holds the decisions of that system as sequential state machines over plain
//! values, each with a contract. The surrounding program owns the sockets,
//! channels, timers and locks: it feeds events in and carries out the commands
//! that come back.

pub mod api;
pub mod game;
pub mod invariants;
pub mod orchestrator;
pub mod presence;
pub mod registry;
pub mod round;
pub mod scoring;
pub mod session;
