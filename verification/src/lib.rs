//! Authoritative core of a tick-based flocking simulation server.
//!
//! Teams register a remote decision service, the [`simulation::Simulation`]
//! keeps every team and its flock, and each inbound message is answered with
//! the lists for the collaborators and a copy of the registry after it.
//!
//! The other modules hold what the collaborators decide: what the
//! registration endpoint answers, what a probe or a poll turns into, and
//! what an observer's command asks of the authority.

pub mod brain;
pub mod heartbeat;
pub mod server;
pub mod simulation;
pub mod websocket;
