//! The messages that the authority accepts.

use vstd::prelude::*;

use crate::brain::model::Intent;
use crate::simulation::flock::FlockId;
use crate::simulation::registration::{Registration, Unregistration};

verus! {

/// What a decision service asks for the agents of its team.
#[derive(Debug)]
pub struct Intentions {
    pub wishes: Vec<(FlockId, Intent)>,
}

/// An event for the authority. Each is handled on its own, in the order of
/// arrival.
#[derive(Debug)]
pub enum Message {
    /// A team asks to join.
    Register(Registration),
    /// A team asks to leave.
    Unregister(Unregistration),
    /// It is time to probe the teams.
    Heartbeat,
    /// A probe of the named team has ended; the flag tells whether the team
    /// answered.
    HeartbeatStatus((String, bool)),
    /// One unit of time has passed.
    Tick,
    /// Every team gets this many new agents.
    SpawnAll(usize),
    /// The named team gets this many new agents.
    Spawn((String, usize)),
    /// The decision service of the named team has answered.
    BrainUpdate(String, Intentions),
}

} // verus!
