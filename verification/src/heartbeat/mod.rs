//! What is made of the outcome of a liveness probe.

use vstd::prelude::*;

use crate::simulation::communication::Message;

verus! {

/// The message for the authority after a probe of the team `team_name`.
/// A probe that got any answer counts as alive; one that failed or timed
/// out counts as not alive, and is not tried again.
pub fn verdict(team_name: String, answered: bool) -> (message: Message)
    ensures
        message == Message::HeartbeatStatus((team_name, answered)),
{
    Message::HeartbeatStatus((team_name, answered))
}

} // verus!
