//! What is made of the answer of a decision service.

pub mod model;

use vstd::prelude::*;

use crate::simulation::communication::{Intentions, Message};

verus! {

/// Why the answer of a decision service was dropped.
#[derive(Clone, Copy, Debug, PartialEq, Eq, Structural)]
pub enum Error {
    /// The body was no text.
    DefunctInput,
    /// The text did not describe intentions.
    CouldNotDeserialize,
}

/// The message for the authority after a poll of the team `team_name`: an
/// answer that was read becomes a brain update under the team's name, and an
/// answer that was not is dropped.
pub fn conclude(team_name: String, answer: Result<Intentions, Error>) -> (message: Option<Message>)
    ensures
        message == match answer {
            Ok(intentions) => Some(Message::BrainUpdate(team_name, intentions)),
            Err(_) => None,
        },
{
    match answer {
        Ok(intentions) => Some(Message::BrainUpdate(team_name, intentions)),
        Err(_) => None,
    }
}

} // verus!
