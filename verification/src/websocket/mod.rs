//! The observers' side: where they connect, and what they may command.

use vstd::prelude::*;

use crate::simulation::communication::Message;

verus! {

/// Where the observers connect.
pub struct WebSocketUpdate {
    socket_address: String,
}

impl View for WebSocketUpdate {
    type V = Seq<char>;

    closed spec fn view(&self) -> Seq<char> {
        self.socket_address@
    }
}

impl WebSocketUpdate {
    /// A broadcaster that will listen on `socket_address`.
    pub fn new<S: Into<String>>(socket_address: S) -> (update: WebSocketUpdate)
        ensures
            exists|address: String|
                call_ensures(S::into, (socket_address,), address) && update@ == address@,
    {
        let address: String = socket_address.into();
        let update = WebSocketUpdate { socket_address: address };
        assert(call_ensures(S::into, (socket_address,), address) && update@ == address@);
        update
    }

    /// The address to listen on.
    pub fn socket_address(&self) -> (address: &String)
        ensures
            address@ == self@,
    {
        &self.socket_address
    }
}

/// A command of an observer.
#[derive(Debug)]
pub enum Command {
    /// This many new agents for the named team.
    Spawn { team: String, count: usize },
}

impl Command {
    /// The message by which the authority carries the command out: the
    /// team and the count go on as the observer gave them.
    pub fn message(self) -> (message: Message)
        ensures
            message == match self {
                Command::Spawn { team, count } => Message::Spawn((team, count)),
            },
    {
        match self {
            Command::Spawn { team, count } => Message::Spawn((team, count)),
        }
    }
}

} // verus!
