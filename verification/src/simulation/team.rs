//! A registered team.

use vstd::prelude::*;
use vstd::string::StringExecFns;

use crate::simulation::address::{
    brain_address, endpoint_text, heartbeat_address, locate, uri_parse, InvalidAddress,
};
use crate::brain::model::Intent;
use crate::simulation::boid::Boid;
use crate::simulation::flock::{after_wishes, shaped, Flock, FlockId};
use crate::simulation::registration::Registration;
use crate::simulation::{Simulate, Spawn};

verus! {

/// What a team is, as plain data.
pub struct TeamRecord {
    pub name: Seq<char>,
    pub ip_address: Seq<char>,
    pub port: u16,
    pub connected: bool,
    pub flock: Map<u64, Boid>,
}

/// A registered competitor: its name, the address of its decision service,
/// whether the service answered the last probe, and its agents.
pub struct Team {
    name: String,
    ip_address: String,
    port: u16,
    connected: bool,
    flock: Flock,
}

impl View for Team {
    type V = TeamRecord;

    closed spec fn view(&self) -> TeamRecord {
        TeamRecord {
            name: self.name@,
            ip_address: self.ip_address@,
            port: self.port,
            connected: self.connected,
            flock: self.flock@,
        }
    }
}

/// The record of a team that has just registered: not yet seen alive, and
/// without agents.
pub open spec fn newcomer(name: Seq<char>, ip_address: Seq<char>, port: u16) -> TeamRecord {
    TeamRecord { name, ip_address, port, connected: false, flock: Map::empty() }
}

/// `after` is `before` with `n` more agents, each in a state that `shape`
/// can return; the agents of `before` are as they were. Both flocks are
/// finite.
pub open spec fn grown<G: Fn(u64, u64, u64, u64) -> Boid>(
    before: TeamRecord,
    after: TeamRecord,
    n: nat,
    shape: &G,
) -> bool {
    &&& after == (TeamRecord { flock: after.flock, ..before })
    &&& before.flock.dom().finite()
    &&& after.flock.dom().finite()
    &&& before.flock.submap_of(after.flock)
    &&& after.flock.len() == before.flock.len() + n
    &&& forall|id: u64|
        after.flock.contains_key(id) && !before.flock.contains_key(id) ==> shaped(
            shape,
            #[trigger] after.flock[id],
        )
}

/// `after` is `before` with every agent advanced once by `advance`.
pub open spec fn advanced<F: Fn(Boid) -> Boid>(
    before: TeamRecord,
    after: TeamRecord,
    advance: &F,
) -> bool {
    &&& after == (TeamRecord { flock: after.flock, ..before })
    &&& after.flock.dom() == before.flock.dom()
    &&& forall|id: u64|
        before.flock.contains_key(id) ==> call_ensures(
            advance,
            (before.flock[id],),
            #[trigger] after.flock[id],
        )
}

impl Team {
    /// A team that has just registered.
    pub fn new<S: Into<String>>(name: S, ip_address: S, port: u16) -> (team: Team)
        ensures
            exists|n: String, a: String|
                call_ensures(S::into, (name,), n) && call_ensures(S::into, (ip_address,), a)
                    && team@ == newcomer(n@, a@, port),
    {
        Team::enroll(name.into(), ip_address.into(), port)
    }

    /// A team that has just registered, from owned texts.
    pub fn enroll(name: String, ip_address: String, port: u16) -> (team: Team)
        ensures
            team@ == newcomer(name@, ip_address@, port),
    {
        Team { name, ip_address, port, connected: false, flock: Flock::new() }
    }

    /// The team's name.
    pub fn name(&self) -> (name: &String)
        ensures
            name@ == self@.name,
    {
        &self.name
    }

    /// The host of the team's decision service.
    pub fn ip_address(&self) -> (ip_address: &String)
        ensures
            ip_address@ == self@.ip_address,
    {
        &self.ip_address
    }

    /// The port of the team's decision service.
    pub fn port(&self) -> (port: u16)
        ensures
            port == self@.port,
    {
        self.port
    }

    /// Whether the service answered the last probe.
    pub fn connected(&self) -> (connected: bool)
        ensures
            connected == self@.connected,
    {
        self.connected
    }

    /// The team's agents.
    pub fn flock(&self) -> (flock: &Flock)
        ensures
            flock@ == self@.flock,
    {
        &self.flock
    }

    /// The team in a line: its name, a blank, and the host of its service.
    pub fn describe(&self) -> (line: String)
        ensures
            line@ == self@.name + " "@ + self@.ip_address,
    {
        let mut line = self.name.clone();
        line.append(" ");
        line.append(self.ip_address.as_str());
        line
    }

    /// Where the team answers liveness probes.
    pub fn heartbeat_uri(&self) -> (located: Result<hyper::Uri, InvalidAddress>)
        ensures
            match located {
                Ok(uri) => uri_parse(heartbeat_address(self@.ip_address, self@.port)) == Ok::<
                    hyper::Uri,
                    hyper::http::uri::InvalidUri,
                >(uri),
                Err(refused) => uri_parse(heartbeat_address(self@.ip_address, self@.port)) is Err
                    && refused.text@ == heartbeat_address(self@.ip_address, self@.port),
            },
    {
        locate(endpoint_text(&self.ip_address, self.port, "/heartbeat"))
    }

    /// Where the team's decision service is polled.
    pub fn brain_uri(&self) -> (located: Result<hyper::Uri, InvalidAddress>)
        ensures
            match located {
                Ok(uri) => uri_parse(brain_address(self@.ip_address, self@.port)) == Ok::<
                    hyper::Uri,
                    hyper::http::uri::InvalidUri,
                >(uri),
                Err(refused) => uri_parse(brain_address(self@.ip_address, self@.port)) is Err
                    && refused.text@ == brain_address(self@.ip_address, self@.port),
            },
    {
        locate(endpoint_text(&self.ip_address, self.port, "/brain"))
    }

    /// Puts the agents on the courses that the decision service asks for.
    pub fn apply_intent(&mut self, wishes: &Vec<(FlockId, Intent)>)
        ensures
            final(self)@ == (TeamRecord {
                flock: after_wishes(old(self)@.flock, wishes@),
                ..old(self)@
            }),
    {
        self.flock.apply_intent(wishes);
    }

    /// Records whether the service answered the last probe.
    pub fn set_connection_status(&mut self, connected: bool)
        ensures
            final(self)@ == (TeamRecord { connected, ..old(self)@ }),
    {
        self.connected = connected;
    }
}

impl From<Registration> for Team {
    /// The team that a registration asks for.
    fn from(registration: Registration) -> (team: Team)
        ensures
            team@ == newcomer(registration.name@, registration.ip_address@, registration.port),
    {
        Team::enroll(registration.name, registration.ip_address, registration.port)
    }
}

/// Two teams with the same content need not be the same value, so the
/// conversion is stated on `from`, over the content, and not here.
impl vstd::std_specs::convert::FromSpecImpl<Registration> for Team {
    open spec fn obeys_from_spec() -> bool {
        false
    }

    open spec fn from_spec(registration: Registration) -> Team {
        arbitrary()
    }
}

impl Clone for Team {
    /// A copy with the same name, address, liveness and agents.
    fn clone(&self) -> (copy: Team)
        ensures
            copy@ == self@,
    {
        Team {
            name: self.name.clone(),
            ip_address: self.ip_address.clone(),
            port: self.port,
            connected: self.connected,
            flock: self.flock.clone(),
        }
    }
}

impl Spawn for Team {
    /// Adds `n` agents to the team's flock and changes nothing else.
    fn spawn<G: Fn(u64, u64, u64, u64) -> Boid>(
        &mut self,
        n: usize,
        source: &mut random::Xorshift128Plus,
        shape: &G,
    )
        ensures
            grown(old(self)@, final(self)@, n as nat, shape),
    {
        self.flock.spawn(n, source, shape);
    }
}

impl Simulate for Team {
    /// Advances every agent of the team once and changes nothing else.
    fn step<F: Fn(Boid) -> Boid>(&mut self, advance: &F)
        ensures
            advanced(old(self)@, final(self)@, advance),
    {
        self.flock.step(advance);
    }
}

} // verus!
