//! The registry of teams, their flocks, and the authority that owns them.

pub mod address;
pub mod boid;
pub mod communication;
pub mod flock;
pub mod laws;
pub mod registration;
pub mod team;
pub mod teams;

use vstd::prelude::*;

pub use crate::simulation::boid::Boid;
pub use crate::simulation::communication::Intentions;
pub use crate::simulation::flock::{Flock, FlockId};
pub use crate::simulation::registration::{
    Registration, RegistrationAttempt, RegistrationFailure, RegistrationFailureReason,
    Unregistration, UnregistrationAttempt, UnregistrationFailure, UnregistrationFailureReason,
};
pub use crate::simulation::team::Team;
pub use crate::simulation::teams::Teams;

use crate::simulation::communication::Message;
use crate::simulation::flock::{advances, default_source, seeded, shapes};
use crate::simulation::address::{brain_address, heartbeat_address, uri_parse};
use crate::simulation::team::TeamRecord;
use crate::simulation::teams::{
    after_intent, after_liveness, after_registration, after_unregistration, all_advanced, all_grown, has_name,
    one_grown, registration_outcome, sound, unregistration_outcome,
};

verus! {

/// What can be advanced by one tick. `advance` is the law of motion: it
/// takes the state of one agent to its state one tick later.
pub trait Simulate {
    fn step<F: Fn(Boid) -> Boid>(&mut self, advance: &F)
        requires
            advances(advance),
    ;
}

/// What keeps the teams: it admits a team, and lets one go.
pub trait TeamRepository {
    fn register(&mut self, registration: Registration) -> RegistrationAttempt;

    fn unregister(&mut self, unregistration: Unregistration) -> UnregistrationAttempt;
}

/// What can take in new agents. Every new agent draws its identifier and
/// four numbers from `source`, and `shape` makes its state of the numbers.
pub trait Spawn {
    fn spawn<G: Fn(u64, u64, u64, u64) -> Boid>(
        &mut self,
        n: usize,
        source: &mut random::Xorshift128Plus,
        shape: &G,
    )
        requires
            shapes(shape),
    ;
}

/// The teams to probe: every team whose liveness address parses, in the
/// order of the registry, with its name and that address.
pub open spec fn probes(teams: Seq<TeamRecord>) -> Seq<(Seq<char>, hyper::Uri)>
    decreases teams.len(),
{
    if teams.len() == 0 {
        Seq::empty()
    } else {
        let team = teams.last();
        match uri_parse(heartbeat_address(team.ip_address, team.port)) {
            Ok(uri) => probes(teams.drop_last()).push((team.name, uri)),
            Err(_) => probes(teams.drop_last()),
        }
    }
}

/// Whether a team is polled: it answered the last probe, it has agents, and
/// the address of its decision service parses.
pub open spec fn polled(team: TeamRecord) -> bool {
    &&& team.connected
    &&& team.flock.len() != 0
    &&& uri_parse(brain_address(team.ip_address, team.port)) is Ok
}

/// The teams to poll, in the order of the registry: for each its name, the
/// address of its decision service, and its agents.
pub open spec fn polls(teams: Seq<TeamRecord>) -> Seq<(Seq<char>, hyper::Uri, Map<u64, Boid>)>
    decreases teams.len(),
{
    if teams.len() == 0 {
        Seq::empty()
    } else {
        let team = teams.last();
        if polled(team) {
            polls(teams.drop_last()).push(
                (
                    team.name,
                    uri_parse(brain_address(team.ip_address, team.port))->Ok_0,
                    team.flock,
                ),
            )
        } else {
            polls(teams.drop_last())
        }
    }
}

/// A list of probes as plain data.
pub open spec fn probe_records(servers: Seq<(String, hyper::Uri)>) -> Seq<
    (Seq<char>, hyper::Uri),
> {
    servers.map_values(|server: (String, hyper::Uri)| (server.0@, server.1))
}

/// A list of polls as plain data.
pub open spec fn poll_records(servers: Seq<(String, hyper::Uri, Flock)>) -> Seq<
    (Seq<char>, hyper::Uri, Map<u64, Boid>),
> {
    servers.map_values(|server: (String, hyper::Uri, Flock)| (server.0@, server.1, server.2@))
}

/// What became of a message, for the record.
#[derive(Clone, Copy, Debug, PartialEq, Eq, Structural)]
pub enum Report {
    /// A registration, with its outcome.
    Registration(RegistrationAttempt),
    /// An unregistration, with its outcome.
    Unregistration(UnregistrationAttempt),
    /// The teams to probe were listed.
    Heartbeat,
    /// A liveness report came in; `known` tells whether a team goes by the
    /// name.
    HeartbeatStatus { known: bool },
    /// The agents were advanced and the teams to poll were listed.
    Tick,
    /// Every team got new agents.
    SpawnAll,
    /// New agents were asked for one team; `known` tells whether a team
    /// goes by the name.
    Spawn { known: bool },
    /// The answer of a decision service was received.
    BrainUpdate,
}

/// The authority's answer to one message.
pub struct Reaction {
    /// What became of the message.
    pub report: Report,
    /// The teams to probe, where the message asked for them.
    pub check: Option<Vec<(String, hyper::Uri)>>,
    /// The teams to poll, where the message was a tick.
    pub pick: Option<Vec<(String, hyper::Uri, Flock)>>,
    /// The registry as the message left it, for the observers.
    pub update: Teams,
}

/// `reaction` answers `message`, and `after` is the registry that the message
/// leaves of `before`. Whatever the message, the answer carries a copy of the
/// registry as the message left it.
pub open spec fn follows<G: Fn(u64, u64, u64, u64) -> Boid, F: Fn(Boid) -> Boid>(
    before: Seq<TeamRecord>,
    message: Message,
    after: Seq<TeamRecord>,
    reaction: Reaction,
    shape: &G,
    advance: &F,
) -> bool {
    &&& reaction.update@ == after
    &&& match message {
        Message::Register(registration) => {
            &&& after == after_registration(
                before,
                registration.name@,
                registration.ip_address@,
                registration.port,
            )
            &&& reaction.report == Report::Registration(
                registration_outcome(
                    before,
                    registration.name@,
                    registration.ip_address@,
                    registration.port,
                ),
            )
            &&& reaction.check is None
            &&& reaction.pick is None
        },
        Message::Unregister(unregistration) => {
            &&& after == after_unregistration(before, unregistration.name@)
            &&& reaction.report == Report::Unregistration(
                unregistration_outcome(before, unregistration.name@),
            )
            &&& reaction.check is None
            &&& reaction.pick is None
        },
        Message::Heartbeat => {
            &&& after == before
            &&& reaction.report == Report::Heartbeat
            &&& reaction.check matches Some(servers) && probe_records(servers@) == probes(before)
            &&& reaction.pick is None
        },
        Message::HeartbeatStatus((name, connected)) => {
            &&& after == after_liveness(before, name@, connected)
            &&& reaction.report == (Report::HeartbeatStatus { known: has_name(before, name@) })
            &&& reaction.check is None
            &&& reaction.pick is None
        },
        Message::Tick => {
            &&& all_advanced(before, after, advance)
            &&& reaction.report == Report::Tick
            &&& reaction.check is None
            &&& reaction.pick matches Some(servers) && poll_records(servers@) == polls(after)
        },
        Message::SpawnAll(n) => {
            &&& all_grown(before, after, n as nat, shape)
            &&& reaction.report == Report::SpawnAll
            &&& reaction.check is None
            &&& reaction.pick is None
        },
        Message::Spawn((name, n)) => {
            &&& one_grown(before, after, name@, n as nat, shape)
            &&& reaction.report == (Report::Spawn { known: has_name(before, name@) })
            &&& reaction.check is None
            &&& reaction.pick is None
        },
        Message::BrainUpdate(name, intentions) => {
            &&& after == before
            &&& reaction.report == Report::BrainUpdate
            &&& reaction.check is None
            &&& reaction.pick is None
        },
    }
}

/// The authority: the one owner of the registry. It changes only by
/// handling a message.
pub struct Simulation {
    team_repository: Teams,
    source: random::Xorshift128Plus,
}

impl View for Simulation {
    type V = Seq<TeamRecord>;

    closed spec fn view(&self) -> Seq<TeamRecord> {
        self.team_repository@
    }
}

impl Simulation {
    /// An authority with an empty registry, whose new agents are drawn from
    /// the stream that `seed` starts.
    pub fn new(seed: u64) -> (simulation: Simulation)
        ensures
            simulation@ == Seq::<TeamRecord>::empty(),
            simulation.generator() == default_source(seed),
    {
        Simulation { team_repository: Teams::new(), source: seeded(seed) }
    }

    /// The generator from which the next new agent will be drawn.
    pub closed spec fn generator(&self) -> random::Xorshift128Plus {
        self.source
    }

    /// The registry. As at any time, no two of its teams share a name, and
    /// no two share a host and port.
    pub fn teams(&self) -> (teams: &Teams)
        ensures
            teams@ == self@,
            sound(self@),
    {
        proof {
            use_type_invariant(&self.team_repository);
        }
        &self.team_repository
    }

    /// Handles one message: changes the registry as the message asks, and
    /// answers with what became of it, the list for the collaborator that
    /// the message concerns, and a copy of the registry after the change.
    /// No message fails: a refusal is an answer like any other. Only a
    /// message that asks for new agents draws from the generator.
    pub fn handle<G: Fn(u64, u64, u64, u64) -> Boid, F: Fn(Boid) -> Boid>(
        &mut self,
        message: Message,
        shape: &G,
        advance: &F,
    ) -> (reaction: Reaction)
        requires
            shapes(shape),
            advances(advance),
        ensures
            reaction.update@ == final(self)@,
            follows(old(self)@, message, final(self)@, reaction, shape, advance),
            sound(final(self)@),
            !(message is SpawnAll) && !(message is Spawn) ==> final(self).generator() == old(
                self,
            ).generator(),
    {
        let mut check: Option<Vec<(String, hyper::Uri)>> = None;
        let mut pick: Option<Vec<(String, hyper::Uri, Flock)>> = None;
        let report = match message {
            Message::Register(registration) => {
                Report::Registration(self.team_repository.register(registration))
            },
            Message::Unregister(unregistration) => {
                Report::Unregistration(self.team_repository.unregister(unregistration))
            },
            Message::Heartbeat => {
                check = Some(self.heartbeat());
                Report::Heartbeat
            },
            Message::HeartbeatStatus((name, connected)) => {
                let known = self.team_repository.set_liveness(name.as_str(), connected);
                Report::HeartbeatStatus { known }
            },
            Message::Tick => {
                self.step(advance);
                pick = Some(self.control());
                Report::Tick
            },
            Message::SpawnAll(n) => {
                self.team_repository.spawn(n, &mut self.source, shape);
                Report::SpawnAll
            },
            Message::Spawn((name, n)) => {
                let known = self.team_repository.find(name.as_str()).is_some();
                self.team_repository.spawn_in_team(name, n, &mut self.source, shape);
                Report::Spawn { known }
            },
            Message::BrainUpdate(name, intentions) => Report::BrainUpdate,
        };
        let update = self.team_repository.clone();
        Reaction { report, check, pick, update }
    }

    /// Puts the agents of the team that goes by `team` on the courses that
    /// its decision service asks for, and tells whether there is such a
    /// team. A brain update does not do this by itself: whoever wants the
    /// answers of the decision services to steer the agents calls this.
    pub fn apply_intent(&mut self, team: &str, intentions: &Intentions) -> (known: bool)
        ensures
            known == has_name(old(self)@, team@),
            final(self)@ == after_intent(old(self)@, team@, intentions.wishes@),
            sound(final(self)@),
            final(self).generator() == old(self).generator(),
    {
        self.team_repository.apply_intent(team, &intentions.wishes)
    }

    /// Lists the teams to probe.
    pub fn heartbeat(&self) -> (servers: Vec<(String, hyper::Uri)>)
        ensures
            probe_records(servers@) == probes(self@),
    {
        let mut servers: Vec<(String, hyper::Uri)> = Vec::new();
        let count = self.team_repository.len();
        let mut i: usize = 0;
        assert(self@.take(0) =~= Seq::<TeamRecord>::empty());
        while i < count
            invariant
                i <= count,
                count == self@.len(),
                probe_records(servers@) == probes(self@.take(i as int)),
            decreases count - i,
        {
            let team = self.team_repository.team(i);
            proof {
                assert(self@.take(i + 1).drop_last() =~= self@.take(i as int));
                assert(self@.take(i + 1).last() == self@[i as int]);
            }
            match team.heartbeat_uri() {
                Ok(uri) => {
                    let ghost before = servers@;
                    servers.push((team.name().clone(), uri));
                    assert(probe_records(servers@) =~= probe_records(before).push(
                        (team@.name, uri),
                    ));
                },
                Err(_) => {},
            }
            i = i + 1;
        }
        assert(self@.take(count as int) =~= self@);
        servers
    }

    /// Lists the teams to poll.
    pub fn control(&self) -> (servers: Vec<(String, hyper::Uri, Flock)>)
        ensures
            poll_records(servers@) == polls(self@),
    {
        let mut servers: Vec<(String, hyper::Uri, Flock)> = Vec::new();
        let count = self.team_repository.len();
        let mut i: usize = 0;
        assert(self@.take(0) =~= Seq::<TeamRecord>::empty());
        while i < count
            invariant
                i <= count,
                count == self@.len(),
                poll_records(servers@) == polls(self@.take(i as int)),
            decreases count - i,
        {
            let team = self.team_repository.team(i);
            proof {
                assert(self@.take(i + 1).drop_last() =~= self@.take(i as int));
                assert(self@.take(i + 1).last() == self@[i as int]);
            }
            if team.connected() && !team.flock().is_empty() {
                match team.brain_uri() {
                    Ok(uri) => {
                        let ghost before = servers@;
                        servers.push((team.name().clone(), uri, team.flock().clone()));
                        assert(poll_records(servers@) =~= poll_records(before).push(
                            (team@.name, uri, team@.flock),
                        ));
                    },
                    Err(_) => {},
                }
            }
            i = i + 1;
        }
        assert(self@.take(count as int) =~= self@);
        servers
    }
}

impl Simulate for Simulation {
    /// Advances every agent of every team once.
    fn step<F: Fn(Boid) -> Boid>(&mut self, advance: &F)
        ensures
            all_advanced(old(self)@, final(self)@, advance),
            sound(final(self)@),
            final(self).generator() == old(self).generator(),
    {
        self.team_repository.step(advance);
    }
}

} // verus!
