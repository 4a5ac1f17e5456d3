//! The registry: every registered team, in the order in which they joined.
//!
//! No two teams share a name, and no two share a host and port.

use vstd::prelude::*;

use crate::simulation::boid::Boid;
use crate::brain::model::Intent;
use crate::simulation::flock::{advances, after_wishes, shapes, FlockId};
use crate::simulation::registration::{
    Registration, RegistrationAttempt, RegistrationFailureReason, Unregistration,
    UnregistrationAttempt, UnregistrationFailureReason,
};
use crate::simulation::team::{advanced, grown, newcomer, Team, TeamRecord};
use crate::simulation::{Simulate, Spawn, TeamRepository};

verus! {

/// Some team goes by `name`.
pub open spec fn has_name(teams: Seq<TeamRecord>, name: Seq<char>) -> bool {
    exists|i: int| 0 <= i < teams.len() && (#[trigger] teams[i]).name == name
}

/// Some team's service listens on `ip_address` and `port`.
pub open spec fn has_address(teams: Seq<TeamRecord>, ip_address: Seq<char>, port: u16) -> bool {
    exists|i: int|
        0 <= i < teams.len() && (#[trigger] teams[i]).ip_address == ip_address && teams[i].port
            == port
}

/// The place of the team that goes by `name`.
pub open spec fn position(teams: Seq<TeamRecord>, name: Seq<char>) -> int {
    choose|i: int| 0 <= i < teams.len() && (#[trigger] teams[i]).name == name
}

/// No two teams share a name, and no two share a host and port.
pub open spec fn sound(teams: Seq<TeamRecord>) -> bool {
    forall|i: int, j: int|
        0 <= i < j < teams.len() ==> {
            &&& (#[trigger] teams[i]).name != (#[trigger] teams[j]).name
            &&& !(teams[i].ip_address == teams[j].ip_address && teams[i].port == teams[j].port)
        }
}

/// The answer to a registration.
pub open spec fn registration_outcome(
    teams: Seq<TeamRecord>,
    name: Seq<char>,
    ip_address: Seq<char>,
    port: u16,
) -> RegistrationAttempt {
    if has_name(teams, name) {
        RegistrationAttempt::Failure(RegistrationFailureReason::NameTaken)
    } else if has_address(teams, ip_address, port) {
        RegistrationAttempt::Failure(RegistrationFailureReason::IPAddressWithPortTaken)
    } else {
        RegistrationAttempt::Success
    }
}

/// The registry after a registration: an accepted team joins at the end,
/// disconnected and without agents; a refused one changes nothing.
pub open spec fn after_registration(
    teams: Seq<TeamRecord>,
    name: Seq<char>,
    ip_address: Seq<char>,
    port: u16,
) -> Seq<TeamRecord> {
    if registration_outcome(teams, name, ip_address, port) is Success {
        teams.push(newcomer(name, ip_address, port))
    } else {
        teams
    }
}

/// The answer to an unregistration.
pub open spec fn unregistration_outcome(
    teams: Seq<TeamRecord>,
    name: Seq<char>,
) -> UnregistrationAttempt {
    if has_name(teams, name) {
        UnregistrationAttempt::Success
    } else {
        UnregistrationAttempt::Failure(UnregistrationFailureReason::NameNotRegistered)
    }
}

/// The registry after an unregistration: the named team is gone with its
/// flock, and the others keep their order.
pub open spec fn after_unregistration(teams: Seq<TeamRecord>, name: Seq<char>) -> Seq<
    TeamRecord,
> {
    if has_name(teams, name) {
        teams.remove(position(teams, name))
    } else {
        teams
    }
}

/// The registry after a liveness report: the named team carries the
/// reported flag, and nothing else differs.
pub open spec fn after_liveness(teams: Seq<TeamRecord>, name: Seq<char>, connected: bool) -> Seq<
    TeamRecord,
> {
    Seq::new(
        teams.len(),
        |i: int|
            if teams[i].name == name {
                TeamRecord { connected, ..teams[i] }
            } else {
                teams[i]
            },
    )
}

/// The registry after the wishes of the decision service of the team that
/// goes by `name`: the agents of that team are on the courses asked for, and
/// nothing else differs.
pub open spec fn after_intent(
    teams: Seq<TeamRecord>,
    name: Seq<char>,
    wishes: Seq<(FlockId, Intent)>,
) -> Seq<TeamRecord> {
    Seq::new(
        teams.len(),
        |i: int|
            if teams[i].name == name {
                TeamRecord { flock: after_wishes(teams[i].flock, wishes), ..teams[i] }
            } else {
                teams[i]
            },
    )
}

/// Every team of `after` is the team of `before` at its place with `n`
/// more agents.
pub open spec fn all_grown<G: Fn(u64, u64, u64, u64) -> Boid>(
    before: Seq<TeamRecord>,
    after: Seq<TeamRecord>,
    n: nat,
    shape: &G,
) -> bool {
    &&& after.len() == before.len()
    &&& forall|i: int| 0 <= i < before.len() ==> grown(before[i], #[trigger] after[i], n, shape)
}

/// The team that goes by `name` has `n` more agents, and the others are as
/// they were. Without such a team nothing differs.
pub open spec fn one_grown<G: Fn(u64, u64, u64, u64) -> Boid>(
    before: Seq<TeamRecord>,
    after: Seq<TeamRecord>,
    name: Seq<char>,
    n: nat,
    shape: &G,
) -> bool {
    &&& after.len() == before.len()
    &&& forall|i: int|
        0 <= i < before.len() ==> if before[i].name == name {
            grown(before[i], #[trigger] after[i], n, shape)
        } else {
            after[i] == before[i]
        }
}

/// Every team of `after` is the team of `before` at its place with every
/// agent advanced once.
pub open spec fn all_advanced<F: Fn(Boid) -> Boid>(
    before: Seq<TeamRecord>,
    after: Seq<TeamRecord>,
    advance: &F,
) -> bool {
    &&& after.len() == before.len()
    &&& forall|i: int| 0 <= i < before.len() ==> advanced(before[i], #[trigger] after[i], advance)
}

/// Whether two texts are the same.
fn same_text(a: &String, b: &String) -> (same: bool)
    ensures
        same == (a@ == b@),
{
    *a == *b
}

/// The registry of teams.
pub struct Teams {
    teams: Vec<Team>,
}

/// The teams of a list as plain data.
spec fn records(teams: Seq<Team>) -> Seq<TeamRecord> {
    teams.map_values(|team: Team| team@)
}

impl View for Teams {
    type V = Seq<TeamRecord>;

    closed spec fn view(&self) -> Seq<TeamRecord> {
        records(self.teams@)
    }
}

impl Teams {
    /// Holds of every registry that executable code can reach.
    #[verifier::type_invariant]
    pub open spec fn lawful(self) -> bool {
        sound(self@)
    }

    /// Takes the teams out and leaves the registry empty. A registry is
    /// changed on the list taken out, and given the list back when the list
    /// is sound again.
    fn take(&mut self) -> (teams: Vec<Team>)
        ensures
            records(teams@) == old(self)@,
            sound(old(self)@),
            final(self)@ == Seq::<TeamRecord>::empty(),
    {
        proof {
            use_type_invariant(&*self);
        }
        let mut teams: Vec<Team> = Vec::new();
        std::mem::swap(&mut self.teams, &mut teams);
        assert(self@ =~= Seq::<TeamRecord>::empty());
        teams
    }

    /// Gives the registry its teams.
    fn put(&mut self, teams: Vec<Team>)
        requires
            sound(records(teams@)),
        ensures
            final(self)@ == records(teams@),
            sound(final(self)@),
    {
        self.teams = teams;
    }

    /// A registry without teams.
    pub fn new() -> (registry: Teams)
        ensures
            registry@ == Seq::<TeamRecord>::empty(),
    {
        let registry = Teams { teams: Vec::new() };
        assert(registry@ =~= Seq::<TeamRecord>::empty());
        registry
    }

    /// Number of registered teams. As at any time, no two of them share a
    /// name, and no two share a host and port.
    pub fn len(&self) -> (count: usize)
        ensures
            count == self@.len(),
            sound(self@),
    {
        proof {
            use_type_invariant(self);
        }
        self.teams.len()
    }

    /// The team at place `i`.
    pub fn team(&self, i: usize) -> (team: &Team)
        requires
            i < self@.len(),
        ensures
            team@ == self@[i as int],
    {
        &self.teams[i]
    }

    /// The place of the team that goes by `name`.
    pub fn find(&self, name: &str) -> (place: Option<usize>)
        ensures
            match place {
                Some(i) => i < self@.len() && self@[i as int].name == name@ && i == position(
                    self@,
                    name@,
                ),
                None => !has_name(self@, name@),
            },
    {
        proof {
            use_type_invariant(self);
        }
        let wanted = name.to_owned();
        let mut i: usize = 0;
        while i < self.teams.len()
            invariant
                i <= self@.len(),
                self@.len() == self.teams@.len(),
                wanted@ == name@,
                sound(self@),
                forall|j: int| 0 <= j < i ==> (#[trigger] self@[j]).name != name@,
            decreases self@.len() - i,
        {
            if same_text(self.teams[i].name(), &wanted) {
                assert(self@[i as int].name == name@);
                assert(has_name(self@, name@));
                return Some(i);
            }
            i = i + 1;
        }
        None
    }

    /// The team that goes by `name`.
    pub fn get(&self, name: &str) -> (team: Option<&Team>)
        ensures
            match team {
                Some(team) => has_name(self@, name@) && team@ == self@[position(self@, name@)],
                None => !has_name(self@, name@),
            },
    {
        match self.find(name) {
            Some(i) => Some(&self.teams[i]),
            None => None,
        }
    }

    /// Whether no team's service listens on `ip_address` and `port`.
    pub fn available(&self, ip_address: &str, port: u16) -> (free: bool)
        ensures
            free == !has_address(self@, ip_address@, port),
    {
        let wanted = ip_address.to_owned();
        let mut i: usize = 0;
        while i < self.teams.len()
            invariant
                i <= self@.len(),
                self@.len() == self.teams@.len(),
                wanted@ == ip_address@,
                forall|j: int|
                    0 <= j < i ==> !((#[trigger] self@[j]).ip_address == ip_address@ && self@[j].port
                        == port),
            decreases self@.len() - i,
        {
            let team = &self.teams[i];
            if team.port() == port && same_text(team.ip_address(), &wanted) {
                assert(self@[i as int].ip_address == ip_address@ && self@[i as int].port == port);
                return false;
            }
            i = i + 1;
        }
        true
    }

    /// Records a liveness report for the team that goes by `name`, and tells
    /// whether there is such a team. A report on an unknown name changes
    /// nothing: it never makes a team.
    pub fn set_liveness(&mut self, name: &str, connected: bool) -> (known: bool)
        ensures
            known == has_name(old(self)@, name@),
            final(self)@ == after_liveness(old(self)@, name@, connected),
            sound(final(self)@),
    {
        let found = self.find(name);
        let mut teams = self.take();
        let known = match found {
            Some(i) => {
                teams[i].set_connection_status(connected);
                true
            },
            None => false,
        };
        assert(records(teams@) =~= after_liveness(old(self)@, name@, connected));
        self.put(teams);
        known
    }

    /// Puts the agents of the team that goes by `name` on the courses that
    /// its decision service asks for, and tells whether there is such a
    /// team. No message does this: it is here for those who decide that an
    /// answer of a decision service is to steer the agents.
    pub fn apply_intent(&mut self, name: &str, wishes: &Vec<(FlockId, Intent)>) -> (known: bool)
        ensures
            known == has_name(old(self)@, name@),
            final(self)@ == after_intent(old(self)@, name@, wishes@),
            sound(final(self)@),
    {
        let found = self.find(name);
        let mut teams = self.take();
        let known = match found {
            Some(i) => {
                teams[i].apply_intent(wishes);
                true
            },
            None => false,
        };
        assert(records(teams@) =~= after_intent(old(self)@, name@, wishes@));
        self.put(teams);
        known
    }

    /// Adds `n` agents to the flock of the team that goes by `name`. Without
    /// such a team nothing happens, and that is no error.
    pub fn spawn_in_team<G: Fn(u64, u64, u64, u64) -> Boid>(
        &mut self,
        name: String,
        n: usize,
        source: &mut random::Xorshift128Plus,
        shape: &G,
    )
        requires
            shapes(shape),
        ensures
            one_grown(old(self)@, final(self)@, name@, n as nat, shape),
            !has_name(old(self)@, name@) ==> final(self)@ == old(self)@,
            sound(final(self)@),
    {
        let found = self.find(name.as_str());
        let mut teams = self.take();
        match found {
            Some(i) => {
                teams[i].spawn(n, source, shape);
                assert(records(teams@) =~= old(self)@.update(i as int, teams@[i as int]@));
            },
            None => {},
        }
        self.put(teams);
    }
}

impl Default for Teams {
    /// A registry without teams.
    fn default() -> (registry: Teams)
        ensures
            registry@ == Seq::<TeamRecord>::empty(),
    {
        Teams::new()
    }
}

impl Clone for Teams {
    /// A copy with the same teams in the same order; like what it copies, it
    /// is sound.
    fn clone(&self) -> (copy: Teams)
        ensures
            copy@ == self@,
            sound(copy@),
    {
        proof {
            use_type_invariant(self);
        }
        let mut teams: Vec<Team> = Vec::new();
        let mut i: usize = 0;
        while i < self.teams.len()
            invariant
                i <= self.teams@.len(),
                teams@.len() == i,
                forall|j: int| 0 <= j < i ==> (#[trigger] teams@[j])@ == self.teams@[j]@,
            decreases self.teams@.len() - i,
        {
            teams.push(self.teams[i].clone());
            i = i + 1;
        }
        assert(records(teams@) =~= self@);
        Teams { teams }
    }
}

impl TeamRepository for Teams {
    /// Admits a team unless its name or its host and port are in use. The
    /// name is looked at first.
    fn register(&mut self, registration: Registration) -> (attempt: RegistrationAttempt)
        ensures
            attempt == registration_outcome(
                old(self)@,
                registration.name@,
                registration.ip_address@,
                registration.port,
            ),
            final(self)@ == after_registration(
                old(self)@,
                registration.name@,
                registration.ip_address@,
                registration.port,
            ),
            sound(final(self)@),
    {
        proof {
            use_type_invariant(&*self);
        }
        if self.find(registration.name.as_str()).is_some() {
            return RegistrationAttempt::Failure(RegistrationFailureReason::NameTaken);
        }
        if !self.available(registration.ip_address.as_str(), registration.port) {
            return RegistrationAttempt::Failure(RegistrationFailureReason::IPAddressWithPortTaken);
        }
        let mut teams = self.take();
        teams.push(Team::from(registration));
        assert(records(teams@) =~= old(self)@.push(
            newcomer(registration.name@, registration.ip_address@, registration.port),
        ));
        self.put(teams);
        RegistrationAttempt::Success
    }

    /// Lets the named team go, with its flock.
    fn unregister(&mut self, unregistration: Unregistration) -> (attempt: UnregistrationAttempt)
        ensures
            attempt == unregistration_outcome(old(self)@, unregistration.name@),
            final(self)@ == after_unregistration(old(self)@, unregistration.name@),
            sound(final(self)@),
    {
        proof {
            use_type_invariant(&*self);
        }
        match self.find(unregistration.name.as_str()) {
            Some(i) => {
                let mut teams = self.take();
                teams.remove(i);
                assert(records(teams@) =~= old(self)@.remove(i as int));
                self.put(teams);
                UnregistrationAttempt::Success
            },
            None => UnregistrationAttempt::Failure(UnregistrationFailureReason::NameNotRegistered),
        }
    }
}

impl Spawn for Teams {
    /// Adds `n` agents to the flock of every team.
    fn spawn<G: Fn(u64, u64, u64, u64) -> Boid>(
        &mut self,
        n: usize,
        source: &mut random::Xorshift128Plus,
        shape: &G,
    )
        ensures
            all_grown(old(self)@, final(self)@, n as nat, shape),
            sound(final(self)@),
    {
        let mut teams = self.take();
        let mut i: usize = 0;
        while i < teams.len()
            invariant
                i <= teams@.len(),
                teams@.len() == old(self)@.len(),
                shapes(shape),
                forall|j: int|
                    0 <= j < i ==> grown(old(self)@[j], (#[trigger] teams@[j])@, n as nat, shape),
                forall|j: int| i <= j < teams@.len() ==> (#[trigger] teams@[j])@ == old(self)@[j],
            decreases teams@.len() - i,
        {
            teams[i].spawn(n, source, shape);
            i = i + 1;
        }
        proof {
            let after = records(teams@);
            assert forall|j: int| 0 <= j < after.len() implies grown(
                old(self)@[j],
                #[trigger] after[j],
                n as nat,
                shape,
            ) by {
                assert(after[j] == teams@[j]@);
            }
        }
        self.put(teams);
    }
}

impl Simulate for Teams {
    /// Advances every agent of every team once.
    fn step<F: Fn(Boid) -> Boid>(&mut self, advance: &F)
        ensures
            all_advanced(old(self)@, final(self)@, advance),
            sound(final(self)@),
    {
        let mut teams = self.take();
        let mut i: usize = 0;
        while i < teams.len()
            invariant
                i <= teams@.len(),
                teams@.len() == old(self)@.len(),
                advances(advance),
                forall|j: int|
                    0 <= j < i ==> advanced(old(self)@[j], (#[trigger] teams@[j])@, advance),
                forall|j: int| i <= j < teams@.len() ==> (#[trigger] teams@[j])@ == old(self)@[j],
            decreases teams@.len() - i,
        {
            teams[i].step(advance);
            i = i + 1;
        }
        proof {
            let after = records(teams@);
            assert forall|j: int| 0 <= j < after.len() implies advanced(
                old(self)@[j],
                #[trigger] after[j],
                advance,
            ) by {
                assert(after[j] == teams@[j]@);
            }
        }
        self.put(teams);
    }
}

} // verus!
