//! What holds of the registry whatever the teams and the messages.

use vstd::prelude::*;

use crate::simulation::boid::Boid;
use crate::simulation::registration::{
    RegistrationAttempt, RegistrationFailureReason, UnregistrationAttempt,
    UnregistrationFailureReason,
};
use crate::simulation::team::{advanced, grown, newcomer, TeamRecord};
use crate::simulation::teams::{
    after_intent, after_liveness, after_registration, after_unregistration, all_advanced, all_grown,
    has_address, has_name, one_grown, position, registration_outcome, sound,
    unregistration_outcome,
};
use crate::brain::model::Intent;
use crate::simulation::communication::Message;
use crate::simulation::flock::{after_wishes, FlockId};
use crate::simulation::address::{brain_address, heartbeat_address, uri_parse};
use crate::simulation::{follows, polled, polls, probes, Reaction};

verus! {

/// A registration leaves a sound registry sound.
pub proof fn law_registration_keeps_sound(
    teams: Seq<TeamRecord>,
    name: Seq<char>,
    ip_address: Seq<char>,
    port: u16,
)
    requires
        sound(teams),
    ensures
        sound(after_registration(teams, name, ip_address, port)),
{
    let after = after_registration(teams, name, ip_address, port);
    if registration_outcome(teams, name, ip_address, port) is Success {
        assert forall|i: int, j: int| 0 <= i < j < after.len() implies {
            &&& (#[trigger] after[i]).name != (#[trigger] after[j]).name
            &&& !(after[i].ip_address == after[j].ip_address && after[i].port == after[j].port)
        } by {
            if j == teams.len() {
                assert(after[i] == teams[i]);
            }
        }
    }
}

/// An unregistration leaves a sound registry sound.
pub proof fn law_unregistration_keeps_sound(teams: Seq<TeamRecord>, name: Seq<char>)
    requires
        sound(teams),
    ensures
        sound(after_unregistration(teams, name)),
{
}

/// A liveness report leaves a sound registry sound.
pub proof fn law_liveness_keeps_sound(teams: Seq<TeamRecord>, name: Seq<char>, connected: bool)
    requires
        sound(teams),
    ensures
        sound(after_liveness(teams, name, connected)),
{
}

/// Two teams with different names and different addresses both join a
/// registry that knows neither of them, and the registry is then larger by
/// two.
pub proof fn law_two_strangers_join(
    teams: Seq<TeamRecord>,
    first_name: Seq<char>,
    first_ip_address: Seq<char>,
    first_port: u16,
    second_name: Seq<char>,
    second_ip_address: Seq<char>,
    second_port: u16,
)
    requires
        first_name != second_name,
        !(first_ip_address == second_ip_address && first_port == second_port),
        !has_name(teams, first_name),
        !has_name(teams, second_name),
        !has_address(teams, first_ip_address, first_port),
        !has_address(teams, second_ip_address, second_port),
    ensures
        registration_outcome(teams, first_name, first_ip_address, first_port) is Success,
        registration_outcome(
            after_registration(teams, first_name, first_ip_address, first_port),
            second_name,
            second_ip_address,
            second_port,
        ) is Success,
        after_registration(
            after_registration(teams, first_name, first_ip_address, first_port),
            second_name,
            second_ip_address,
            second_port,
        ).len() == teams.len() + 2,
{
    let middle = after_registration(teams, first_name, first_ip_address, first_port);
    assert(middle == teams.push(newcomer(first_name, first_ip_address, first_port)));
    assert forall|i: int| 0 <= i < middle.len() implies (#[trigger] middle[i]).name
        != second_name by {
        if i < teams.len() {
            assert(teams[i].name != second_name);
        }
    }
    assert forall|i: int| 0 <= i < middle.len() implies !((#[trigger] middle[i]).ip_address
        == second_ip_address && middle[i].port == second_port) by {
        if i < teams.len() {
            assert(!(teams[i].ip_address == second_ip_address && teams[i].port == second_port));
        }
    }
}

/// A registration under a name that is in use is refused for the name,
/// whatever its address, and changes nothing.
pub proof fn law_taken_name_is_refused(
    teams: Seq<TeamRecord>,
    name: Seq<char>,
    ip_address: Seq<char>,
    port: u16,
)
    requires
        has_name(teams, name),
    ensures
        registration_outcome(teams, name, ip_address, port) == RegistrationAttempt::Failure(
            RegistrationFailureReason::NameTaken,
        ),
        after_registration(teams, name, ip_address, port) == teams,
{
}

/// A registration under a new name at a host and port that are in use is
/// refused for the address, and changes nothing.
pub proof fn law_taken_address_is_refused(
    teams: Seq<TeamRecord>,
    name: Seq<char>,
    ip_address: Seq<char>,
    port: u16,
)
    requires
        !has_name(teams, name),
        has_address(teams, ip_address, port),
    ensures
        registration_outcome(teams, name, ip_address, port) == RegistrationAttempt::Failure(
            RegistrationFailureReason::IPAddressWithPortTaken,
        ),
        after_registration(teams, name, ip_address, port) == teams,
{
}

/// A team that has joined is in the registry under its name and address, and
/// is the only one under that name.
pub proof fn law_joined_team_is_listed(
    teams: Seq<TeamRecord>,
    name: Seq<char>,
    ip_address: Seq<char>,
    port: u16,
)
    requires
        sound(teams),
        registration_outcome(teams, name, ip_address, port) is Success,
    ensures
        has_name(after_registration(teams, name, ip_address, port), name),
        has_address(after_registration(teams, name, ip_address, port), ip_address, port),
        position(after_registration(teams, name, ip_address, port), name) == teams.len(),
        after_registration(teams, name, ip_address, port)[teams.len() as int] == newcomer(
            name,
            ip_address,
            port,
        ),
{
    let after = after_registration(teams, name, ip_address, port);
    assert(after[teams.len() as int].name == name);
    let p = position(after, name);
    if p < teams.len() {
        assert(teams[p].name == name);
    }
}

/// An unregistration under a name that no team goes by is refused and
/// changes nothing.
pub proof fn law_stranger_cannot_leave(teams: Seq<TeamRecord>, name: Seq<char>)
    requires
        !has_name(teams, name),
    ensures
        unregistration_outcome(teams, name) == UnregistrationAttempt::Failure(
            UnregistrationFailureReason::NameNotRegistered,
        ),
        after_unregistration(teams, name) == teams,
{
}

/// A team that has left is no longer in the registry, its name and address
/// are free again, and every other team is still there.
pub proof fn law_left_team_is_gone(teams: Seq<TeamRecord>, name: Seq<char>)
    requires
        sound(teams),
        has_name(teams, name),
    ensures
        unregistration_outcome(teams, name) is Success,
        !has_name(after_unregistration(teams, name), name),
        after_unregistration(teams, name).len() == teams.len() - 1,
        !has_address(
            after_unregistration(teams, name),
            teams[position(teams, name)].ip_address,
            teams[position(teams, name)].port,
        ),
        forall|other: Seq<char>|
            other != name ==> (has_name(after_unregistration(teams, name), other) <==> has_name(
                teams,
                other,
            )),
{
    let p = position(teams, name);
    let after = after_unregistration(teams, name);
    assert forall|i: int| 0 <= i < after.len() implies (#[trigger] after[i]).name != name && !(
    after[i].ip_address == teams[p].ip_address && after[i].port == teams[p].port) by {
        if i < p {
            assert(after[i] == teams[i]);
        } else {
            assert(after[i] == teams[i + 1]);
        }
    }
    assert forall|other: Seq<char>| other != name implies (has_name(after, other) <==> has_name(
        teams,
        other,
    )) by {
        if has_name(after, other) {
            let i = choose|i: int| 0 <= i < after.len() && (#[trigger] after[i]).name == other;
            if i < p {
                assert(teams[i].name == other);
            } else {
                assert(teams[i + 1].name == other);
            }
        }
        if has_name(teams, other) {
            let i = choose|i: int| 0 <= i < teams.len() && (#[trigger] teams[i]).name == other;
            if i < p {
                assert(after[i].name == other);
            } else {
                assert(after[i - 1].name == other);
            }
        }
    }
}

/// A liveness report never makes or removes a team: the registry keeps its
/// size and its names. A report on a name that no team goes by changes
/// nothing at all.
pub proof fn law_liveness_makes_no_team(teams: Seq<TeamRecord>, name: Seq<char>, connected: bool)
    ensures
        after_liveness(teams, name, connected).len() == teams.len(),
        forall|other: Seq<char>|
            has_name(after_liveness(teams, name, connected), other) <==> has_name(teams, other),
        !has_name(teams, name) ==> after_liveness(teams, name, connected) == teams,
{
    let after = after_liveness(teams, name, connected);
    assert forall|other: Seq<char>| has_name(after, other) <==> has_name(teams, other) by {
        if has_name(after, other) {
            let i = choose|i: int| 0 <= i < after.len() && (#[trigger] after[i]).name == other;
            assert(teams[i].name == other);
        }
        if has_name(teams, other) {
            let i = choose|i: int| 0 <= i < teams.len() && (#[trigger] teams[i]).name == other;
            assert(after[i].name == other);
        }
    }
    if !has_name(teams, name) {
        assert forall|i: int| 0 <= i < teams.len() implies after[i] == teams[i] by {
            assert(teams[i].name != name);
        }
        assert(after =~= teams);
    }
}

/// A liveness report on a team sets that team's flag and leaves its name,
/// address and agents as they were.
pub proof fn law_liveness_sets_the_flag(
    teams: Seq<TeamRecord>,
    name: Seq<char>,
    connected: bool,
)
    requires
        has_name(teams, name),
    ensures
        after_liveness(teams, name, connected)[position(teams, name)] == (TeamRecord {
            connected,
            ..teams[position(teams, name)]
        }),
{
}

/// New agents for one team: the flock of that team is larger by exactly the
/// number asked for, and every other team is as it was.
pub proof fn law_spawn_for_one<G: Fn(u64, u64, u64, u64) -> Boid>(
    before: Seq<TeamRecord>,
    after: Seq<TeamRecord>,
    name: Seq<char>,
    n: nat,
    shape: &G,
)
    requires
        has_name(before, name),
        one_grown(before, after, name, n, shape),
    ensures
        after[position(before, name)].flock.len() == before[position(before, name)].flock.len()
            + n,
        forall|i: int|
            0 <= i < before.len() && before[i].name != name ==> #[trigger] after[i] == before[i],
        forall|i: int|
            0 <= i < before.len() ==> (#[trigger] after[i]).name == before[i].name && after[i].connected
                == before[i].connected,
{
    assert forall|i: int| 0 <= i < before.len() implies (#[trigger] after[i]).name
        == before[i].name && after[i].connected == before[i].connected by {
        if before[i].name == name {
            assert(grown(before[i], after[i], n, shape));
        }
    }
}

/// New agents for a name that no team goes by: nothing differs.
pub proof fn law_spawn_for_stranger<G: Fn(u64, u64, u64, u64) -> Boid>(
    before: Seq<TeamRecord>,
    after: Seq<TeamRecord>,
    name: Seq<char>,
    n: nat,
    shape: &G,
)
    requires
        !has_name(before, name),
        one_grown(before, after, name, n, shape),
    ensures
        after == before,
{
    assert forall|i: int| 0 <= i < before.len() implies after[i] == before[i] by {
        assert(before[i].name != name);
    }
    assert(after =~= before);
}

/// New agents for all: the flock of every team is larger by exactly the
/// number asked for, and no agent that was there is lost or changed.
pub proof fn law_spawn_for_all<G: Fn(u64, u64, u64, u64) -> Boid>(
    before: Seq<TeamRecord>,
    after: Seq<TeamRecord>,
    n: nat,
    shape: &G,
)
    requires
        all_grown(before, after, n, shape),
    ensures
        after.len() == before.len(),
        forall|i: int|
            0 <= i < before.len() ==> (#[trigger] after[i]).flock.len() == before[i].flock.len()
                + n,
        forall|i: int|
            0 <= i < before.len() ==> before[i].flock.submap_of((#[trigger] after[i]).flock),
{
    assert forall|i: int| 0 <= i < before.len() implies (#[trigger] after[i]).flock.len()
        == before[i].flock.len() + n && before[i].flock.submap_of(after[i].flock) by {
        assert(grown(before[i], after[i], n, shape));
    }
}

/// A team that is asked to take no new agent is as it was.
pub proof fn law_no_agents_no_change<G: Fn(u64, u64, u64, u64) -> Boid>(
    before: TeamRecord,
    after: TeamRecord,
    shape: &G,
)
    requires
        grown(before, after, 0, shape),
    ensures
        after == before,
{
    vstd::set_lib::lemma_subset_equality(before.flock.dom(), after.flock.dom());
    assert(after.flock =~= before.flock);
}

/// No new agents for all, or for one team: the registry is as it was.
pub proof fn law_spawning_none_changes_nothing<G: Fn(u64, u64, u64, u64) -> Boid>(
    before: Seq<TeamRecord>,
    after: Seq<TeamRecord>,
    name: Seq<char>,
    shape: &G,
)
    requires
        all_grown(before, after, 0, shape) || one_grown(before, after, name, 0, shape),
    ensures
        after == before,
{
    assert forall|i: int| 0 <= i < before.len() implies after[i] == before[i] by {
        if all_grown(before, after, 0, shape) {
            assert(grown(before[i], after[i], 0, shape));
            law_no_agents_no_change(before[i], after[i], shape);
        } else if before[i].name == name {
            assert(grown(before[i], after[i], 0, shape));
            law_no_agents_no_change(before[i], after[i], shape);
        }
    }
    assert(after =~= before);
}

/// Where every team keeps its name and address, soundness is kept.
proof fn lemma_same_membership_keeps_sound(before: Seq<TeamRecord>, after: Seq<TeamRecord>)
    requires
        sound(before),
        after.len() == before.len(),
        forall|i: int|
            0 <= i < before.len() ==> {
                &&& (#[trigger] after[i]).name == before[i].name
                &&& after[i].ip_address == before[i].ip_address
                &&& after[i].port == before[i].port
            },
    ensures
        sound(after),
{
    assert forall|i: int, j: int| 0 <= i < j < after.len() implies {
        &&& (#[trigger] after[i]).name != (#[trigger] after[j]).name
        &&& !(after[i].ip_address == after[j].ip_address && after[i].port == after[j].port)
    } by {
        assert(after[i].name == before[i].name);
        assert(after[j].name == before[j].name);
    }
}

/// New agents for all leave a sound registry sound.
pub proof fn law_spawn_for_all_keeps_sound<G: Fn(u64, u64, u64, u64) -> Boid>(
    before: Seq<TeamRecord>,
    after: Seq<TeamRecord>,
    n: nat,
    shape: &G,
)
    requires
        sound(before),
        all_grown(before, after, n, shape),
    ensures
        sound(after),
{
    assert forall|i: int| 0 <= i < before.len() implies {
        &&& (#[trigger] after[i]).name == before[i].name
        &&& after[i].ip_address == before[i].ip_address
        &&& after[i].port == before[i].port
    } by {
        assert(grown(before[i], after[i], n, shape));
    }
    lemma_same_membership_keeps_sound(before, after);
}

/// New agents for one team leave a sound registry sound.
pub proof fn law_spawn_for_one_keeps_sound<G: Fn(u64, u64, u64, u64) -> Boid>(
    before: Seq<TeamRecord>,
    after: Seq<TeamRecord>,
    name: Seq<char>,
    n: nat,
    shape: &G,
)
    requires
        sound(before),
        one_grown(before, after, name, n, shape),
    ensures
        sound(after),
{
    assert forall|i: int| 0 <= i < before.len() implies {
        &&& (#[trigger] after[i]).name == before[i].name
        &&& after[i].ip_address == before[i].ip_address
        &&& after[i].port == before[i].port
    } by {
        if before[i].name == name {
            assert(grown(before[i], after[i], n, shape));
        }
    }
    lemma_same_membership_keeps_sound(before, after);
}

/// A step leaves a sound registry sound, and every team keeps its agents'
/// identifiers: no agent is made or lost by moving.
pub proof fn law_step_keeps_sound_and_agents<F: Fn(Boid) -> Boid>(
    before: Seq<TeamRecord>,
    after: Seq<TeamRecord>,
    advance: &F,
)
    requires
        sound(before),
        all_advanced(before, after, advance),
    ensures
        sound(after),
        after.len() == before.len(),
        forall|i: int|
            0 <= i < before.len() ==> {
                &&& (#[trigger] after[i]).flock.dom() == before[i].flock.dom()
                &&& after[i].connected == before[i].connected
            },
{
    assert forall|i: int| 0 <= i < before.len() implies {
        &&& (#[trigger] after[i]).name == before[i].name
        &&& after[i].ip_address == before[i].ip_address
        &&& after[i].port == before[i].port
        &&& after[i].flock.dom() == before[i].flock.dom()
        &&& after[i].connected == before[i].connected
    } by {
        assert(advanced(before[i], after[i], advance));
    }
    lemma_same_membership_keeps_sound(before, after);
}

/// When the liveness address of every team parses, the probe list has every
/// team, in the order of the registry, each with its own address.
pub proof fn law_probes_reach_every_team(teams: Seq<TeamRecord>)
    requires
        forall|i: int|
            0 <= i < teams.len() ==> uri_parse(
                heartbeat_address((#[trigger] teams[i]).ip_address, teams[i].port),
            ) is Ok,
    ensures
        probes(teams).len() == teams.len(),
        forall|i: int|
            0 <= i < teams.len() ==> {
                &&& (#[trigger] probes(teams)[i]).0 == teams[i].name
                &&& uri_parse(heartbeat_address(teams[i].ip_address, teams[i].port)) == Ok::<
                    hyper::Uri,
                    hyper::http::uri::InvalidUri,
                >(probes(teams)[i].1)
            },
    decreases teams.len(),
{
    if teams.len() > 0 {
        let rest = teams.drop_last();
        assert forall|i: int| 0 <= i < rest.len() implies uri_parse(
            heartbeat_address((#[trigger] rest[i]).ip_address, rest[i].port),
        ) is Ok by {
            assert(rest[i] == teams[i]);
        }
        law_probes_reach_every_team(rest);
        assert(teams.last() == teams[teams.len() - 1]);
        assert forall|i: int| 0 <= i < teams.len() implies {
            &&& (#[trigger] probes(teams)[i]).0 == teams[i].name
            &&& uri_parse(heartbeat_address(teams[i].ip_address, teams[i].port)) == Ok::<
                hyper::Uri,
                hyper::http::uri::InvalidUri,
            >(probes(teams)[i].1)
        } by {
            if i < rest.len() {
                assert(probes(teams)[i] == probes(rest)[i]);
                assert(rest[i] == teams[i]);
            }
        }
    }
}

/// The probe list never has more entries than there are teams, and a team
/// whose liveness address does not parse is passed over.
pub proof fn law_probes_pass_over_the_unreachable(teams: Seq<TeamRecord>)
    ensures
        probes(teams).len() <= teams.len(),
        teams.len() > 0 && uri_parse(
            heartbeat_address(teams.last().ip_address, teams.last().port),
        ) is Err ==> probes(teams) == probes(teams.drop_last()),
    decreases teams.len(),
{
    if teams.len() > 0 {
        law_probes_pass_over_the_unreachable(teams.drop_last());
    }
}

/// Every entry of the poll list stands for a team that is connected and has
/// agents, and carries that team's agents.
pub proof fn law_polls_are_of_live_flocks(teams: Seq<TeamRecord>, k: int)
    requires
        0 <= k < polls(teams).len(),
    ensures
        exists|i: int|
            {
                &&& 0 <= i < teams.len()
                &&& (#[trigger] teams[i]).name == polls(teams)[k].0
                &&& teams[i].flock == polls(teams)[k].2
                &&& teams[i].connected
                &&& teams[i].flock.len() != 0
            },
    decreases teams.len(),
{
    if teams.len() > 0 {
        let rest = teams.drop_last();
        if polled(teams.last()) && k == polls(rest).len() {
            assert(teams[teams.len() - 1] == teams.last());
        } else {
            law_polls_are_of_live_flocks(rest, k);
            let i = choose|i: int|
                {
                    &&& 0 <= i < rest.len()
                    &&& (#[trigger] rest[i]).name == polls(rest)[k].0
                    &&& rest[i].flock == polls(rest)[k].2
                    &&& rest[i].connected
                    &&& rest[i].flock.len() != 0
                };
            assert(teams[i] == rest[i]);
        }
    }
}

/// Every entry of the poll list carries the address of its own team: what
/// the parser makes of that team's brain address.
pub proof fn law_polls_carry_their_own_address(teams: Seq<TeamRecord>, k: int)
    requires
        0 <= k < polls(teams).len(),
    ensures
        exists|i: int|
            {
                &&& 0 <= i < teams.len()
                &&& (#[trigger] teams[i]).name == polls(teams)[k].0
                &&& uri_parse(brain_address(teams[i].ip_address, teams[i].port)) == Ok::<
                    hyper::Uri,
                    hyper::http::uri::InvalidUri,
                >(polls(teams)[k].1)
            },
    decreases teams.len(),
{
    if teams.len() > 0 {
        let rest = teams.drop_last();
        if polled(teams.last()) && k == polls(rest).len() {
            assert(teams[teams.len() - 1] == teams.last());
        } else {
            law_polls_carry_their_own_address(rest, k);
            let i = choose|i: int|
                {
                    &&& 0 <= i < rest.len()
                    &&& (#[trigger] rest[i]).name == polls(rest)[k].0
                    &&& uri_parse(brain_address(rest[i].ip_address, rest[i].port)) == Ok::<
                        hyper::Uri,
                        hyper::http::uri::InvalidUri,
                    >(polls(rest)[k].1)
                };
            assert(teams[i] == rest[i]);
        }
    }
}

/// No team stands on the poll list twice: two entries have different names.
pub proof fn law_polls_name_each_team_once(teams: Seq<TeamRecord>, k: int, l: int)
    requires
        sound(teams),
        0 <= k < l < polls(teams).len(),
    ensures
        polls(teams)[k].0 != polls(teams)[l].0,
    decreases teams.len(),
{
    if teams.len() > 0 {
        let rest = teams.drop_last();
        let last = teams.len() - 1;
        assert(teams.last() == teams[last]);
        assert(sound(rest)) by {
            assert forall|a: int, b: int| 0 <= a < b < rest.len() implies {
                &&& (#[trigger] rest[a]).name != (#[trigger] rest[b]).name
                &&& !(rest[a].ip_address == rest[b].ip_address && rest[a].port == rest[b].port)
            } by {
                assert(rest[a] == teams[a]);
                assert(rest[b] == teams[b]);
            }
        }
        if l < polls(rest).len() {
            law_polls_name_each_team_once(rest, k, l);
        } else {
            law_polls_are_of_live_flocks(rest, k);
            let i = choose|i: int|
                {
                    &&& 0 <= i < rest.len()
                    &&& (#[trigger] rest[i]).name == polls(rest)[k].0
                    &&& rest[i].flock == polls(rest)[k].2
                    &&& rest[i].connected
                    &&& rest[i].flock.len() != 0
                };
            assert(rest[i] == teams[i]);
            assert(teams[i].name != teams[last].name);
            assert(polls(teams)[k] == polls(rest)[k]);
            assert(polls(teams)[l].0 == teams[last].name);
        }
    }
}

/// Every entry of the probe list stands for a team, and carries what the
/// parser makes of that team's liveness address.
pub proof fn law_probes_are_of_teams(teams: Seq<TeamRecord>, k: int)
    requires
        0 <= k < probes(teams).len(),
    ensures
        exists|i: int|
            {
                &&& 0 <= i < teams.len()
                &&& (#[trigger] teams[i]).name == probes(teams)[k].0
                &&& uri_parse(heartbeat_address(teams[i].ip_address, teams[i].port)) == Ok::<
                    hyper::Uri,
                    hyper::http::uri::InvalidUri,
                >(probes(teams)[k].1)
            },
    decreases teams.len(),
{
    if teams.len() > 0 {
        let rest = teams.drop_last();
        let team = teams.last();
        if uri_parse(heartbeat_address(team.ip_address, team.port)) is Ok && k == probes(
            rest,
        ).len() {
            assert(teams[teams.len() - 1] == teams.last());
        } else {
            law_probes_are_of_teams(rest, k);
            let i = choose|i: int|
                {
                    &&& 0 <= i < rest.len()
                    &&& (#[trigger] rest[i]).name == probes(rest)[k].0
                    &&& uri_parse(heartbeat_address(rest[i].ip_address, rest[i].port)) == Ok::<
                        hyper::Uri,
                        hyper::http::uri::InvalidUri,
                    >(probes(rest)[k].1)
                };
            assert(teams[i] == rest[i]);
        }
    }
}

/// No team stands on the probe list twice: two entries have different names.
pub proof fn law_probes_name_each_team_once(teams: Seq<TeamRecord>, k: int, l: int)
    requires
        sound(teams),
        0 <= k < l < probes(teams).len(),
    ensures
        probes(teams)[k].0 != probes(teams)[l].0,
    decreases teams.len(),
{
    if teams.len() > 0 {
        let rest = teams.drop_last();
        let last = teams.len() - 1;
        assert(teams.last() == teams[last]);
        assert(sound(rest)) by {
            assert forall|a: int, b: int| 0 <= a < b < rest.len() implies {
                &&& (#[trigger] rest[a]).name != (#[trigger] rest[b]).name
                &&& !(rest[a].ip_address == rest[b].ip_address && rest[a].port == rest[b].port)
            } by {
                assert(rest[a] == teams[a]);
                assert(rest[b] == teams[b]);
            }
        }
        if l < probes(rest).len() {
            law_probes_name_each_team_once(rest, k, l);
        } else {
            law_probes_are_of_teams(rest, k);
            let i = choose|i: int|
                {
                    &&& 0 <= i < rest.len()
                    &&& (#[trigger] rest[i]).name == probes(rest)[k].0
                    &&& uri_parse(heartbeat_address(rest[i].ip_address, rest[i].port)) == Ok::<
                        hyper::Uri,
                        hyper::http::uri::InvalidUri,
                    >(probes(rest)[k].1)
                };
            assert(rest[i] == teams[i]);
            assert(teams[i].name != teams[last].name);
            assert(probes(teams)[k] == probes(rest)[k]);
            assert(probes(teams)[l].0 == teams[last].name);
        }
    }
}

/// A team is on the poll list exactly when it is polled; so a connected team
/// without agents is not on it, and neither is a disconnected team with
/// agents.
pub proof fn law_polls_leave_out_the_rest(teams: Seq<TeamRecord>, i: int)
    requires
        sound(teams),
        0 <= i < teams.len(),
    ensures
        polled(teams[i]) <==> exists|k: int|
            0 <= k < polls(teams).len() && (#[trigger] polls(teams)[k]).0 == teams[i].name,
    decreases teams.len(),
{
    let rest = teams.drop_last();
    let last = teams.len() - 1;
    assert(teams.last() == teams[last]);
    if i < last {
        assert(rest[i] == teams[i]);
        assert(sound(rest)) by {
            assert forall|a: int, b: int| 0 <= a < b < rest.len() implies {
                &&& (#[trigger] rest[a]).name != (#[trigger] rest[b]).name
                &&& !(rest[a].ip_address == rest[b].ip_address && rest[a].port == rest[b].port)
            } by {
                assert(rest[a] == teams[a]);
                assert(rest[b] == teams[b]);
            }
        }
        law_polls_leave_out_the_rest(rest, i);
        if polled(teams[i]) {
            let k = choose|k: int|
                0 <= k < polls(rest).len() && (#[trigger] polls(rest)[k]).0 == rest[i].name;
            assert(polls(teams)[k].0 == teams[i].name);
        }
        if exists|k: int|
            0 <= k < polls(teams).len() && (#[trigger] polls(teams)[k]).0 == teams[i].name {
            let k = choose|k: int|
                0 <= k < polls(teams).len() && (#[trigger] polls(teams)[k]).0 == teams[i].name;
            if k < polls(rest).len() {
                assert(polls(rest)[k].0 == rest[i].name);
            } else {
                assert(polls(teams)[k].0 == teams[last].name);
            }
        }
    } else {
        if polled(teams[i]) {
            let k = polls(rest).len() as int;
            assert(polls(teams)[k].0 == teams[i].name);
        }
        if exists|k: int|
            0 <= k < polls(teams).len() && (#[trigger] polls(teams)[k]).0 == teams[i].name {
            let k = choose|k: int|
                0 <= k < polls(teams).len() && (#[trigger] polls(teams)[k]).0 == teams[i].name;
            if k < polls(rest).len() {
                law_polls_are_of_live_flocks(rest, k);
                let j = choose|j: int|
                    {
                        &&& 0 <= j < rest.len()
                        &&& (#[trigger] rest[j]).name == polls(rest)[k].0
                        &&& rest[j].flock == polls(rest)[k].2
                        &&& rest[j].connected
                        &&& rest[j].flock.len() != 0
                    };
                assert(rest[j] == teams[j]);
                assert(polls(teams)[k] == polls(rest)[k]);
                assert(false);
            }
        }
    }
}

/// Wishes of a decision service make and lose no agent, and move none: each
/// agent keeps its identifier and its position.
pub proof fn law_wishes_keep_agents_in_place(flock: Map<u64, Boid>, wishes: Seq<(FlockId, Intent)>)
    ensures
        after_wishes(flock, wishes).dom() == flock.dom(),
        forall|id: u64|
            flock.contains_key(id) ==> {
                &&& (#[trigger] after_wishes(flock, wishes)[id])@.x == flock[id]@.x
                &&& after_wishes(flock, wishes)[id]@.y == flock[id]@.y
            },
    decreases wishes.len(),
{
    if wishes.len() > 0 {
        let earlier = after_wishes(flock, wishes.drop_last());
        law_wishes_keep_agents_in_place(flock, wishes.drop_last());
        let id = wishes.last().0;
        let intent = wishes.last().1;
        if earlier.contains_key(id.0) {
            earlier[id.0].lemma_steered(intent.heading, intent.speed);
        }
        assert(after_wishes(flock, wishes).dom() =~= flock.dom());
    }
}

/// Wishes for the agents of one team leave a sound registry sound, touch
/// no other team, and leave the team its name, address and liveness.
pub proof fn law_intent_touches_one_flock(
    teams: Seq<TeamRecord>,
    name: Seq<char>,
    wishes: Seq<(FlockId, Intent)>,
)
    requires
        sound(teams),
    ensures
        sound(after_intent(teams, name, wishes)),
        after_intent(teams, name, wishes).len() == teams.len(),
        forall|i: int|
            0 <= i < teams.len() ==> (#[trigger] after_intent(teams, name, wishes)[i]) == (
            TeamRecord { flock: after_intent(teams, name, wishes)[i].flock, ..teams[i] }),
        forall|i: int|
            0 <= i < teams.len() && teams[i].name != name ==> (#[trigger] after_intent(
                teams,
                name,
                wishes,
            )[i]) == teams[i],
        !has_name(teams, name) ==> after_intent(teams, name, wishes) == teams,
{
    let after = after_intent(teams, name, wishes);
    lemma_same_membership_keeps_sound(teams, after);
    if !has_name(teams, name) {
        assert forall|i: int| 0 <= i < teams.len() implies after[i] == teams[i] by {
            assert(teams[i].name != name);
        }
        assert(after =~= teams);
    }
}

/// Whatever the message, what it leaves of a sound registry is sound, and
/// the answer carries that registry.
pub proof fn law_every_message_keeps_sound<
    G: Fn(u64, u64, u64, u64) -> Boid,
    F: Fn(Boid) -> Boid,
>(
    before: Seq<TeamRecord>,
    message: Message,
    after: Seq<TeamRecord>,
    reaction: Reaction,
    shape: &G,
    advance: &F,
)
    requires
        sound(before),
        follows(before, message, after, reaction, shape, advance),
    ensures
        sound(after),
        reaction.update@ == after,
{
    match message {
        Message::Register(registration) => {
            law_registration_keeps_sound(
                before,
                registration.name@,
                registration.ip_address@,
                registration.port,
            );
        },
        Message::Unregister(unregistration) => {
            law_unregistration_keeps_sound(before, unregistration.name@);
        },
        Message::Heartbeat => {},
        Message::HeartbeatStatus((name, connected)) => {
            law_liveness_keeps_sound(before, name@, connected);
        },
        Message::Tick => {
            law_step_keeps_sound_and_agents(before, after, advance);
        },
        Message::SpawnAll(n) => {
            law_spawn_for_all_keeps_sound(before, after, n as nat, shape);
        },
        Message::Spawn((name, n)) => {
            law_spawn_for_one_keeps_sound(before, after, name@, n as nat, shape);
        },
        Message::BrainUpdate(name, intentions) => {},
    }
}

/// A message that is neither a registration nor an unregistration leaves
/// every team in its place, under its name and at its address.
pub proof fn law_only_requests_change_membership<
    G: Fn(u64, u64, u64, u64) -> Boid,
    F: Fn(Boid) -> Boid,
>(
    before: Seq<TeamRecord>,
    message: Message,
    after: Seq<TeamRecord>,
    reaction: Reaction,
    shape: &G,
    advance: &F,
)
    requires
        !(message is Register),
        !(message is Unregister),
        follows(before, message, after, reaction, shape, advance),
    ensures
        after.len() == before.len(),
        forall|i: int|
            0 <= i < before.len() ==> {
                &&& (#[trigger] after[i]).name == before[i].name
                &&& after[i].ip_address == before[i].ip_address
                &&& after[i].port == before[i].port
            },
{
    assert forall|i: int| 0 <= i < before.len() implies {
        &&& (#[trigger] after[i]).name == before[i].name
        &&& after[i].ip_address == before[i].ip_address
        &&& after[i].port == before[i].port
    } by {
        match message {
            Message::Tick => {
                assert(advanced(before[i], after[i], advance));
            },
            Message::SpawnAll(n) => {
                assert(grown(before[i], after[i], n as nat, shape));
            },
            Message::Spawn((name, n)) => {
                if before[i].name == name@ {
                    assert(grown(before[i], after[i], n as nat, shape));
                }
            },
            _ => {},
        }
    }
}

} // verus!
