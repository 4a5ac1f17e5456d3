use bws::simulation::boid::Boid;
use bws::simulation::registration::{
    Registration, RegistrationAttempt, RegistrationFailureReason, Unregistration,
    UnregistrationAttempt, UnregistrationFailureReason,
};
use bws::simulation::teams::Teams;
use bws::simulation::{Simulate, Spawn, TeamRepository};

fn registration(name: &str, ip_address: &str, port: u16) -> Registration {
    Registration { name: name.to_owned(), ip_address: ip_address.to_owned(), port }
}

fn plain(x: u64, y: u64, heading: u64, speed: u64) -> Boid {
    let one = 1.0f64.to_bits();
    Boid::new(x % one, y % one, heading, speed).unwrap()
}

fn names(teams: &Teams) -> Vec<String> {
    (0..teams.len()).map(|i| teams.team(i).name().clone()).collect()
}

#[test]
fn two_distinct_teams_both_register() {
    let mut teams = Teams::new();
    assert_eq!(teams.register(registration("Alpha", "10.0.0.1", 9000)), RegistrationAttempt::Success);
    assert_eq!(teams.register(registration("Beta", "10.0.0.2", 9001)), RegistrationAttempt::Success);
    assert_eq!(teams.len(), 2);
    assert_eq!(names(&teams), vec!["Alpha".to_owned(), "Beta".to_owned()]);
}

#[test]
fn same_host_with_another_port_is_another_address() {
    let mut teams = Teams::new();
    assert_eq!(teams.register(registration("Alpha", "10.0.0.1", 9000)), RegistrationAttempt::Success);
    assert_eq!(teams.register(registration("Beta", "10.0.0.1", 9001)), RegistrationAttempt::Success);
    assert_eq!(teams.register(registration("Gamma", "10.0.0.2", 9000)), RegistrationAttempt::Success);
    assert_eq!(teams.len(), 3);
}

#[test]
fn taken_name_is_refused_and_first_address_stays() {
    let mut teams = Teams::new();
    assert_eq!(teams.register(registration("Alpha", "10.0.0.1", 9000)), RegistrationAttempt::Success);
    assert_eq!(
        teams.register(registration("Alpha", "10.0.0.2", 9001)),
        RegistrationAttempt::Failure(RegistrationFailureReason::NameTaken)
    );
    assert_eq!(teams.len(), 1);
    let alpha = teams.get("Alpha").unwrap();
    assert_eq!(alpha.ip_address(), "10.0.0.1");
    assert_eq!(alpha.port(), 9000);
    assert!(teams.available("10.0.0.2", 9001));
}

#[test]
fn taken_name_wins_over_taken_address() {
    let mut teams = Teams::new();
    teams.register(registration("Alpha", "10.0.0.1", 9000));
    assert_eq!(
        teams.register(registration("Alpha", "10.0.0.1", 9000)),
        RegistrationAttempt::Failure(RegistrationFailureReason::NameTaken)
    );
}

#[test]
fn taken_address_is_refused() {
    let mut teams = Teams::new();
    assert_eq!(teams.register(registration("Alpha", "10.0.0.1", 9000)), RegistrationAttempt::Success);
    assert_eq!(
        teams.register(registration("Beta", "10.0.0.1", 9000)),
        RegistrationAttempt::Failure(RegistrationFailureReason::IPAddressWithPortTaken)
    );
    assert_eq!(teams.len(), 1);
    assert!(teams.get("Beta").is_none());
}

#[test]
fn new_team_is_disconnected_and_has_no_agents() {
    let mut teams = Teams::new();
    teams.register(registration("Alpha", "10.0.0.1", 9000));
    let alpha = teams.get("Alpha").unwrap();
    assert!(!alpha.connected());
    assert!(alpha.flock().is_empty());
    assert_eq!(alpha.flock().len(), 0);
}

#[test]
fn availability_looks_at_host_and_port_together() {
    let mut teams = Teams::new();
    assert!(teams.available("10.0.0.1", 9000));
    teams.register(registration("Alpha", "10.0.0.1", 9000));
    assert!(!teams.available("10.0.0.1", 9000));
    assert!(teams.available("10.0.0.1", 9001));
    assert!(teams.available("10.0.0.2", 9000));
}

#[test]
fn unregistering_a_stranger_from_an_empty_registry_fails() {
    let mut teams = Teams::new();
    assert_eq!(
        teams.unregister(Unregistration { name: "Ghost".to_owned() }),
        UnregistrationAttempt::Failure(UnregistrationFailureReason::NameNotRegistered)
    );
    assert_eq!(teams.len(), 0);
}

#[test]
fn unregistering_a_stranger_changes_nothing() {
    let mut teams = Teams::new();
    teams.register(registration("Alpha", "10.0.0.1", 9000));
    assert_eq!(
        teams.unregister(Unregistration { name: "Ghost".to_owned() }),
        UnregistrationAttempt::Failure(UnregistrationFailureReason::NameNotRegistered)
    );
    assert_eq!(names(&teams), vec!["Alpha".to_owned()]);
}

#[test]
fn unregistering_removes_the_team_and_frees_name_and_address() {
    let mut teams = Teams::new();
    let mut source = random::default(7);
    teams.register(registration("Alpha", "10.0.0.1", 9000));
    teams.register(registration("Beta", "10.0.0.2", 9000));
    teams.register(registration("Gamma", "10.0.0.3", 9000));
    teams.spawn_in_team("Beta".to_owned(), 4, &mut source, &plain);
    assert_eq!(
        teams.unregister(Unregistration { name: "Beta".to_owned() }),
        UnregistrationAttempt::Success
    );
    assert_eq!(names(&teams), vec!["Alpha".to_owned(), "Gamma".to_owned()]);
    assert!(teams.available("10.0.0.2", 9000));
    assert_eq!(teams.register(registration("Beta", "10.0.0.2", 9000)), RegistrationAttempt::Success);
    assert!(teams.get("Beta").unwrap().flock().is_empty());
    assert_eq!(names(&teams), vec!["Alpha".to_owned(), "Gamma".to_owned(), "Beta".to_owned()]);
}

#[test]
fn liveness_of_a_known_team_is_recorded() {
    let mut teams = Teams::new();
    teams.register(registration("Alpha", "10.0.0.1", 9000));
    teams.register(registration("Beta", "10.0.0.2", 9000));
    assert!(teams.set_liveness("Alpha", true));
    assert!(teams.get("Alpha").unwrap().connected());
    assert!(!teams.get("Beta").unwrap().connected());
    assert!(teams.set_liveness("Alpha", false));
    assert!(!teams.get("Alpha").unwrap().connected());
}

#[test]
fn liveness_of_a_stranger_makes_no_team() {
    let mut teams = Teams::new();
    teams.register(registration("Alpha", "10.0.0.1", 9000));
    assert!(!teams.set_liveness("Ghost", true));
    assert_eq!(teams.len(), 1);
    assert!(teams.get("Ghost").is_none());
    assert!(!teams.get("Alpha").unwrap().connected());
}

#[test]
fn spawn_in_team_adds_exactly_the_number_asked_for() {
    let mut teams = Teams::new();
    let mut source = random::default(42);
    teams.register(registration("Alpha", "10.0.0.1", 9000));
    teams.register(registration("Beta", "10.0.0.2", 9000));
    teams.spawn_in_team("Alpha".to_owned(), 5, &mut source, &plain);
    assert_eq!(teams.get("Alpha").unwrap().flock().len(), 5);
    assert_eq!(teams.get("Beta").unwrap().flock().len(), 0);
}

#[test]
fn spawn_in_an_unknown_team_does_nothing() {
    let mut teams = Teams::new();
    let mut source = random::default(42);
    teams.register(registration("Alpha", "10.0.0.1", 9000));
    teams.spawn_in_team("Ghost".to_owned(), 5, &mut source, &plain);
    assert_eq!(teams.len(), 1);
    assert_eq!(teams.get("Alpha").unwrap().flock().len(), 0);
    assert!(teams.get("Ghost").is_none());
}

#[test]
fn spawn_for_all_adds_to_every_flock() {
    let mut teams = Teams::new();
    let mut source = random::default(42);
    teams.register(registration("Alpha", "10.0.0.1", 9000));
    teams.register(registration("Beta", "10.0.0.2", 9000));
    teams.spawn_in_team("Beta".to_owned(), 2, &mut source, &plain);
    let before: Vec<_> = {
        let beta = teams.get("Beta").unwrap().flock();
        beta.ids().into_iter().map(|id| (id, beta.get(id).unwrap())).collect()
    };
    teams.spawn(3, &mut source, &plain);
    assert_eq!(teams.get("Alpha").unwrap().flock().len(), 3);
    let beta = teams.get("Beta").unwrap().flock();
    assert_eq!(beta.len(), 5);
    for (id, boid) in before {
        assert_eq!(beta.get(id), Some(boid));
    }
}

#[test]
fn spawning_nothing_changes_nothing() {
    let mut teams = Teams::new();
    let mut source = random::default(42);
    teams.register(registration("Alpha", "10.0.0.1", 9000));
    teams.spawn(0, &mut source, &plain);
    teams.spawn_in_team("Alpha".to_owned(), 0, &mut source, &plain);
    assert!(teams.get("Alpha").unwrap().flock().is_empty());
}

#[test]
fn step_advances_every_agent_of_every_team_once() {
    let mut teams = Teams::new();
    let mut source = random::default(42);
    teams.register(registration("Alpha", "10.0.0.1", 9000));
    teams.register(registration("Beta", "10.0.0.2", 9000));
    teams.spawn(3, &mut source, &plain);
    let before: Vec<Vec<_>> = (0..teams.len())
        .map(|i| {
            let flock = teams.team(i).flock();
            flock.ids().into_iter().map(|id| (id, flock.get(id).unwrap())).collect()
        })
        .collect();
    let bump = |boid: Boid| Boid::new(boid.x(), boid.y(), boid.heading(), boid.speed() + 1).unwrap();
    teams.step(&bump);
    for i in 0..teams.len() {
        let flock = teams.team(i).flock();
        assert_eq!(flock.len(), 3);
        for (id, boid) in &before[i] {
            let now = flock.get(*id).unwrap();
            assert_eq!(now.speed(), boid.speed() + 1);
            assert_eq!(now.x(), boid.x());
            assert_eq!(now.y(), boid.y());
            assert_eq!(now.heading(), boid.heading());
        }
    }
}

#[test]
fn copy_of_a_registry_is_equal_and_independent() {
    let mut teams = Teams::new();
    let mut source = random::default(42);
    teams.register(registration("Alpha", "10.0.0.1", 9000));
    teams.spawn(2, &mut source, &plain);
    let copy = teams.clone();
    teams.set_liveness("Alpha", true);
    teams.spawn(1, &mut source, &plain);
    let kept = copy.get("Alpha").unwrap();
    assert!(!kept.connected());
    assert_eq!(kept.flock().len(), 2);
    assert_eq!(kept.ip_address(), "10.0.0.1");
    assert_eq!(kept.port(), 9000);
    assert_eq!(teams.get("Alpha").unwrap().flock().len(), 3);
}

#[test]
fn default_registry_is_empty() {
    let teams = Teams::default();
    assert_eq!(teams.len(), 0);
    assert!(teams.get("Alpha").is_none());
    assert!(teams.available("10.0.0.1", 9000));
}
