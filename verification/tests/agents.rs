use bws::brain::model::Intent;
use bws::simulation::boid::Boid;
use bws::simulation::flock::{Flock, FlockId};
use bws::simulation::{Simulate, Spawn};
use random::Source;

fn bits(value: f64) -> u64 {
    value.to_bits()
}

fn agent(x: f64, y: f64, heading: f64, speed: f64) -> Boid {
    Boid::new(bits(x), bits(y), bits(heading), bits(speed)).unwrap()
}

fn as_drawn(x: u64, y: u64, heading: u64, speed: u64) -> Boid {
    let one = bits(1.0);
    Boid::new(x % one, y % one, heading, speed).unwrap()
}

#[test]
fn boid_keeps_the_numbers_it_was_made_of() {
    let boid = agent(0.99, 0.5, 0.0, 0.02);
    assert_eq!(f64::from_bits(boid.x()), 0.99);
    assert_eq!(f64::from_bits(boid.y()), 0.5);
    assert_eq!(f64::from_bits(boid.heading()), 0.0);
    assert_eq!(f64::from_bits(boid.speed()), 0.02);
}

#[test]
fn boid_position_must_lie_on_the_torus() {
    assert!(Boid::new(bits(0.0), bits(0.0), bits(0.0), bits(0.0)).is_some());
    assert!(Boid::new(bits(0.9999999999999999), bits(0.5), bits(0.0), bits(0.0)).is_some());
    assert!(Boid::new(bits(1.0), bits(0.5), bits(0.0), bits(0.0)).is_none());
    assert!(Boid::new(bits(0.5), bits(1.0), bits(0.0), bits(0.0)).is_none());
    assert!(Boid::new(bits(1.01), bits(0.5), bits(0.0), bits(0.0)).is_none());
    assert!(Boid::new(bits(-0.25), bits(0.5), bits(0.0), bits(0.0)).is_none());
    assert!(Boid::new(bits(0.5), bits(-0.25), bits(0.0), bits(0.0)).is_none());
    assert!(Boid::new(bits(f64::NAN), bits(0.5), bits(0.0), bits(0.0)).is_none());
    assert!(Boid::new(bits(f64::INFINITY), bits(0.5), bits(0.0), bits(0.0)).is_none());
}

#[test]
fn boid_heading_is_any_finite_angle() {
    assert!(Boid::new(bits(0.5), bits(0.5), bits(-3.0), bits(0.0)).is_some());
    assert!(Boid::new(bits(0.5), bits(0.5), bits(3.0), bits(0.0)).is_some());
    assert!(Boid::new(bits(0.5), bits(0.5), bits(-0.0), bits(0.0)).is_some());
    assert!(Boid::new(bits(0.5), bits(0.5), bits(f64::MAX), bits(0.0)).is_some());
    assert!(Boid::new(bits(0.5), bits(0.5), bits(f64::INFINITY), bits(0.0)).is_none());
    assert!(Boid::new(bits(0.5), bits(0.5), bits(f64::NEG_INFINITY), bits(0.0)).is_none());
    assert!(Boid::new(bits(0.5), bits(0.5), bits(f64::NAN), bits(0.0)).is_none());
}

#[test]
fn boid_speed_is_finite_and_not_negative() {
    assert!(Boid::new(bits(0.5), bits(0.5), bits(0.0), bits(0.01)).is_some());
    assert!(Boid::new(bits(0.5), bits(0.5), bits(0.0), bits(f64::MAX)).is_some());
    assert!(Boid::new(bits(0.5), bits(0.5), bits(0.0), bits(-0.01)).is_none());
    assert!(Boid::new(bits(0.5), bits(0.5), bits(0.0), bits(f64::INFINITY)).is_none());
    assert!(Boid::new(bits(0.5), bits(0.5), bits(0.0), bits(f64::NAN)).is_none());
}

#[test]
fn flock_id_wraps_a_number() {
    assert_eq!(FlockId::from(17), FlockId(17));
    let id: FlockId = 17u64.into();
    assert_eq!(id.0, 17);
}

#[test]
fn new_flock_is_empty() {
    let flock = Flock::new();
    assert!(flock.is_empty());
    assert_eq!(flock.len(), 0);
    assert!(flock.ids().is_empty());
    assert!(!flock.contains(FlockId(0)));
    assert_eq!(flock.get(FlockId(0)), None);
}

#[test]
fn settle_takes_the_identifier_when_it_is_vacant() {
    let mut flock = Flock::new();
    let boid = agent(0.25, 0.75, 1.0, 0.01);
    assert_eq!(flock.settle(FlockId(40), boid), FlockId(40));
    assert_eq!(flock.len(), 1);
    assert!(flock.contains(FlockId(40)));
    assert_eq!(flock.get(FlockId(40)), Some(boid));
    assert!(!flock.is_empty());
}

#[test]
fn settle_moves_on_to_the_next_vacant_identifier() {
    let mut flock = Flock::new();
    let first = agent(0.1, 0.1, 0.0, 0.0);
    let second = agent(0.2, 0.2, 0.0, 0.0);
    let third = agent(0.3, 0.3, 0.0, 0.0);
    let fourth = agent(0.4, 0.4, 0.0, 0.0);
    assert_eq!(flock.settle(FlockId(40), first), FlockId(40));
    assert_eq!(flock.settle(FlockId(41), second), FlockId(41));
    assert_eq!(flock.settle(FlockId(40), third), FlockId(42));
    assert_eq!(flock.settle(FlockId(41), fourth), FlockId(43));
    assert_eq!(flock.len(), 4);
    assert_eq!(flock.get(FlockId(40)), Some(first));
    assert_eq!(flock.get(FlockId(41)), Some(second));
    assert_eq!(flock.get(FlockId(42)), Some(third));
    assert_eq!(flock.get(FlockId(43)), Some(fourth));
}

#[test]
fn settle_counts_past_the_largest_identifier() {
    let mut flock = Flock::new();
    let first = agent(0.1, 0.1, 0.0, 0.0);
    let second = agent(0.2, 0.2, 0.0, 0.0);
    let third = agent(0.3, 0.3, 0.0, 0.0);
    assert_eq!(flock.settle(FlockId(u64::MAX), first), FlockId(u64::MAX));
    assert_eq!(flock.settle(FlockId(u64::MAX), second), FlockId(0));
    assert_eq!(flock.settle(FlockId(u64::MAX), third), FlockId(1));
    assert_eq!(flock.get(FlockId(0)), Some(second));
}

#[test]
fn ids_lists_every_agent_once() {
    let mut flock = Flock::new();
    let boid = agent(0.1, 0.1, 0.0, 0.0);
    for start in [5u64, 9, 5, 1000, 9] {
        flock.settle(FlockId(start), boid);
    }
    let mut ids: Vec<u64> = flock.ids().into_iter().map(|id| id.0).collect();
    ids.sort();
    assert_eq!(ids, vec![5, 6, 9, 10, 1000]);
}

#[test]
fn spawn_draws_identifier_then_four_numbers_for_each_agent() {
    let mut expected = random::default(42);
    let mut source = random::default(42);
    let mut flock = Flock::new();
    flock.spawn(3, &mut source, &as_drawn);
    assert_eq!(flock.len(), 3);
    for _ in 0..3 {
        let id = expected.read_u64();
        let x = expected.read_f64().to_bits();
        let y = expected.read_f64().to_bits();
        let heading = expected.read_f64().to_bits();
        let speed = expected.read_f64().to_bits();
        assert_eq!(flock.get(FlockId(id)), Some(as_drawn(x, y, heading, speed)));
    }
    assert_eq!(source.read_u64(), expected.read_u64());
}

#[test]
fn spawn_hands_numbers_from_the_unit_interval_to_shape() {
    let mut source = random::default(1);
    let mut flock = Flock::new();
    let checked = |x: u64, y: u64, heading: u64, speed: u64| {
        for drawn in [x, y, heading, speed] {
            let value = f64::from_bits(drawn);
            assert!((0.0..=1.0).contains(&value));
        }
        as_drawn(x, y, heading, speed)
    };
    flock.spawn(50, &mut source, &checked);
    assert_eq!(flock.len(), 50);
}

#[test]
fn spawn_keeps_the_agents_that_are_there() {
    let mut source = random::default(42);
    let first_id = random::default(42).read_u64();
    let mut flock = Flock::new();
    let resident = agent(0.5, 0.5, 0.0, 0.0);
    flock.settle(FlockId(first_id), resident);
    flock.spawn(2, &mut source, &as_drawn);
    assert_eq!(flock.len(), 3);
    assert_eq!(flock.get(FlockId(first_id)), Some(resident));
    assert!(flock.contains(FlockId(first_id.wrapping_add(1))));
}

#[test]
fn spawn_from_the_same_seed_twice_still_adds_the_number_asked_for() {
    let mut flock = Flock::new();
    flock.spawn(4, &mut random::default(42), &as_drawn);
    flock.spawn(4, &mut random::default(42), &as_drawn);
    assert_eq!(flock.len(), 8);
}

#[test]
fn step_replaces_each_state_by_what_advance_returns() {
    let mut flock = Flock::new();
    flock.settle(FlockId(1), agent(0.25, 0.5, 0.0, 0.02));
    flock.settle(FlockId(2), agent(0.75, 0.5, 0.0, 0.04));
    let swap = |boid: Boid| Boid::new(boid.y(), boid.x(), boid.heading(), boid.speed()).unwrap();
    flock.step(&swap);
    assert_eq!(flock.len(), 2);
    assert_eq!(flock.get(FlockId(1)), Some(agent(0.5, 0.25, 0.0, 0.02)));
    assert_eq!(flock.get(FlockId(2)), Some(agent(0.5, 0.75, 0.0, 0.04)));
}

#[test]
fn step_on_the_torus_wraps_a_position_past_one() {
    let mut flock = Flock::new();
    flock.settle(FlockId(1), agent(0.99, 0.5, 0.0, 0.02));
    let advance = |boid: Boid| {
        let wrap = |mut v: f64| {
            while v < 0.0 {
                v += 1.0;
            }
            while v >= 1.0 {
                v -= 1.0;
            }
            v
        };
        let heading = f64::from_bits(boid.heading());
        let speed = f64::from_bits(boid.speed());
        let x = wrap(f64::from_bits(boid.x()) + speed * heading.cos());
        let y = wrap(f64::from_bits(boid.y()) + speed * heading.sin());
        Boid::new(x.to_bits(), y.to_bits(), boid.heading(), boid.speed()).unwrap()
    };
    flock.step(&advance);
    let moved = flock.get(FlockId(1)).unwrap();
    assert!((f64::from_bits(moved.x()) - 0.01).abs() < 1e-12);
    assert_eq!(f64::from_bits(moved.y()), 0.5);
    assert_eq!(f64::from_bits(moved.heading()), 0.0);
    assert_eq!(f64::from_bits(moved.speed()), 0.02);
}

#[test]
fn copy_of_a_flock_has_the_same_agents() {
    let mut flock = Flock::new();
    let boid = agent(0.25, 0.5, 0.0, 0.02);
    flock.settle(FlockId(1), boid);
    let copy = flock.clone();
    flock.settle(FlockId(2), boid);
    assert_eq!(copy.len(), 1);
    assert_eq!(copy.get(FlockId(1)), Some(boid));
    assert_eq!(flock.len(), 2);
}

#[test]
fn default_flock_is_empty() {
    assert!(Flock::default().is_empty());
}

#[test]
fn steer_changes_course_and_keeps_position() {
    let boid = agent(0.25, 0.75, 1.0, 0.01);
    let steered = boid.steer(bits(-2.0), bits(0.5)).unwrap();
    assert_eq!(steered, agent(0.25, 0.75, -2.0, 0.5));
    assert_eq!(boid.steer(bits(f64::NAN), bits(0.5)), None);
    assert_eq!(boid.steer(bits(f64::INFINITY), bits(0.5)), None);
    assert_eq!(boid.steer(bits(1.0), bits(-0.5)), None);
    assert_eq!(boid.steer(bits(1.0), bits(f64::INFINITY)), None);
    assert_eq!(boid.steer(bits(1.0), bits(f64::NAN)), None);
}

#[test]
fn wishes_steer_the_agents_they_name() {
    let mut flock = Flock::new();
    flock.settle(FlockId(1), agent(0.1, 0.2, 0.0, 0.01));
    flock.settle(FlockId(2), agent(0.3, 0.4, 0.0, 0.01));
    flock.settle(FlockId(3), agent(0.5, 0.6, 0.0, 0.01));
    let wishes = vec![
        (FlockId(1), Intent { heading: bits(1.5), speed: bits(0.02) }),
        (FlockId(9), Intent { heading: bits(1.5), speed: bits(0.02) }),
        (FlockId(2), Intent { heading: bits(f64::NAN), speed: bits(0.02) }),
        (FlockId(3), Intent { heading: bits(3.0), speed: bits(-1.0) }),
        (FlockId(1), Intent { heading: bits(-0.5), speed: bits(0.0) }),
    ];
    flock.apply_intent(&wishes);
    assert_eq!(flock.len(), 3);
    assert_eq!(flock.get(FlockId(1)), Some(agent(0.1, 0.2, -0.5, 0.0)));
    assert_eq!(flock.get(FlockId(2)), Some(agent(0.3, 0.4, 0.0, 0.01)));
    assert_eq!(flock.get(FlockId(3)), Some(agent(0.5, 0.6, 0.0, 0.01)));
    assert!(!flock.contains(FlockId(9)));
}
