//! The agents of one team, each under its own identifier.

use std::collections::HashMap;
use vstd::prelude::*;
use vstd::std_specs::iter::IteratorSpec;

use crate::brain::model::Intent;
use crate::simulation::boid::{admissible, finite_angle, forward_speed, in_unit_interval, Boid};
use crate::simulation::{Simulate, Spawn};

verus! {

broadcast use vstd::std_specs::hash::group_hash_axioms;

/// Identifier of an agent, unique within its flock.
#[derive(Clone, Copy, Debug, PartialEq, Eq, Hash, Structural)]
pub struct FlockId(pub u64);

impl From<u64> for FlockId {
    /// Wraps a raw identifier.
    fn from(id: u64) -> (made: FlockId) {
        FlockId(id)
    }
}

impl vstd::std_specs::convert::FromSpecImpl<u64> for FlockId {
    open spec fn obeys_from_spec() -> bool {
        true
    }

    open spec fn from_spec(id: u64) -> FlockId {
        FlockId(id)
    }
}

/// `random::Xorshift128Plus`: a generator of pseudo-random numbers. What is
/// inside is not looked at here.
#[verifier::external_type_specification]
#[verifier::external_body]
pub struct ExXorshift128Plus(random::Xorshift128Plus);

/// The generator that `random::default` builds of a seed.
pub uninterp spec fn default_source(seed: u64) -> random::Xorshift128Plus;

/// Calls `random::default`. It builds the generator of nothing but the seed,
/// and there is no seed that it refuses: the generator is the one that
/// `default_source` names.
#[verifier::external_body]
pub(crate) fn seeded(seed: u64) -> (source: random::Xorshift128Plus)
    ensures
        source == default_source(seed),
{
    random::default(seed)
}

/// Calls `random::Source::read_u64`, which takes the next 64 bits of the
/// stream. Nothing is claimed of the value.
#[verifier::external_body]
fn draw_bits(source: &mut random::Xorshift128Plus) -> (bits: u64) {
    random::Source::read_u64(source)
}

/// Calls `random::Source::read_f64`, which draws a real number from `[0, 1]`,
/// and hands it over as its binary64 bit pattern. The value lies in that
/// interval; nothing else is claimed of it.
#[verifier::external_body]
fn draw_unit(source: &mut random::Xorshift128Plus) -> (bits: u64)
    ensures
        in_unit_interval(bits),
{
    random::Source::read_f64(source).to_bits()
}

/// The identifier `steps` places after `start`, counting past the largest
/// identifier back to zero.
pub open spec fn offset(start: u64, steps: int) -> u64 {
    ((start + steps) % 0x1_0000_0000_0000_0000) as u64
}

/// `seat` is the first identifier outside `taken` that is met when counting
/// up from `start`.
pub open spec fn first_vacancy(taken: Set<u64>, start: u64, seat: u64) -> bool {
    exists|steps: int|
        {
            &&& 0 <= steps
            &&& #[trigger] offset(start, steps) == seat
            &&& !taken.contains(seat)
            &&& forall|j: int| 0 <= j < steps ==> taken.contains(#[trigger] offset(start, j))
        }
}

/// Four numbers as they are drawn for a new agent: each in `[0, 1]`.
pub open spec fn drawn(a: u64, b: u64, c: u64, d: u64) -> bool {
    in_unit_interval(a) && in_unit_interval(b) && in_unit_interval(c) && in_unit_interval(d)
}

/// `shape` takes any four drawn numbers.
pub open spec fn shapes<G: Fn(u64, u64, u64, u64) -> Boid>(shape: &G) -> bool {
    forall|a: u64, b: u64, c: u64, d: u64| drawn(a, b, c, d) ==> call_requires(shape, (a, b, c, d))
}

/// `boid` is a state that `shape` can return for four drawn numbers.
pub open spec fn shaped<G: Fn(u64, u64, u64, u64) -> Boid>(shape: &G, boid: Boid) -> bool {
    exists|a: u64, b: u64, c: u64, d: u64|
        drawn(a, b, c, d) && call_ensures(shape, (a, b, c, d), boid)
}

/// `advance` takes the state of any agent.
pub open spec fn advances<F: Fn(Boid) -> Boid>(advance: &F) -> bool {
    forall|boid: Boid| call_requires(advance, (boid,))
}

/// The flock after one wish of a decision service: the agent named takes the
/// heading and the speed asked for and stays where it is. A wish for an
/// agent that is not in the flock, for a heading that is not finite, or for a
/// speed that is negative or not finite, changes nothing.
pub open spec fn after_wish(flock: Map<u64, Boid>, id: FlockId, intent: Intent) -> Map<u64, Boid> {
    if flock.contains_key(id.0) && finite_angle(intent.heading) && forward_speed(intent.speed) {
        flock.insert(id.0, flock[id.0].steered(intent.heading, intent.speed))
    } else {
        flock
    }
}

/// The flock after the wishes of a decision service, taken one after the
/// other; of two wishes for one agent the later one stands.
pub open spec fn after_wishes(flock: Map<u64, Boid>, wishes: Seq<(FlockId, Intent)>) -> Map<
    u64,
    Boid,
>
    decreases wishes.len(),
{
    if wishes.len() == 0 {
        flock
    } else {
        after_wish(after_wishes(flock, wishes.drop_last()), wishes.last().0, wishes.last().1)
    }
}

/// The identifiers reached from `start` in fewer than `count` steps.
spec fn reach(start: u64, count: int) -> Set<u64> {
    Set::new(|id: u64| exists|j: int| 0 <= j < count && #[trigger] offset(start, j) == id)
}

/// Counting up from `start` meets `count` different identifiers as long as
/// `count` does not exceed the number of identifiers there are.
proof fn lemma_reach_len(start: u64, count: int)
    requires
        0 <= count <= 0x1_0000_0000_0000_0000,
    ensures
        reach(start, count).finite(),
        reach(start, count).len() == count,
    decreases count,
{
    if count == 0 {
        assert(reach(start, count) =~= Set::<u64>::empty());
    } else {
        lemma_reach_len(start, count - 1);
        let last = offset(start, count - 1);
        assert(!reach(start, count - 1).contains(last));
        assert(reach(start, count) =~= reach(start, count - 1).insert(last)) by {
            assert forall|id: u64| reach(start, count).contains(id) implies reach(
                start,
                count - 1,
            ).insert(last).contains(id) by {
                let j = choose|j: int| 0 <= j < count && offset(start, j) == id;
                if j < count - 1 {
                    assert(offset(start, j) == id);
                }
            }
            assert forall|id: u64| reach(start, count - 1).insert(last).contains(id) implies reach(
                start,
                count,
            ).contains(id) by {
                if id == last {
                    assert(offset(start, count - 1) == id);
                } else {
                    let j = choose|j: int| 0 <= j < count - 1 && offset(start, j) == id;
                    assert(offset(start, j) == id);
                }
            }
        }
    }
}

/// When every identifier reached from `start` in fewer than `count` steps is
/// taken, there are at least `count` taken identifiers.
proof fn lemma_crowded(taken: Set<u64>, start: u64, count: int)
    requires
        taken.finite(),
        0 <= count <= 0x1_0000_0000_0000_0000,
        forall|j: int| 0 <= j < count ==> taken.contains(#[trigger] offset(start, j)),
    ensures
        count <= taken.len(),
{
    lemma_reach_len(start, count);
    assert(reach(start, count).subset_of(taken));
    vstd::set_lib::lemma_len_subset(reach(start, count), taken);
}

/// The agents of one team.
pub struct Flock {
    boids: HashMap<u64, Boid>,
}

impl View for Flock {
    type V = Map<u64, Boid>;

    closed spec fn view(&self) -> Map<u64, Boid> {
        self.boids@
    }
}

impl Flock {
    /// A flock without agents.
    pub fn new() -> (flock: Flock)
        ensures
            flock@ == Map::<u64, Boid>::empty(),
    {
        Flock { boids: HashMap::new() }
    }

    /// A flock has finitely many agents.
    pub proof fn lemma_finite(&self)
        ensures
            self@.dom().finite(),
    {
    }

    /// Whether the flock has no agents.
    pub fn is_empty(&self) -> (empty: bool)
        ensures
            empty == (self@.len() == 0),
    {
        self.boids.len() == 0
    }

    /// Number of agents; there are finitely many.
    pub fn len(&self) -> (count: usize)
        ensures
            count == self@.len(),
            self@.dom().finite(),
    {
        self.boids.len()
    }

    /// Whether an agent holds `id`.
    pub fn contains(&self, id: FlockId) -> (held: bool)
        ensures
            held == self@.contains_key(id.0),
    {
        self.boids.contains_key(&id.0)
    }

    /// The agent under `id`. Like every agent, it is on the torus and has a
    /// finite heading and a finite speed that is not negative.
    pub fn get(&self, id: FlockId) -> (found: Option<Boid>)
        ensures
            found == if self@.contains_key(id.0) {
                Some(self@[id.0])
            } else {
                None
            },
            found matches Some(boid) ==> admissible(boid@),
    {
        match self.boids.get(&id.0) {
            Some(boid) => {
                proof {
                    use_type_invariant(boid);
                }
                Some(*boid)
            },
            None => None,
        }
    }

    /// Seats `boid` under the first vacant identifier at or after `start`
    /// and tells which one that was. No agent of the flock is touched.
    pub fn settle(&mut self, start: FlockId, boid: Boid) -> (seat: FlockId)
        ensures
            first_vacancy(old(self)@.dom(), start.0, seat.0),
            final(self)@ == old(self)@.insert(seat.0, boid),
    {
        let size: usize = self.boids.len();
        let mut id: u64 = start.0;
        let ghost mut steps: int = 0;
        while self.boids.contains_key(&id)
            invariant
                self.boids == old(self).boids,
                size == self@.len(),
                0 <= steps <= size,
                id == offset(start.0, steps),
                forall|j: int| 0 <= j < steps ==> self@.contains_key(#[trigger] offset(start.0, j)),
            decreases size - steps,
        {
            proof {
                lemma_crowded(self@.dom(), start.0, steps + 1);
                steps = steps + 1;
            }
            id = if id == u64::MAX { 0 } else { id + 1 };
        }
        self.boids.insert(id, boid);
        FlockId(id)
    }

    /// Puts the agents on the courses that a decision service asks for.
    pub fn apply_intent(&mut self, wishes: &Vec<(FlockId, Intent)>)
        ensures
            final(self)@ == after_wishes(old(self)@, wishes@),
    {
        let mut i: usize = 0;
        assert(wishes@.take(0) =~= Seq::<(FlockId, Intent)>::empty());
        while i < wishes.len()
            invariant
                i <= wishes@.len(),
                self@ == after_wishes(old(self)@, wishes@.take(i as int)),
            decreases wishes@.len() - i,
        {
            let (id, intent) = wishes[i];
            proof {
                assert(wishes@.take(i + 1).drop_last() =~= wishes@.take(i as int));
                assert(wishes@.take(i + 1).last() == wishes@[i as int]);
            }
            if let Some(boid) = self.get(id) {
                if let Some(steered) = boid.steer(intent.heading, intent.speed) {
                    self.boids.insert(id.0, steered);
                }
            }
            i = i + 1;
        }
        assert(wishes@.take(wishes@.len() as int) =~= wishes@);
    }

    /// The identifiers in use, each once, in no particular order.
    pub fn ids(&self) -> (roster: Vec<FlockId>)
        ensures
            roster@.no_duplicates(),
            roster@.len() == self@.len(),
            forall|id: FlockId| roster@.contains(id) <==> self@.contains_key(id.0),
    {
        let mut roster: Vec<FlockId> = Vec::new();
        for key in it: self.boids.keys()
            invariant
                roster@.len() == it.index(),
                forall|j: int| 0 <= j < roster@.len() ==> roster@[j].0 == *it.seq()[j],
        {
            roster.push(FlockId(*key));
        }
        proof {
            let keys = self.boids.keys().remaining();
            assert(keys.unref().to_set() == self@.dom());
            assert forall|i: int, j: int| 0 <= i < roster@.len() && 0 <= j < roster@.len() && i != j
                implies roster@[i] != roster@[j] by {
                assert(keys[i] != keys[j]);
            }
            assert forall|id: FlockId| roster@.contains(id) <==> self@.contains_key(id.0) by {
                if roster@.contains(id) {
                    let j = choose|j: int| 0 <= j < roster@.len() && roster@[j] == id;
                    assert(keys.unref()[j] == id.0);
                    assert(keys.unref().to_set().contains(id.0));
                }
                if self@.contains_key(id.0) {
                    assert(keys.unref().to_set().contains(id.0));
                    let j = choose|j: int| 0 <= j < keys.unref().len() && keys.unref()[j] == id.0;
                    assert(roster@[j] == id);
                }
            }
        }
        roster
    }
}

impl Default for Flock {
    /// A flock without agents.
    fn default() -> (flock: Flock)
        ensures
            flock@ == Map::<u64, Boid>::empty(),
    {
        Flock::new()
    }
}

impl Clone for Flock {
    /// A copy with the same agents.
    fn clone(&self) -> (copy: Flock)
        ensures
            copy@ == self@,
    {
        Flock { boids: self.boids.clone() }
    }
}

impl Spawn for Flock {
    /// Adds `n` agents. Each takes its identifier and four numbers from
    /// `source`, in that order; `shape` turns the numbers into the agent's
    /// state, and an identifier that is in use gives way to the next vacant
    /// one. The agents already in the flock stay as they are.
    fn spawn<G: Fn(u64, u64, u64, u64) -> Boid>(
        &mut self,
        n: usize,
        source: &mut random::Xorshift128Plus,
        shape: &G,
    )
        ensures
            old(self)@.dom().finite(),
            final(self)@.dom().finite(),
            old(self)@.submap_of(final(self)@),
            final(self)@.len() == old(self)@.len() + n,
            forall|id: u64|
                final(self)@.contains_key(id) && !old(self)@.contains_key(id) ==> shaped(
                    shape,
                    #[trigger] final(self)@[id],
                ),
    {
        let mut added: usize = 0;
        while added < n
            invariant
                added <= n,
                shapes(shape),
                old(self)@.submap_of(self@),
                self@.len() == old(self)@.len() + added,
                forall|id: u64|
                    self@.contains_key(id) && !old(self)@.contains_key(id) ==> shaped(
                        shape,
                        #[trigger] self@[id],
                    ),
            decreases n - added,
        {
            let start = FlockId(draw_bits(source));
            let x = draw_unit(source);
            let y = draw_unit(source);
            let heading = draw_unit(source);
            let speed = draw_unit(source);
            assert(drawn(x, y, heading, speed));
            let boid = shape(x, y, heading, speed);
            assert(shaped(shape, boid)) by {
                assert(drawn(x, y, heading, speed) && call_ensures(
                    shape,
                    (x, y, heading, speed),
                    boid,
                ));
            }
            self.settle(start, boid);
            added = added + 1;
        }
    }
}

impl Simulate for Flock {
    /// Advances every agent once: each state is replaced by what `advance`
    /// returns for it.
    fn step<F: Fn(Boid) -> Boid>(&mut self, advance: &F)
        ensures
            final(self)@.dom() == old(self)@.dom(),
            forall|id: u64|
                old(self)@.contains_key(id) ==> call_ensures(
                    advance,
                    (old(self)@[id],),
                    #[trigger] final(self)@[id],
                ),
    {
        let roster = self.ids();
        let mut i: usize = 0;
        while i < roster.len()
            invariant
                i <= roster@.len(),
                roster@.no_duplicates(),
                forall|id: FlockId| roster@.contains(id) <==> old(self)@.contains_key(id.0),
                advances(advance),
                self@.dom() == old(self)@.dom(),
                forall|j: int|
                    0 <= j < i ==> call_ensures(
                        advance,
                        (old(self)@[roster@[j].0],),
                        #[trigger] self@[roster@[j].0],
                    ),
                forall|j: int|
                    i <= j < roster@.len() ==> self@[#[trigger] roster@[j].0] == old(
                        self,
                    )@[roster@[j].0],
            decreases roster@.len() - i,
        {
            let id = roster[i];
            assert(roster@.contains(id));
            if let Some(boid) = self.get(id) {
                let moved = advance(boid);
                self.boids.insert(id.0, moved);
                assert(self@.dom() =~= old(self)@.dom());
            }
            i = i + 1;
        }
        assert forall|id: u64| old(self)@.contains_key(id) implies call_ensures(
            advance,
            (old(self)@[id],),
            #[trigger] self@[id],
        ) by {
            assert(roster@.contains(FlockId(id)));
            let j = choose|j: int| 0 <= j < roster@.len() && roster@[j] == FlockId(id);
            assert(roster@[j].0 == id);
        }
    }
}

} // verus!
