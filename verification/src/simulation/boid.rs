//! One simulated agent.
//!
//! The registry stores and hands out agent states but never computes with
//! them, so the four real quantities travel as IEEE 754 binary64 bit
//! patterns. For patterns with a clear sign bit the unsigned order of the
//! patterns is the numeric order of the values, which is all the rules below
//! rely on.

use vstd::prelude::*;

verus! {

/// Bit pattern of `1.0`.
pub const ONE: u64 = 0x3FF0_0000_0000_0000;

/// Bit pattern of positive infinity; every finite non-negative value lies
/// strictly below it.
pub const INFINITE: u64 = 0x7FF0_0000_0000_0000;

/// Mask that clears the sign bit.
pub const MAGNITUDE: u64 = 0x7FFF_FFFF_FFFF_FFFF;

/// The state of an agent as plain data.
pub struct Kinematics {
    pub x: u64,
    pub y: u64,
    pub heading: u64,
    pub speed: u64,
}

/// A value in `[0, 1]`.
pub open spec fn in_unit_interval(bits: u64) -> bool {
    bits <= ONE
}

/// A coordinate on the unit torus: a value in `[0, 1)`.
pub open spec fn on_torus(bits: u64) -> bool {
    bits < ONE
}

/// A finite angle in radians, of either sign.
pub open spec fn finite_angle(bits: u64) -> bool {
    bits & MAGNITUDE < INFINITE
}

/// A finite speed that is not negative.
pub open spec fn forward_speed(bits: u64) -> bool {
    bits < INFINITE
}

/// What every agent satisfies at all times.
pub open spec fn admissible(k: Kinematics) -> bool {
    &&& on_torus(k.x)
    &&& on_torus(k.y)
    &&& finite_angle(k.heading)
    &&& forward_speed(k.speed)
}

/// An agent: position on the unit torus, heading and speed.
#[derive(Clone, Copy, Debug, PartialEq, Eq)]
pub struct Boid {
    x: u64,
    y: u64,
    heading: u64,
    speed: u64,
}

impl View for Boid {
    type V = Kinematics;

    closed spec fn view(&self) -> Kinematics {
        Kinematics { x: self.x, y: self.y, heading: self.heading, speed: self.speed }
    }
}

impl Boid {
    /// Holds of every agent that executable code can reach.
    #[verifier::type_invariant]
    pub open spec fn lawful(self) -> bool {
        admissible(self@)
    }

    /// Builds an agent from four bit patterns, or refuses them when they do
    /// not describe a position on the torus, a finite heading and a finite
    /// non-negative speed.
    pub fn new(x: u64, y: u64, heading: u64, speed: u64) -> (made: Option<Boid>)
        ensures
            made is Some <==> admissible(Kinematics { x, y, heading, speed }),
            made matches Some(boid) ==> boid@ == (Kinematics { x, y, heading, speed }),
    {
        if x < ONE && y < ONE && heading & MAGNITUDE < INFINITE && speed < INFINITE {
            Some(Boid { x, y, heading, speed })
        } else {
            None
        }
    }

    /// This agent on another course: where it is, with the heading and the
    /// speed given.
    pub closed spec fn steered(self, heading: u64, speed: u64) -> Boid {
        Boid { x: self.x, y: self.y, heading, speed }
    }

    /// An agent on another course has the heading and the speed given, and
    /// the position it had.
    pub proof fn lemma_steered(self, heading: u64, speed: u64)
        ensures
            self.steered(heading, speed)@ == (Kinematics { heading, speed, ..self@ }),
    {
    }

    /// Puts the agent on another course, or refuses a heading that is not
    /// finite and a speed that is negative or not finite.
    pub fn steer(&self, heading: u64, speed: u64) -> (made: Option<Boid>)
        ensures
            made is Some <==> finite_angle(heading) && forward_speed(speed),
            made matches Some(boid) ==> boid == self.steered(heading, speed),
    {
        proof {
            use_type_invariant(self);
        }
        if heading & MAGNITUDE < INFINITE && speed < INFINITE {
            Some(Boid { x: self.x, y: self.y, heading, speed })
        } else {
            None
        }
    }

    /// Horizontal coordinate.
    pub fn x(&self) -> (bits: u64)
        ensures
            bits == self@.x,
            on_torus(bits),
    {
        proof {
            use_type_invariant(self);
        }
        self.x
    }

    /// Vertical coordinate.
    pub fn y(&self) -> (bits: u64)
        ensures
            bits == self@.y,
            on_torus(bits),
    {
        proof {
            use_type_invariant(self);
        }
        self.y
    }

    /// Heading in radians.
    pub fn heading(&self) -> (bits: u64)
        ensures
            bits == self@.heading,
            finite_angle(bits),
    {
        proof {
            use_type_invariant(self);
        }
        self.heading
    }

    /// Distance covered per unit of time.
    pub fn speed(&self) -> (bits: u64)
        ensures
            bits == self@.speed,
            forward_speed(bits),
    {
        proof {
            use_type_invariant(self);
        }
        self.speed
    }
}

} // verus!
