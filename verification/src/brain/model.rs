//! What a decision service answers.

use vstd::prelude::*;

verus! {

/// What a decision service asks for one agent: a heading in radians and a
/// speed, both as binary64 bit patterns.
#[derive(Clone, Copy, Debug, PartialEq, Eq, Structural)]
pub struct Intent {
    pub heading: u64,
    pub speed: u64,
}

} // verus!
