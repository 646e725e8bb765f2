//! World constants, the fixed-point units, and the intents that a script
//! may queue.

use vstd::prelude::*;

verus! {

/// Sub-units per world unit: positions are stored in thousandths.
pub const SCALE: i64 = 1000;

/// Width of the world, in sub-units.
pub const WIDTH: i64 = 1280 * SCALE;

/// Height of the world, in sub-units.
pub const HEIGHT: i64 = 720 * SCALE;

/// Length of one forward step, in sub-units.
pub const STEP_SIZE: i64 = 2 * SCALE;

/// Perception radius, in sub-units.
pub const RANGE: i64 = 10 * SCALE;

/// A half turn, in millidegrees.
pub const HALF_TURN: i64 = 180_000;

/// A full turn, in millidegrees: orientations lie in `[0, FULL_TURN)`.
pub const FULL_TURN: i64 = 360_000;

/// A request that a script makes of its ant. Angles are in millidegrees.
#[derive(Debug, Clone, Copy, PartialEq, Eq, Structural)]
pub enum Command {
    /// Walk forward this many steps, one step per tick.
    Move(u32),
    /// Turn by a relative angle.
    Turn(i64),
    /// Turn to an absolute heading.
    TurnTo(i64),
}

/// The pending commands of one ant; the first one is being executed.
pub type CommandList = Vec<Command>;

/// An angle brought into `[0, FULL_TURN)`.
pub open spec fn norm_angle(a: int) -> int {
    a % (FULL_TURN as int)
}

/// Brings an angle in millidegrees into `[0, FULL_TURN)`.
pub fn normalize_angle(a: i64) -> (r: i64)
    ensures
        r == norm_angle(a as int),
        0 <= r < FULL_TURN,
{
    a.checked_rem_euclid(FULL_TURN).unwrap()
}

/// The heading after turning by `d` from the normalized heading `o`.
pub fn turned(o: i64, d: i64) -> (r: i64)
    requires
        0 <= o < FULL_TURN,
    ensures
        r == norm_angle(o + d),
        0 <= r < FULL_TURN,
{
    let e = normalize_angle(d);
    proof {
        vstd::arithmetic::div_mod::lemma_add_mod_noop(o as int, d as int, FULL_TURN as int);
        vstd::arithmetic::div_mod::lemma_small_mod(o as nat, FULL_TURN as nat);
        vstd::arithmetic::div_mod::lemma_add_mod_noop(o as int, e as int, FULL_TURN as int);
        vstd::arithmetic::div_mod::lemma_small_mod(e as nat, FULL_TURN as nat);
    }
    normalize_angle(o + e)
}

} // verus!
