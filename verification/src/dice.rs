//! Chance: the only part of a game that is not decided by its rules.

use vstd::prelude::*;
use rand::Rng;
use crate::team::Team;

verus! {

/// Draws a number below `bound` from the generator of the current thread, by
/// `rand::thread_rng` and `rand::Rng::gen_range` on the range from zero up to,
/// but not including, `bound`.
///
/// Nothing is proved of the draw. What is taken on trust is that it lies in
/// the range, which is what `gen_range` promises of every draw; an empty range
/// makes `gen_range` panic, so `bound` must be positive. The generator seeds
/// itself from the operating system when a thread first uses it, and panics
/// where the system gives it no seed.
#[verifier::external_body]
pub(crate) fn draw_below(bound: u32) -> (draw: u32)
    requires
        bound > 0,
    ensures
        draw < bound,
{
    rand::thread_rng().gen_range(0..bound)
}

/// Tosses a coin, by `rand::random`, which draws from the generator of the
/// current thread. Either side may come up: nothing is claimed of the toss.
#[verifier::external_body]
pub(crate) fn toss() -> (heads: bool) {
    rand::random()
}

/// The team that a toss of the coin lets act first: Bluefor on heads, Redfor on
/// tails.
pub fn initiative_from(heads: bool) -> (team: Team)
    ensures
        team == (if heads {
            Team::Bluefor
        } else {
            Team::Redfor
        }),
{
    if heads {
        Team::Bluefor
    } else {
        Team::Redfor
    }
}

/// Tosses a coin for the team that acts first. Either team may come out.
pub fn seize_initiative() -> (team: Team) {
    initiative_from(toss())
}

} // verus!
