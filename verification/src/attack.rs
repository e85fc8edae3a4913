//! What a unit can do to another.

use vstd::prelude::*;

verus! {

/// A named way of dealing damage at a distance.
///
/// The reach is held as the square of the range, rounded down. Squared
/// distances between cells are whole numbers, so for any real range `r` a
/// target is within `r` exactly when its squared distance is at most the
/// floor of `r * r`: nothing is lost by holding the range this way.
#[derive(Debug)]
pub struct Attack {
    name: String,
    damage: u64,
    range_squared: u64,
}

/// What became of the target of an attack that was carried out.
#[derive(Copy, Clone, Debug, PartialEq, Eq, Structural)]
pub enum AttackOutcome {
    /// The target lives on with the given health, which is above zero.
    TargetSurvived(u64),
    /// The target's health fell to zero: it has left the game.
    TargetKilled,
}

/// An attack as a mathematical value.
pub struct AttackView {
    pub name: Seq<char>,
    pub damage: u64,
    pub range_squared: u64,
}

impl View for Attack {
    type V = AttackView;

    closed spec fn view(&self) -> AttackView {
        AttackView { name: self.name@, damage: self.damage, range_squared: self.range_squared }
    }
}

impl Clone for Attack {
    fn clone(&self) -> (a: Attack)
        ensures
            a@ == self@,
    {
        Attack { name: self.name.clone(), damage: self.damage, range_squared: self.range_squared }
    }
}

impl Attack {
    /// Creates an attack that takes `damage` points of health from a target whose
    /// squared distance is at most `range_squared`.
    pub fn new(name: String, damage: u64, range_squared: u64) -> (a: Attack)
        ensures
            a@ == (AttackView { name: name@, damage, range_squared }),
    {
        Attack { name, damage, range_squared }
    }

    /// Returns a copy of the attack's name.
    pub fn name(&self) -> (s: String)
        ensures
            s@ == self@.name,
    {
        self.name.clone()
    }

    /// Returns the points of health the attack takes.
    pub fn damage(&self) -> (d: u64)
        ensures
            d == self@.damage,
    {
        self.damage
    }

    /// Returns the square of the attack's range, rounded down.
    pub fn range_squared(&self) -> (r: u64)
        ensures
            r == self@.range_squared,
    {
        self.range_squared
    }
}

} // verus!
