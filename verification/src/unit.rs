//! A combatant.

use vstd::prelude::*;
use crate::attack::{Attack, AttackView};
use crate::position::Position;
use crate::team::Team;

verus! {

/// The health a unit of the standard setup starts with.
pub const DEFAULT_HEALTH: u64 = 100;

/// A combatant: who it is, where it stands, how much health it has left and
/// how often it has acted.
#[derive(Debug)]
pub struct Unit {
    name: String,
    entity_id: u64,
    team: Team,
    health: u64,
    attacks: Vec<Attack>,
    position: Position,
    action_count: u64,
}

/// A unit as a mathematical value.
pub struct UnitView {
    pub name: Seq<char>,
    pub entity_id: u64,
    pub team: Team,
    pub health: u64,
    pub attacks: Seq<AttackView>,
    pub position: Position,
    pub action_count: u64,
}

/// Tells whether a unit outlived the damage dealt to it.
#[derive(Copy, Clone, Debug, PartialEq, Eq, Structural)]
pub enum DamageStatus {
    Alive,
    Dead,
}

/// The health that is left of `health` after `damage`: never below zero.
pub open spec fn health_after(health: u64, damage: u64) -> u64 {
    if damage >= health {
        0
    } else {
        (health - damage) as u64
    }
}

/// The two attacks of a unit of the standard setup: a strong one that reaches
/// the next cell and a weaker one that reaches ten cells.
pub open spec fn default_attacks() -> Seq<AttackView> {
    seq![
        AttackView { name: "Fight"@, damage: 50, range_squared: 1 },
        AttackView { name: "Shoot"@, damage: 30, range_squared: 100 },
    ]
}

/// The units `units` as mathematical values, in their order.
pub open spec fn views(units: Seq<Unit>) -> Seq<UnitView> {
    units.map_values(|u: Unit| u@)
}

impl View for Unit {
    type V = UnitView;

    closed spec fn view(&self) -> UnitView {
        UnitView {
            name: self.name@,
            entity_id: self.entity_id,
            team: self.team,
            health: self.health,
            attacks: self.attacks@.map_values(|a: Attack| a@),
            position: self.position,
            action_count: self.action_count,
        }
    }
}

impl Clone for Unit {
    fn clone(&self) -> (u: Unit)
        ensures
            u@ == self@,
    {
        let mut attacks: Vec<Attack> = Vec::new();
        let mut i: usize = 0;
        while i < self.attacks.len()
            invariant
                i <= self.attacks.len(),
                attacks.len() == i,
                forall|j: int| 0 <= j < i ==> attacks[j]@ == self.attacks[j]@,
            decreases self.attacks.len() - i,
        {
            attacks.push(self.attacks[i].clone());
            i += 1;
        }
        assert(attacks@.map_values(|a: Attack| a@) =~= self.attacks@.map_values(|a: Attack| a@));
        Unit {
            name: self.name.clone(),
            entity_id: self.entity_id,
            team: self.team,
            health: self.health,
            attacks,
            position: self.position,
            action_count: self.action_count,
        }
    }
}

impl Unit {
    /// Creates a unit that has not acted yet.
    pub fn new(
        name: String,
        entity_id: u64,
        team: Team,
        health: u64,
        attacks: Vec<Attack>,
        position: Position,
    ) -> (u: Unit)
        ensures
            u@ == (UnitView {
                name: name@,
                entity_id,
                team,
                health,
                attacks: attacks@.map_values(|a: Attack| a@),
                position,
                action_count: 0,
            }),
    {
        let action_count: u64 = 0;
        Unit { name, entity_id, team, health, attacks, position, action_count }
    }

    /// Creates a unit of the standard setup: full health and the two standard
    /// attacks.
    pub fn new_default(name: String, entity_id: u64, team: Team, position: Position) -> (u: Unit)
        ensures
            u@ == (UnitView {
                name: name@,
                entity_id,
                team,
                health: DEFAULT_HEALTH,
                attacks: default_attacks(),
                position,
                action_count: 0,
            }),
    {
        let mut attacks: Vec<Attack> = Vec::new();
        attacks.push(Attack::new("Fight".to_owned(), 50, 1));
        attacks.push(Attack::new("Shoot".to_owned(), 30, 100));
        assert(attacks@.map_values(|a: Attack| a@) =~= default_attacks());
        Unit::new(name, entity_id, team, DEFAULT_HEALTH, attacks, position)
    }

    /// Returns where the unit stands.
    pub fn position(&self) -> (p: Position)
        ensures
            p == self@.position,
    {
        self.position
    }

    /// Returns the unit's identity.
    pub fn entity_id(&self) -> (id: u64)
        ensures
            id == self@.entity_id,
    {
        self.entity_id
    }

    /// Returns the side the unit fights for.
    pub fn team(&self) -> (t: Team)
        ensures
            t == self@.team,
    {
        self.team
    }

    /// Returns how many actions the unit has completed.
    pub fn action_count(&self) -> (n: u64)
        ensures
            n == self@.action_count,
    {
        self.action_count
    }

    /// Records that the unit completed an action.
    pub fn inc_action_count(&mut self)
        requires
            old(self)@.action_count < u64::MAX,
        ensures
            final(self)@ == (UnitView {
                action_count: (old(self)@.action_count + 1) as u64,
                ..old(self)@
            }),
    {
        self.action_count += 1;
    }

    /// Returns a copy of the unit's name.
    pub fn name(&self) -> (s: String)
        ensures
            s@ == self@.name,
    {
        self.name.clone()
    }

    /// Returns copies of the unit's attacks, in their order.
    pub fn attacks(&self) -> (v: Vec<Attack>)
        ensures
            v@.map_values(|a: Attack| a@) == self@.attacks,
    {
        let u = self.clone();
        u.attacks
    }

    /// Returns the health the unit has left.
    pub fn health(&self) -> (h: u64)
        ensures
            h == self@.health,
    {
        self.health
    }

    /// Takes `damage` points from the unit's health, stopping at zero, and tells
    /// whether the unit outlived it.
    pub fn deal_damage(&mut self, damage: u64) -> (status: DamageStatus)
        ensures
            final(self)@ == (UnitView {
                health: health_after(old(self)@.health, damage),
                ..old(self)@
            }),
            status == (if damage >= old(self)@.health {
                DamageStatus::Dead
            } else {
                DamageStatus::Alive
            }),
    {
        if damage >= self.health {
            self.health = 0;
            return DamageStatus::Dead;
        }
        self.health -= damage;
        DamageStatus::Alive
    }

    /// Puts the unit on another cell.
    pub fn move_unit(&mut self, position: Position)
        ensures
            final(self)@ == (UnitView { position, ..old(self)@ }),
    {
        self.position = position;
    }
}

} // verus!
