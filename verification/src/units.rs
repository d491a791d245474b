//! Units: what a player moves through the galaxy.

use vstd::prelude::*;

verus! {

/// The kinds of unit.
#[derive(Debug, Clone, Copy, PartialEq, Eq, Structural)]
pub enum UnitType {
    CargoShip,
    Colony,
    Probe,
}

impl UnitType {
    /// How far a unit of this kind sees.
    pub open spec fn sight_range(self) -> u32 {
        match self {
            UnitType::CargoShip => 1,
            UnitType::Colony => 5,
            UnitType::Probe => 15,
        }
    }

    /// How much a unit of this kind can hold in its accelerator tank.
    pub open spec fn accelerator(self) -> u32 {
        match self {
            UnitType::Probe => 25,
            _ => 1,
        }
    }

    /// The defense and attack strength of a unit of this kind.
    pub open spec fn strength(self) -> u32 {
        match self {
            UnitType::Probe => 0,
            _ => 1,
        }
    }

    /// The kind's name, as it is shown.
    pub open spec fn label(self) -> Seq<char> {
        match self {
            UnitType::CargoShip => "CargoShip"@,
            UnitType::Colony => "Colony"@,
            UnitType::Probe => "Probe"@,
        }
    }

    /// The kind's name, as it is shown.
    pub fn name(&self) -> (name: String)
        ensures
            name@ == self.label(),
    {
        match self {
            UnitType::CargoShip => "CargoShip".to_owned(),
            UnitType::Colony => "Colony".to_owned(),
            UnitType::Probe => "Probe".to_owned(),
        }
    }
}

/// A unit and its equipment.
#[derive(Debug)]
pub struct Unit {
    pub size: u32,
    pub player: String,
    pub unit_type: UnitType,
    pub accelerator_max: u32,
    pub accelerator_tank: u32,
    pub can_recharge: bool,
    pub sight_range: u32,
    pub defense_max: u32,
    pub defense_current: u32,
    pub attack_max: u32,
}

impl Unit {
    /// Whether the unit is equipped as a new unit of its kind is: size 1,
    /// full tank, full defense, and the kind's ranges and strengths.
    pub open spec fn factory_new(&self) -> bool {
        &&& self.size == 1
        &&& self.accelerator_max == self.unit_type.accelerator()
        &&& self.accelerator_tank == self.unit_type.accelerator()
        &&& !self.can_recharge
        &&& self.sight_range == self.unit_type.sight_range()
        &&& self.defense_max == self.unit_type.strength()
        &&& self.defense_current == self.unit_type.strength()
        &&& self.attack_max == self.unit_type.strength()
    }

    /// Whether the unit is a new unit of kind `unit_type` that belongs to
    /// the player called `player`.
    pub open spec fn is_new(&self, player: Seq<char>, unit_type: UnitType) -> bool {
        &&& self.player@ == player
        &&& self.unit_type == unit_type
        &&& self.factory_new()
    }

    /// A new unit of kind `unit_type` that belongs to `player`.
    pub fn new(player: String, unit_type: UnitType) -> (unit: Unit)
        ensures
            unit.player == player,
            unit.unit_type == unit_type,
            unit.factory_new(),
            unit.is_new(player@, unit_type),
    {
        match unit_type {
            UnitType::CargoShip => Unit {
                player,
                unit_type,
                size: 1,
                accelerator_max: 1,
                accelerator_tank: 1,
                sight_range: 1,
                defense_max: 1,
                defense_current: 1,
                attack_max: 1,
                can_recharge: false,
            },
            UnitType::Colony => Unit {
                player,
                unit_type,
                size: 1,
                accelerator_max: 1,
                accelerator_tank: 1,
                sight_range: 5,
                defense_max: 1,
                defense_current: 1,
                attack_max: 1,
                can_recharge: false,
            },
            UnitType::Probe => Unit {
                player,
                unit_type,
                size: 1,
                accelerator_max: 25,
                accelerator_tank: 25,
                sight_range: 15,
                defense_max: 0,
                defense_current: 0,
                attack_max: 0,
                can_recharge: false,
            },
        }
    }
}

} // verus!
