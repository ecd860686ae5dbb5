//! Plain data shared by the battle simulator and the bag generator.

use vstd::prelude::*;

verus! {

/// Identifier of a card in a catalog.
#[derive(Debug, Clone, Copy, PartialEq, Eq, Hash, Structural)]
pub struct CardId(pub u32);

/// Printed combat statistics of a card.
#[derive(Debug, Clone, Copy, PartialEq, Eq, Structural)]
pub struct UnitStats {
    pub attack: i32,
    pub health: i32,
}

/// A card as far as combat reads it.
#[derive(Debug, Clone)]
pub struct UnitCard {
    pub id: CardId,
    pub name: String,
    pub stats: UnitStats,
}

/// A card placed on the board, with the health it currently has.
#[derive(Debug, Clone)]
pub struct BoardUnit {
    pub card: UnitCard,
    pub current_health: i32,
}

/// What a combat unit is, mathematically: a name and three integers.
pub struct UnitView {
    pub name: Seq<char>,
    pub attack: int,
    pub health: int,
    pub max_health: int,
}

/// Snapshot of a unit's stat block, as carried by a battle-start event.
#[derive(Debug, Clone)]
pub struct CombatUnitInfo {
    pub name: String,
    pub attack: i32,
    pub health: i32,
    pub max_health: i32,
}

impl View for CombatUnitInfo {
    type V = UnitView;

    open spec fn view(&self) -> UnitView {
        UnitView {
            name: self.name@,
            attack: self.attack as int,
            health: self.health as int,
            max_health: self.max_health as int,
        }
    }
}

} // verus!
