use vstd::prelude::*;
use std::collections::HashMap;
pub use crate::rpg::{State, Stats};

verus! {

// The slot-based character sheet: every inventory position is a slot of a
// given kind that may hold an item; and the game world holding players by name.

/// The kind of item an inventory slot takes.
pub enum InventorySlotType {
    Any,
    Helmet,
    Ring,
    Necklace,
    Leggings,
    Chestplate,
    Boots,
    Weapon,
}

pub struct WeaponItem {
    pub base_dmg: i32,
    pub crit_dmg: i32,
    pub two_handed: bool,
    pub dex_scaling: i32,
    pub str_scaling: i32,
}

pub struct ArmorItem {
    pub def: i32,
    pub slot: InventorySlotType,
}

/// An item with its display name.
pub enum Item {
    Weapon(String, WeaponItem),
    Armor(String, ArmorItem),
}

pub struct InventorySlot {
    pub item: Option<Item>,
    pub slot_type: InventorySlotType,
}

pub struct Inventory {
    pub bag: Vec<InventorySlot>,
    pub weapon: InventorySlot,
    pub armor: Vec<InventorySlot>,
}

pub struct Player {
    pub inventory: Inventory,
    pub state: State,
    pub stats: Stats,
}

impl Player {
    /// A new character: full hit points (its vitality), an empty bag, no armor
    /// slots, and an empty weapon slot.
    pub fn new(stats: Stats) -> (p: Player)
        ensures
            p.stats == stats,
            p.state.hp == stats.vit,
            p.inventory.bag@.len() == 0,
            p.inventory.armor@.len() == 0,
            p.inventory.weapon.item.is_none(),
            p.inventory.weapon.slot_type is Weapon,
    {
        let hp = stats.vit;
        Player {
            inventory: Inventory {
                bag: Vec::new(),
                weapon: InventorySlot { item: None, slot_type: InventorySlotType::Weapon },
                armor: Vec::new(),
            },
            state: State { hp },
            stats,
        }
    }
}

/// The game world: the players, by name.
pub struct Game {
    pub players: HashMap<String, Player>,
}

impl Game {
    /// A world without players.
    pub fn new() -> (g: Game)
        ensures
            g.players@ == Map::<String, Player>::empty(),
    {
        Game { players: HashMap::new() }
    }
}

} // verus!
