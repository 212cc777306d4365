use vstd::prelude::*;
use crate::text::push_str;

verus! {

/// What a character currently has of its stats (its hit points).
pub struct State {
    pub hp: i32,
}

/// The points a character allocated to dexterity, strength and vitality.
pub struct Stats {
    pub dex: i32,
    pub str: i32,
    pub vit: i32,
}

pub struct Weapon {
    pub base_dmg: i32,
    pub crit_dmg: i32,
    pub two_handed: bool,
    pub dex_scaling: i32,
    pub str_scaling: i32,
}

pub struct Armor {
    pub def: i32,
}

pub enum Item {
    Weapon(Weapon),
    Chestplate(Armor),
}

/// An item together with its display name.
pub struct InventoryItem<T> {
    pub name: String,
    pub item: T,
}

/// A character's equipped weapon and the bag of carried items.
pub struct Inventory {
    pub weapon: Option<InventoryItem<Weapon>>,
    pub bag: Vec<Option<InventoryItem<Item>>>,
}

impl Default for Inventory {
    fn default() -> (inv: Inventory)
        ensures
            inv.weapon.is_none(),
            inv.bag@.len() == 0,
    {
        Inventory { bag: Vec::new(), weapon: None }
    }
}

/// A character of the RPG.
pub struct Player {
    pub inventory: Inventory,
    pub state: State,
    pub stats: Stats,
}

/// The number of empty bag slots a new character is given.
pub const INITIAL_BAG_SLOTS: usize = 5;

/// The weapon every new character starts with.
pub open spec fn starting_weapon(w: Weapon) -> bool {
    w.base_dmg == 1 && w.crit_dmg == 4 && !w.two_handed && w.dex_scaling == 2 && w.str_scaling == 1
}

/// The damage a character with `stats` deals with `weapon`: the base damage plus
/// the strength and dexterity scaled by the weapon; and the critical bonus.
pub open spec fn damage_of(stats: Stats, weapon: Option<Weapon>) -> (int, int) {
    match weapon {
        Some(w) => (w.base_dmg + stats.str * w.str_scaling + stats.dex * w.dex_scaling, w.crit_dmg as int),
        None => (0, 0),
    }
}

/// The damage computation stays within `i32` at every step.
pub open spec fn damage_fits(stats: Stats, weapon: Option<Weapon>) -> bool {
    match weapon {
        Some(w) => {
            &&& i32::MIN <= stats.str * w.str_scaling <= i32::MAX
            &&& i32::MIN <= stats.dex * w.dex_scaling <= i32::MAX
            &&& i32::MIN <= w.base_dmg + stats.str * w.str_scaling <= i32::MAX
            &&& i32::MIN <= w.base_dmg + stats.str * w.str_scaling + stats.dex * w.dex_scaling <= i32::MAX
        },
        None => true,
    }
}

/// `p` is a character just created with `stats`.
pub open spec fn is_new_player(p: Player, stats: Stats) -> bool {
    &&& p.stats == stats
    &&& p.state.hp == stats.vit
    &&& p.inventory.bag@.len() == 2 * INITIAL_BAG_SLOTS
    &&& forall|i: int| 0 <= i < p.inventory.bag@.len() ==> (#[trigger] p.inventory.bag@[i]).is_none()
    &&& p.inventory.weapon matches Some(w) && w.name@ == "Ludwig's Holy Blade"@ && starting_weapon(w.item)
}

impl Player {
    /// The equipped weapon, without its name.
    pub open spec fn weapon(&self) -> Option<Weapon> {
        match self.inventory.weapon {
            Some(i) => Some(i.item),
            None => None,
        }
    }

    /// A new character: full hit points (its vitality), twice `INITIAL_BAG_SLOTS`
    /// empty bag slots, and the starting blade in hand.
    pub fn new(stats: Stats) -> (p: Player)
        ensures
            is_new_player(p, stats),
    {
        let mut inventory = Inventory::default();
        // The bag is filled twice over with `INITIAL_BAG_SLOTS` empty slots.
        let mut round: usize = 0;
        while round < 2
            invariant
                0 <= round <= 2,
                inventory.bag@.len() == round * INITIAL_BAG_SLOTS,
                forall|i: int| 0 <= i < inventory.bag@.len() ==> inventory.bag@[i].is_none(),
            decreases 2 - round,
        {
            let mut k: usize = 0;
            while k < INITIAL_BAG_SLOTS
                invariant
                    0 <= k <= INITIAL_BAG_SLOTS,
                    0 <= round < 2,
                    inventory.bag@.len() == round * INITIAL_BAG_SLOTS + k,
                    forall|i: int| 0 <= i < inventory.bag@.len() ==> inventory.bag@[i].is_none(),
                decreases INITIAL_BAG_SLOTS - k,
            {
                inventory.bag.push(None);
                k = k + 1;
            }
            round = round + 1;
        }
        let mut name = String::new();
        push_str(&mut name, "Ludwig's Holy Blade");
        inventory.weapon = Some(
            InventoryItem {
                name,
                item: Weapon { base_dmg: 1, crit_dmg: 4, two_handed: false, dex_scaling: 2, str_scaling: 1 },
            },
        );
        let hp = stats.vit;
        Player { inventory, state: State { hp }, stats }
    }

    /// A shield can be carried unless the weapon in hand needs both hands.
    pub fn can_equip_shield(&self) -> (r: bool)
        ensures
            r == match self.weapon() {
                Some(w) => !w.two_handed,
                None => true,
            },
    {
        match &self.inventory.weapon {
            Some(inv_item) => !inv_item.item.two_handed,
            None => true,
        }
    }

    /// Whether [`Player::get_damage`] stays within `i32`.
    pub fn damage_in_range(&self) -> (r: bool)
        ensures
            r == damage_fits(self.stats, self.weapon()),
    {
        match &self.inventory.weapon {
            Some(inv_item) => {
                let w = &inv_item.item;
                let ghost (x1, y1, x2, y2) = (self.stats.str as int, w.str_scaling as int, self.stats.dex as int, w.dex_scaling as int);
                assert(-0x4000_0000_0000_0000 <= x1 * y1 <= 0x4000_0000_0000_0000) by (nonlinear_arith)
                    requires
                        -0x8000_0000 <= x1 < 0x8000_0000,
                        -0x8000_0000 <= y1 < 0x8000_0000,
                ;
                assert(-0x4000_0000_0000_0000 <= x2 * y2 <= 0x4000_0000_0000_0000) by (nonlinear_arith)
                    requires
                        -0x8000_0000 <= x2 < 0x8000_0000,
                        -0x8000_0000 <= y2 < 0x8000_0000,
                ;
                let a: i64 = self.stats.str as i64 * w.str_scaling as i64;
                let b: i64 = self.stats.dex as i64 * w.dex_scaling as i64;
                let lo: i64 = -2147483648;
                let hi: i64 = 2147483647;
                lo <= a && a <= hi && lo <= b && b <= hi && lo <= w.base_dmg as i64 + a && w.base_dmg as i64 + a <= hi
                    && lo <= w.base_dmg as i64 + a + b && w.base_dmg as i64 + a + b <= hi
            },
            None => true,
        }
    }

    /// The damage and the critical damage of the character.
    pub fn get_damage(&self) -> (r: (i32, i32))
        requires
            damage_fits(self.stats, self.weapon()),
        ensures
            r.0 == damage_of(self.stats, self.weapon()).0,
            r.1 == damage_of(self.stats, self.weapon()).1,
    {
        let mut dmg: i32 = 0;
        let mut dmg_crit: i32 = 0;
        if let Some(inv_item) = &self.inventory.weapon {
            dmg = dmg + inv_item.item.base_dmg;
            dmg = dmg + self.stats.str * inv_item.item.str_scaling;
            dmg = dmg + self.stats.dex * inv_item.item.dex_scaling;
            dmg_crit = dmg_crit + inv_item.item.crit_dmg;
        }
        (dmg, dmg_crit)
    }
}

} // verus!
