use lordbornebot::message::{CommandData, Message, PrivateMessage, TagMap};
use lordbornebot::modules::rpg::{
    create_outcome, delete_reply, info_item_name, info_reply, info_target, inventory_listing, inventory_needs_player,
    item_info_reply_text, item_kind, ItemKind,
    inventory_reply, parse_point_allocations, print_inventory_item, rpg_command_of, CreateOutcome, PlayerLookup,
    RpgCommand, MAX_ALLOCATED_POINTS,
};
use lordbornebot::rpg::{Armor, Inventory, InventoryItem, Item, Player, Stats, Weapon};
use lordbornebot::world::{Game, Player as SlotPlayer};

fn pm(name: &str) -> PrivateMessage {
    let mut tags = TagMap::new();
    tags.insert("display-name".to_string(), name.to_string());
    PrivateMessage { tags, channel: "chan".to_string(), sender: String::new(), text: String::new() }
}

fn cmd(name: &str, args: &[&str]) -> CommandData {
    CommandData { name: name.to_string(), raw_args: String::new(), args: args.iter().map(|s| s.to_string()).collect() }
}

fn text_of(m: &Message) -> (String, String) {
    match m {
        Message::Private(p) => (p.channel.clone(), p.text.clone()),
        _ => panic!("expected a chat message"),
    }
}

#[test]
fn new_player() {
    let p = Player::new(Stats { dex: 3, str: 3, vit: 4 });
    assert_eq!(p.state.hp, 4);
    assert_eq!(p.inventory.bag.len(), 10);
    assert!(p.inventory.bag.iter().all(|s| s.is_none()));
    let w = p.inventory.weapon.as_ref().unwrap();
    assert_eq!(w.name, "Ludwig's Holy Blade");
    assert_eq!(p.get_damage(), (1 + 3 * 1 + 3 * 2, 4));
    assert!(p.can_equip_shield());
}

#[test]
fn damage_and_shield() {
    let mut p = Player::new(Stats { dex: 2, str: 5, vit: 3 });
    p.inventory.weapon = Some(InventoryItem {
        name: "Greatsword".to_string(),
        item: Weapon { base_dmg: 10, crit_dmg: 7, two_handed: true, dex_scaling: 1, str_scaling: 3 },
    });
    assert_eq!(p.get_damage(), (10 + 5 * 3 + 2 * 1, 7));
    assert!(!p.can_equip_shield());
    p.inventory.weapon = None;
    assert_eq!(p.get_damage(), (0, 0));
    assert!(p.can_equip_shield());
    let inv = Inventory::default();
    assert!(inv.weapon.is_none() && inv.bag.is_empty());
}

#[test]
fn slot_player_and_game() {
    let p = SlotPlayer::new(Stats { dex: 1, str: 2, vit: 7 });
    assert_eq!(p.state.hp, 7);
    assert!(p.inventory.bag.is_empty() && p.inventory.armor.is_empty());
    assert!(p.inventory.weapon.item.is_none());
    let g = Game::new();
    assert!(g.players.is_empty());
}

#[test]
fn allocations() {
    let args: Vec<String> = vec!["4".into(), "3".into(), "3".into()];
    let s = parse_point_allocations(&args).unwrap();
    assert_eq!((s.vit, s.str, s.dex), (4, 3, 3));
    let args: Vec<String> = vec!["4".into(), "x".into(), "3".into()];
    assert!(parse_point_allocations(&args).is_none());
    assert_eq!(MAX_ALLOCATED_POINTS, 10);
}

#[test]
fn create_command_outcomes() {
    let p = pm("Ann");
    match create_outcome(&p, &cmd("create", &["4", "3", "3"]), false) {
        CreateOutcome::Create(player, m) => {
            assert_eq!((player.stats.vit, player.stats.str, player.stats.dex), (4, 3, 3));
            assert_eq!(text_of(&m), ("chan".to_string(), "Ann successfully created a character! PagChomp".to_string()));
        }
        _ => panic!("expected a new character"),
    }
    let reply = |args: &[&str], already: bool| match create_outcome(&p, &cmd("create", args), already) {
        CreateOutcome::Reply(m) => text_of(&m).1,
        _ => panic!("expected a reply"),
    };
    assert_eq!(reply(&["4", "3", "3"], true), "Ann, your character is already created.");
    assert_eq!(reply(&["4", "3", "4"], false), "/w Ann You have to allocate 10 points, but you've allocated 11.");
    assert_eq!(reply(&["9", "1", "0"], false), "/w Ann Point allocations must be values from 1 to 8.");
    assert_eq!(reply(&["a", "1", "1"], false), "/w Ann Point allocations must be values from 1 to 8.");
    assert_eq!(reply(&["4", "3"], false), "/w Ann Command usage: >>create <vitality> <strength> <dexterity>");
}

#[test]
fn info_replies() {
    let p = pm("Ann");
    let player = Player::new(Stats { dex: 3, str: 3, vit: 4 });
    let t = info_target(&cmd("info", &["BoB"])).unwrap();
    assert_eq!(t, "bob");
    assert!(info_target(&cmd("info", &[])).is_none());
    let found = PlayerLookup::Found(player);
    assert_eq!(
        text_of(&info_reply(&p, &Some(t.clone()), &found).unwrap()).1,
        "bob's stats: VIT 4, STR 3, DEX 3; HP 4, DMG: 10 (4); weapon: Ludwig's Holy Blade"
    );
    assert_eq!(
        text_of(&info_reply(&p, &None, &found).unwrap()).1,
        "ann's stats: VIT 4, STR 3, DEX 3; HP 4, DMG: 10 (4); weapon: Ludwig's Holy Blade"
    );
    assert_eq!(text_of(&info_reply(&p, &Some(t.clone()), &PlayerLookup::NoSuchUser).unwrap()).1, "/w Ann No such user found.");
    assert_eq!(
        text_of(&info_reply(&p, &Some(t.clone()), &PlayerLookup::NoCharacter).unwrap()).1,
        "/w Ann That user doesn't have a character created"
    );
    assert_eq!(
        text_of(&info_reply(&p, &None, &PlayerLookup::NoCharacter).unwrap()).1,
        "/w Ann That user doesn't have a character created."
    );
    assert!(info_reply(&p, &None, &PlayerLookup::Failed).is_none());
}

#[test]
fn delete_replies() {
    let p = pm("Ann");
    assert_eq!(text_of(&delete_reply(&p, true)).1, "Ann, your character is deleted.");
    assert_eq!(text_of(&delete_reply(&p, false)).1, "Ann, failed to delete your character.");
}

#[test]
fn inventory_texts() {
    let mut player = Player::new(Stats { dex: 3, str: 3, vit: 4 });
    assert_eq!(inventory_listing(&player.inventory, ItemKind::All), "Ludwig's Holy Blade (equipped)");
    player.inventory.bag[1] = Some(InventoryItem { name: "Plate".to_string(), item: Item::Chestplate(Armor { def: 3 }) });
    assert_eq!(inventory_listing(&player.inventory, ItemKind::All), "Plate, Ludwig's Holy Blade (equipped)");
    player.inventory.weapon = None;
    assert_eq!(inventory_listing(&player.inventory, ItemKind::All), "Plate");
    let none: Option<InventoryItem<Weapon>> = None;
    assert_eq!(print_inventory_item(&none, true), "");
    let p = pm("Ann");
    assert_eq!(
        text_of(&inventory_reply(&p, &cmd("inventory", &["list"]), Some(&player)).unwrap()).1,
        "/w Ann Your inventory: Plate"
    );
    assert!(inventory_needs_player(&cmd("inventory", &["list"])));
    assert!(inventory_needs_player(&cmd("inventory", &["list", "weapons"])));
    assert!(!inventory_needs_player(&cmd("inventory", &["list", "potions"])));
    assert!(inventory_needs_player(&cmd("inventory", &["info", "x"])));
    assert!(!inventory_needs_player(&cmd("inventory", &["info"])));
    assert!(inventory_reply(&p, &cmd("inventory", &["list", "weapons"]), None).is_none());
    assert!(inventory_reply(&p, &cmd("inventory", &["list"]), None).is_none());
    assert!(inventory_reply(&p, &cmd("inventory", &["info", "x"]), None).is_none());
    assert!(inventory_reply(&p, &cmd("inventory", &["list", "potions"]), Some(&player)).is_none());
    assert!(inventory_reply(&p, &cmd("inventory", &["info"]), Some(&player)).is_none());
    assert_eq!(
        text_of(&inventory_reply(&p, &cmd("inventory", &[]), None).unwrap()).1,
        "/w Ann Command usage: >>inventory <list< weapons|armor|consumables>>|<info <item_name>>"
    );
    assert_eq!(
        text_of(&inventory_reply(&p, &cmd("inventory", &["sell"]), None).unwrap()).1,
        "/w Ann Command usage: >>inventory <list<all|weapons|armor|consumables>|info <item_name>>"
    );
}

#[test]
fn rpg_routing() {
    let m = |n: &str| Message::Command(pm("A"), cmd(n, &[]));
    assert!(matches!(rpg_command_of(&m("delete")), Some(RpgCommand::Delete)));
    assert!(matches!(rpg_command_of(&m("create")), Some(RpgCommand::Create)));
    assert!(matches!(rpg_command_of(&m("info")), Some(RpgCommand::Info)));
    assert!(matches!(rpg_command_of(&m("inventory")), Some(RpgCommand::Inventory)));
    assert!(rpg_command_of(&m("equip")).is_none());
    assert!(rpg_command_of(&Message::Ping).is_none());
}

#[test]
fn inventory_kinds() {
    let mut player = Player::new(Stats { dex: 3, str: 3, vit: 4 });
    player.inventory.bag[0] = Some(InventoryItem { name: "Plate".to_string(), item: Item::Chestplate(Armor { def: 3 }) });
    player.inventory.bag[2] = Some(InventoryItem {
        name: "Axe".to_string(),
        item: Item::Weapon(Weapon { base_dmg: 5, crit_dmg: 9, two_handed: true, dex_scaling: 0, str_scaling: 3 }),
    });
    assert!(matches!(item_kind("weapons"), Some(ItemKind::Weapons)));
    assert!(matches!(item_kind("armor"), Some(ItemKind::Armor)));
    assert!(matches!(item_kind("consumables"), Some(ItemKind::Consumables)));
    assert!(matches!(item_kind("all"), Some(ItemKind::All)));
    assert!(item_kind("Weapons").is_none());
    assert_eq!(inventory_listing(&player.inventory, ItemKind::All), "Plate, Axe, Ludwig's Holy Blade (equipped)");
    assert_eq!(inventory_listing(&player.inventory, ItemKind::Weapons), "Axe, Ludwig's Holy Blade (equipped)");
    assert_eq!(inventory_listing(&player.inventory, ItemKind::Armor), "Plate");
    assert_eq!(inventory_listing(&player.inventory, ItemKind::Consumables), "");
    let p = pm("Ann");
    let reply = |args: &[&str]| text_of(&inventory_reply(&p, &cmd("inventory", args), Some(&player)).unwrap()).1;
    assert_eq!(reply(&["list", "weapons"]), "/w Ann Your inventory: Axe, Ludwig's Holy Blade (equipped)");
    assert_eq!(reply(&["list", "armor"]), "/w Ann Your inventory: Plate");
    assert_eq!(reply(&["list", "consumables"]), "/w Ann Your inventory: ");
    assert_eq!(reply(&["list", "all"]), "/w Ann Your inventory: Plate, Axe, Ludwig's Holy Blade (equipped)");
    assert_eq!(reply(&["list"]), "/w Ann Your inventory: Plate, Axe, Ludwig's Holy Blade (equipped)");
}

#[test]
fn inventory_item_info() {
    let mut player = Player::new(Stats { dex: 3, str: 3, vit: 4 });
    player.inventory.bag[4] = Some(InventoryItem { name: "Iron Plate".to_string(), item: Item::Chestplate(Armor { def: 7 }) });
    assert_eq!(info_item_name(&cmd("inventory", &["info", "Iron", "Plate"])), "Iron Plate");
    assert_eq!(item_info_reply_text(&player.inventory, "Iron Plate"), "Iron Plate: armor, defense 7");
    assert_eq!(
        item_info_reply_text(&player.inventory, "Ludwig's Holy Blade"),
        "Ludwig's Holy Blade: weapon, damage 1, critical 4, one-handed, STR scaling 1, DEX scaling 2"
    );
    assert_eq!(item_info_reply_text(&player.inventory, "Sword"), "You have no item called Sword.");
    let p = pm("Ann");
    assert_eq!(
        text_of(&inventory_reply(&p, &cmd("inventory", &["info", "Iron", "Plate"]), Some(&player)).unwrap()).1,
        "/w Ann Iron Plate: armor, defense 7"
    );
    let none = Player { inventory: Inventory { weapon: None, bag: Vec::new() }, ..player };
    assert_eq!(
        text_of(&info_reply(&p, &None, &PlayerLookup::Found(none)).unwrap()).1,
        "ann's stats: VIT 4, STR 3, DEX 3; HP 4, DMG: 0 (0); weapon: none"
    );
}
