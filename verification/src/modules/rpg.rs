use vstd::prelude::*;
use crate::message::{outgoing, privmsg, whisper, whisper_text, CommandData, Message, MessageView, PrivateMessage};
use crate::modules::ping::opt_view;
use crate::rpg::{damage_fits, damage_of, is_new_player, Inventory, InventoryItem, Player, Stats};
use crate::text::{
    decimal, lowercase, parse_i32, parse_i32_spec, push_i64, push_str, str_chars, str_eq, to_lowercase,
    trim_end, trim_end_pos, views,
};

verus! {

/// The points a new character distributes over vitality, strength and dexterity.
pub const MAX_ALLOCATED_POINTS: i32 = 10;

/// The allocations of `create <vitality> <strength> <dexterity>`, if all three parse.
pub open spec fn allocations_spec(args: Seq<Seq<char>>) -> Option<Stats> {
    match (parse_i32_spec(args[0]), parse_i32_spec(args[1]), parse_i32_spec(args[2])) {
        (Some(vit), Some(str), Some(dex)) => Some(Stats { vit, str, dex }),
        _ => None,
    }
}

/// Reads the first three arguments as vitality, strength and dexterity.
pub fn parse_point_allocations(args: &Vec<String>) -> (r: Option<Stats>)
    requires
        args@.len() >= 3,
    ensures
        r == allocations_spec(views(args@)),
{
    assert(views(args@)[0] == args@[0]@);
    assert(views(args@)[1] == args@[1]@);
    assert(views(args@)[2] == args@[2]@);
    let vit = match parse_i32(args[0].as_str()) {
        Some(v) => v,
        None => {
            return None;
        },
    };
    let str = match parse_i32(args[1].as_str()) {
        Some(v) => v,
        None => {
            return None;
        },
    };
    let dex = match parse_i32(args[2].as_str()) {
        Some(v) => v,
        None => {
            return None;
        },
    };
    Some(Stats { vit, str, dex })
}

/// Every allocation lies in `1..=8`.
pub open spec fn allocations_in_range(s: Stats) -> bool {
    1 <= s.vit <= 8 && 1 <= s.dex <= 8 && 1 <= s.str <= 8
}

/// What a `create` command comes to.
pub enum CreateOutcome {
    /// Nothing is created; this is answered.
    Reply(Message),
    /// The character is to be stored; then the message is answered.
    Create(Player, Message),
}

pub enum CreateView {
    Reply(MessageView),
    Create(Stats, MessageView),
}

/// The answer to `create <vitality> <strength> <dexterity>` by the user `name`.
pub open spec fn create_spec(name: Seq<char>, channel: Seq<char>, args: Seq<Seq<char>>, already_created: bool) -> CreateView {
    let bad_values = outgoing("jtv"@, whisper_text(name, "Point allocations must be values from 1 to 8."@));
    if already_created {
        CreateView::Reply(outgoing(channel, name + ", your character is already created."@))
    } else if args.len() >= 3 {
        match allocations_spec(args) {
            None => CreateView::Reply(bad_values),
            Some(st) => if !allocations_in_range(st) {
                CreateView::Reply(bad_values)
            } else if st.vit + st.dex + st.str != MAX_ALLOCATED_POINTS {
                CreateView::Reply(
                    outgoing(
                        "jtv"@,
                        whisper_text(
                            name,
                            "You have to allocate 10 points, but you've allocated "@ + decimal(st.vit + st.dex + st.str)
                                + "."@,
                        ),
                    ),
                )
            } else {
                CreateView::Create(st, outgoing(channel, name + " successfully created a character! PagChomp"@))
            },
        }
    } else {
        CreateView::Reply(
            outgoing("jtv"@, whisper_text(name, "Command usage: >>create <vitality> <strength> <dexterity>"@)),
        )
    }
}

/// Decides a `create` command; `already_created` tells whether the sender has a
/// character already.
pub fn create_outcome(privmsg_in: &PrivateMessage, command: &CommandData, already_created: bool) -> (r: CreateOutcome)
    requires
        privmsg_in.tags@.contains_key("display-name"@),
    ensures
        match (r, create_spec(privmsg_in.tags@["display-name"@], privmsg_in.channel@, views(command.args@), already_created)) {
            (CreateOutcome::Reply(m), CreateView::Reply(mv)) => m@ == mv,
            (CreateOutcome::Create(p, m), CreateView::Create(st, mv)) => is_new_player(p, st) && m@ == mv,
            _ => false,
        },
{
    let name = privmsg_in.tag("display-name");
    if already_created {
        let mut t = String::new();
        push_str(&mut t, name.as_str());
        push_str(&mut t, ", your character is already created.");
        return CreateOutcome::Reply(privmsg(privmsg_in.channel.as_str(), t));
    }
    if command.args.len() >= 3 {
        match parse_point_allocations(&command.args) {
            Some(stats) => {
                if stats.vit <= 0 || stats.vit > 8 || stats.dex <= 0 || stats.dex > 8 || stats.str <= 0
                    || stats.str > 8 {
                    return CreateOutcome::Reply(whisper(name.as_str(), "Point allocations must be values from 1 to 8."));
                }
                let sum = stats.vit + stats.dex + stats.str;
                if sum != MAX_ALLOCATED_POINTS {
                    let mut t = String::new();
                    push_str(&mut t, "You have to allocate 10 points, but you've allocated ");
                    push_i64(&mut t, sum as i64);
                    push_str(&mut t, ".");
                    CreateOutcome::Reply(whisper(name.as_str(), t.as_str()))
                } else {
                    let mut t = String::new();
                    push_str(&mut t, name.as_str());
                    push_str(&mut t, " successfully created a character! PagChomp");
                    CreateOutcome::Create(Player::new(stats), privmsg(privmsg_in.channel.as_str(), t))
                }
            },
            None => CreateOutcome::Reply(whisper(name.as_str(), "Point allocations must be values from 1 to 8.")),
        }
    } else {
        CreateOutcome::Reply(whisper(name.as_str(), "Command usage: >>create <vitality> <strength> <dexterity>"))
    }
}

/// A character is created only with every allocation in `1..=8` and exactly
/// `MAX_ALLOCATED_POINTS` allocated in all, and only for a user without one.
pub proof fn law_create_only_valid(name: Seq<char>, channel: Seq<char>, args: Seq<Seq<char>>, already_created: bool)
    ensures
        create_spec(name, channel, args, already_created) matches CreateView::Create(st, _) ==> {
            &&& !already_created
            &&& allocations_in_range(st)
            &&& st.vit + st.dex + st.str == MAX_ALLOCATED_POINTS
            &&& Some(st) == allocations_spec(args)
        },
{
}

/// The allocations are read in the order the usage text gives: when the three
/// arguments parse as `v`, `s` and `d`, the vitality is `v`, the strength `s`
/// and the dexterity `d`; when any of them does not parse there are none. A
/// user without a character who allocates them validly gets a character with
/// exactly those stats.
pub proof fn law_allocations_in_order(
    name: Seq<char>,
    channel: Seq<char>,
    args: Seq<Seq<char>>,
    v: i32,
    s: i32,
    d: i32,
)
    requires
        args.len() >= 3,
    ensures
        (parse_i32_spec(args[0]) == Some(v) && parse_i32_spec(args[1]) == Some(s) && parse_i32_spec(args[2]) == Some(d))
            ==> allocations_spec(args) == Some(Stats { vit: v, str: s, dex: d }),
        (parse_i32_spec(args[0]).is_none() || parse_i32_spec(args[1]).is_none() || parse_i32_spec(args[2]).is_none())
            ==> allocations_spec(args).is_none(),
        (parse_i32_spec(args[0]) == Some(v) && parse_i32_spec(args[1]) == Some(s) && parse_i32_spec(args[2]) == Some(d)
            && 1 <= v <= 8 && 1 <= s <= 8 && 1 <= d <= 8 && v + s + d == 10) ==> create_spec(name, channel, args, false)
            == CreateView::Create(
            Stats { vit: v, str: s, dex: d },
            outgoing(channel, name + " successfully created a character! PagChomp"@),
        ),
{
}

/// What looking a character up gave.
pub enum PlayerLookup {
    /// No user has the name asked for.
    NoSuchUser,
    /// The lookup failed.
    Failed,
    /// The user has no character.
    NoCharacter,
    Found(Player),
}

/// The user whose character `info` shows: the lowercased first argument, or the
/// sender when there is none.
pub open spec fn info_target_spec(c: crate::message::CommandView) -> Option<Seq<char>> {
    if c.args.len() >= 1 {
        Some(lowercase(c.args[0]))
    } else {
        None
    }
}

pub fn info_target(command: &CommandData) -> (r: Option<String>)
    ensures
        match r {
            Some(t) => info_target_spec(command@) == Some(t@),
            None => info_target_spec(command@).is_none(),
        },
{
    if command.args.len() >= 1 {
        assert(views(command.args@)[0] == command.args@[0]@);
        Some(to_lowercase(command.args[0].as_str()))
    } else {
        None
    }
}

/// The equipped gear as `info` shows it: the weapon's name, or `none`.
pub open spec fn gear_text(p: Player) -> Seq<char> {
    match item_name(p.inventory.weapon) {
        Some(n) => n,
        None => "none"@,
    }
}

/// `<name>'s stats: VIT <v>, STR <s>, DEX <d>; HP <hp>, DMG: <dmg> (<crit>)`
pub open spec fn stats_core(name: Seq<char>, p: Player) -> Seq<char> {
    let dmg = damage_of(p.stats, p.weapon());
    name + "'s stats: VIT "@ + decimal(p.stats.vit as int) + ", STR "@ + decimal(p.stats.str as int) + ", DEX "@
        + decimal(p.stats.dex as int) + "; HP "@ + decimal(p.state.hp as int) + ", DMG: "@ + decimal(dmg.0) + " ("@
        + decimal(dmg.1) + ")"@
}

/// What `info` shows of a character: its stats, then `; weapon: <gear>`.
pub open spec fn stats_text(name: Seq<char>, p: Player) -> Seq<char> {
    stats_core(name, p) + "; weapon: "@ + gear_text(p)
}

/// The answer to `info`: `target` is the user asked about (`None`: the sender),
/// `lookup` what looking up their character gave.
pub open spec fn info_spec(name: Seq<char>, channel: Seq<char>, target: Option<Seq<char>>, lookup: PlayerLookup) -> Option<MessageView> {
    match (target, lookup) {
        (Some(t), PlayerLookup::Found(p)) => Some(outgoing(channel, stats_text(t, p))),
        (Some(_), PlayerLookup::NoSuchUser) => Some(outgoing("jtv"@, whisper_text(name, "No such user found."@))),
        (Some(_), PlayerLookup::NoCharacter) => Some(
            outgoing("jtv"@, whisper_text(name, "That user doesn't have a character created"@)),
        ),
        (None, PlayerLookup::Found(p)) => Some(outgoing(channel, stats_text(lowercase(name), p))),
        (None, PlayerLookup::NoCharacter) => Some(
            outgoing("jtv"@, whisper_text(name, "That user doesn't have a character created."@)),
        ),
        (_, _) => None,
    }
}

fn push_stats(t: &mut String, p: &Player)
    requires
        damage_fits(p.stats, p.weapon()),
    ensures
        final(t)@ == old(t)@ + stats_core(Seq::empty(), *p),
{
    let dmg = p.get_damage();
    push_str(t, "'s stats: VIT ");
    push_i64(t, p.stats.vit as i64);
    push_str(t, ", STR ");
    push_i64(t, p.stats.str as i64);
    push_str(t, ", DEX ");
    push_i64(t, p.stats.dex as i64);
    push_str(t, "; HP ");
    push_i64(t, p.state.hp as i64);
    push_str(t, ", DMG: ");
    push_i64(t, dmg.0 as i64);
    push_str(t, " (");
    push_i64(t, dmg.1 as i64);
    push_str(t, ")");
}

fn push_gear(t: &mut String, p: &Player)
    ensures
        final(t)@ == old(t)@ + "; weapon: "@ + gear_text(*p),
{
    push_str(t, "; weapon: ");
    match &p.inventory.weapon {
        Some(w) => push_str(t, w.name.as_str()),
        None => push_str(t, "none"),
    }
}

/// What `info` tells of a character it finds: the name asked for, then the
/// vitality, strength and dexterity in that order, the hit points, the damage
/// (the weapon's base damage plus strength and dexterity scaled by the weapon)
/// with the critical damage, and the weapon's name.
pub proof fn law_info_shows_stats(
    name: Seq<char>,
    channel: Seq<char>,
    target: Seq<char>,
    p: Player,
    weapon_name: Seq<char>,
    w: crate::rpg::Weapon,
)
    requires
        item_name(p.inventory.weapon) == Some(weapon_name),
        p.weapon() == Some(w),
    ensures
        info_spec(name, channel, Some(target), PlayerLookup::Found(p)) == Some(
            outgoing(
                channel,
                target + "'s stats: VIT "@ + decimal(p.stats.vit as int) + ", STR "@ + decimal(p.stats.str as int)
                    + ", DEX "@ + decimal(p.stats.dex as int) + "; HP "@ + decimal(p.state.hp as int) + ", DMG: "@
                    + decimal(w.base_dmg + p.stats.str * w.str_scaling + p.stats.dex * w.dex_scaling) + " ("@
                    + decimal(w.crit_dmg as int) + "); weapon: "@ + weapon_name,
            ),
        ),
{
    reveal_strlit(")");
    reveal_strlit("); weapon: ");
    reveal_strlit("; weapon: ");
    let expected = target + "'s stats: VIT "@ + decimal(p.stats.vit as int) + ", STR "@ + decimal(p.stats.str as int)
        + ", DEX "@ + decimal(p.stats.dex as int) + "; HP "@ + decimal(p.state.hp as int) + ", DMG: "@
        + decimal(w.base_dmg + p.stats.str * w.str_scaling + p.stats.dex * w.dex_scaling) + " ("@
        + decimal(w.crit_dmg as int) + "); weapon: "@ + weapon_name;
    assert(stats_text(target, p) =~= expected);
}

/// Answers `info [user]`.
pub fn info_reply(privmsg_in: &PrivateMessage, target: &Option<String>, lookup: &PlayerLookup) -> (r: Option<Message>)
    requires
        privmsg_in.tags@.contains_key("display-name"@),
        lookup matches PlayerLookup::Found(p) ==> damage_fits(p.stats, p.weapon()),
    ensures
        opt_view(r) == info_spec(
            privmsg_in.tags@["display-name"@],
            privmsg_in.channel@,
            match target {
                Some(t) => Some(t@),
                None => None,
            },
            *lookup,
        ),
{
    let name = privmsg_in.tag("display-name");
    match lookup {
        PlayerLookup::Found(p) => {
            let mut t = String::new();
            match target {
                Some(tg) => push_str(&mut t, tg.as_str()),
                None => {
                    let low = to_lowercase(name.as_str());
                    push_str(&mut t, low.as_str());
                },
            }
            let ghost head = t@;
            push_stats(&mut t, p);
            assert(t@ == stats_core(head, *p));
            push_gear(&mut t, p);
            Some(privmsg(privmsg_in.channel.as_str(), t))
        },
        PlayerLookup::NoSuchUser => match target {
            Some(_) => Some(whisper(name.as_str(), "No such user found.")),
            None => None,
        },
        PlayerLookup::NoCharacter => match target {
            Some(_) => Some(whisper(name.as_str(), "That user doesn't have a character created")),
            None => Some(whisper(name.as_str(), "That user doesn't have a character created.")),
        },
        PlayerLookup::Failed => None,
    }
}

/// Answers `delete`, after the character was (`deleted`) or could not be removed.
pub fn delete_reply(privmsg_in: &PrivateMessage, deleted: bool) -> (r: Message)
    requires
        privmsg_in.tags@.contains_key("display-name"@),
    ensures
        r@ == outgoing(
            privmsg_in.channel@,
            privmsg_in.tags@["display-name"@] + if deleted {
                ", your character is deleted."@
            } else {
                ", failed to delete your character."@
            },
        ),
{
    let name = privmsg_in.tag("display-name");
    let mut t = String::new();
    push_str(&mut t, name.as_str());
    if deleted {
        push_str(&mut t, ", your character is deleted.");
    } else {
        push_str(&mut t, ", failed to delete your character.");
    }
    privmsg(privmsg_in.channel.as_str(), t)
}

/// How an inventory slot is listed: `<name>, ` (with ` (equipped)` before the
/// comma for what is worn), and nothing for an empty slot.
pub open spec fn item_text(name: Option<Seq<char>>, equipped: bool) -> Seq<char> {
    match name {
        Some(n) => n + (if equipped { " (equipped)"@ } else { Seq::empty() }) + ", "@,
        None => Seq::empty(),
    }
}

pub open spec fn item_name<T>(item: Option<InventoryItem<T>>) -> Option<Seq<char>> {
    match item {
        Some(i) => Some(i.name@),
        None => None,
    }
}

pub fn print_inventory_item<T>(item: &Option<InventoryItem<T>>, equipped: bool) -> (r: String)
    ensures
        r@ == item_text(item_name(*item), equipped),
{
    if let Some(item) = item {
        let mut out = String::new();
        push_str(&mut out, item.name.as_str());
        if equipped {
            push_str(&mut out, " (equipped)");
        }
        push_str(&mut out, ", ");
        return out;
    }
    String::new()
}

/// The kinds of items `inventory list <kind>` can show.
#[derive(Clone, Copy)]
pub enum ItemKind {
    Weapons,
    Armor,
    Consumables,
    All,
}

/// The kind an argument of `inventory list` names, if it names one.
pub open spec fn item_kind_spec(arg: Seq<char>) -> Option<ItemKind> {
    if arg == "weapons"@ {
        Some(ItemKind::Weapons)
    } else if arg == "armor"@ {
        Some(ItemKind::Armor)
    } else if arg == "consumables"@ {
        Some(ItemKind::Consumables)
    } else if arg == "all"@ {
        Some(ItemKind::All)
    } else {
        None
    }
}

pub fn item_kind(arg: &str) -> (r: Option<ItemKind>)
    ensures
        r == item_kind_spec(arg@),
{
    if str_eq(arg, "weapons") {
        Some(ItemKind::Weapons)
    } else if str_eq(arg, "armor") {
        Some(ItemKind::Armor)
    } else if str_eq(arg, "consumables") {
        Some(ItemKind::Consumables)
    } else if str_eq(arg, "all") {
        Some(ItemKind::All)
    } else {
        None
    }
}

/// Whether a carried item is of `kind`: weapons are weapons, chestplates are
/// armor, no item is a consumable yet, and every item counts for `all`.
pub open spec fn in_kind(item: crate::rpg::Item, kind: ItemKind) -> bool {
    match kind {
        ItemKind::Weapons => item is Weapon,
        ItemKind::Armor => item is Chestplate,
        ItemKind::Consumables => false,
        ItemKind::All => true,
    }
}

fn in_kind_exec(item: &crate::rpg::Item, kind: ItemKind) -> (r: bool)
    ensures
        r == in_kind(*item, kind),
{
    match kind {
        ItemKind::Weapons => match item {
            crate::rpg::Item::Weapon(_) => true,
            _ => false,
        },
        ItemKind::Armor => match item {
            crate::rpg::Item::Chestplate(_) => true,
            _ => false,
        },
        ItemKind::Consumables => false,
        ItemKind::All => true,
    }
}

/// Whether the equipped weapon is listed for `kind`.
pub open spec fn weapon_in_kind(kind: ItemKind) -> bool {
    kind is Weapons || kind is All
}

/// The name a bag slot is listed under for `kind`: none for an empty slot or an
/// item of another kind.
pub open spec fn slot_name(slot: Option<InventoryItem<crate::rpg::Item>>, kind: ItemKind) -> Option<Seq<char>> {
    match slot {
        Some(i) => if in_kind(i.item, kind) {
            Some(i.name@)
        } else {
            None
        },
        None => None,
    }
}

/// The bag's slots of `kind`, listed in order.
pub open spec fn bag_text(bag: Seq<Option<InventoryItem<crate::rpg::Item>>>, kind: ItemKind) -> Seq<char>
    decreases bag.len(),
{
    if bag.len() == 0 {
        Seq::empty()
    } else {
        bag_text(bag.drop_last(), kind) + item_text(slot_name(bag.last(), kind), false)
    }
}

/// The listing of an inventory's items of `kind`: those in the bag, then the
/// equipped weapon where weapons are asked for, without the final `, `.
pub open spec fn inventory_text(inv: Inventory, kind: ItemKind) -> Seq<char> {
    let weapon = if weapon_in_kind(kind) {
        item_name(inv.weapon)
    } else {
        None
    };
    trim_end(bag_text(inv.bag@, kind) + item_text(weapon, true), ", "@)
}

pub fn inventory_listing(inv: &Inventory, kind: ItemKind) -> (r: String)
    ensures
        r@ == inventory_text(*inv, kind),
{
    let mut out = String::new();
    let mut i: usize = 0;
    while i < inv.bag.len()
        invariant
            i <= inv.bag@.len(),
            out@ == bag_text(inv.bag@.take(i as int), kind),
        decreases inv.bag.len() - i,
    {
        let piece = match &inv.bag[i] {
            Some(it) => if in_kind_exec(&it.item, kind) {
                print_inventory_item(&inv.bag[i], false)
            } else {
                String::new()
            },
            None => String::new(),
        };
        push_str(&mut out, piece.as_str());
        assert(inv.bag@.take(i + 1).drop_last() == inv.bag@.take(i as int));
        i = i + 1;
    }
    assert(inv.bag@.take(inv.bag@.len() as int) == inv.bag@);
    if weapon_in_kind_exec(kind) {
        let w = print_inventory_item(&inv.weapon, true);
        push_str(&mut out, w.as_str());
    }
    let v = str_chars(out.as_str());
    let sep: Vec<char> = vec![',', ' '];
    assert(sep@ == ", "@) by {
        reveal_strlit(", ");
    }
    let end = trim_end_pos(&v, &sep);
    crate::text::string_of(&v, 0, end)
}

fn weapon_in_kind_exec(kind: ItemKind) -> (r: bool)
    ensures
        r == weapon_in_kind(kind),
{
    match kind {
        ItemKind::Weapons => true,
        ItemKind::All => true,
        _ => false,
    }
}

/// The words joined by single spaces.
pub open spec fn join_words(words: Seq<Seq<char>>) -> Seq<char>
    decreases words.len(),
{
    if words.len() == 0 {
        Seq::empty()
    } else if words.len() == 1 {
        words[0]
    } else {
        join_words(words.drop_last()) + " "@ + words.last()
    }
}

/// The item name of `inventory info <item name>`: the arguments after `info`,
/// joined by single spaces.
pub fn info_item_name(command: &CommandData) -> (r: String)
    requires
        command.args@.len() >= 2,
    ensures
        r@ == join_words(views(command.args@).skip(1)),
{
    let ghost w = views(command.args@).skip(1);
    let mut out = String::new();
    push_str(&mut out, command.args[1].as_str());
    assert(w.take(1) =~= seq![w[0]]);
    assert(join_words(w.take(1)) == w[0]);
    let mut i: usize = 2;
    while i < command.args.len()
        invariant
            2 <= i <= command.args@.len(),
            w == views(command.args@).skip(1),
            out@ == join_words(w.take(i - 1)),
        decreases command.args.len() - i,
    {
        push_str(&mut out, " ");
        push_str(&mut out, command.args[i].as_str());
        assert(w.take(i as int).drop_last() =~= w.take(i - 1));
        assert(w.take(i as int).last() == command.args@[i as int]@);
        i = i + 1;
    }
    assert(w.take(i - 1) =~= w);
    out
}

/// The first item in the bag named `name`.
pub open spec fn find_in_bag(bag: Seq<Option<InventoryItem<crate::rpg::Item>>>, name: Seq<char>) -> Option<crate::rpg::Item>
    decreases bag.len(),
{
    if bag.len() == 0 {
        None
    } else {
        match find_in_bag(bag.drop_last(), name) {
            Some(it) => Some(it),
            None => match bag.last() {
                Some(i) => if i.name@ == name {
                    Some(i.item)
                } else {
                    None
                },
                None => None,
            },
        }
    }
}

/// The item of an inventory named `name`: the first such in the bag, else the
/// equipped weapon if it has that name.
pub open spec fn find_item(inv: Inventory, name: Seq<char>) -> Option<crate::rpg::Item> {
    match find_in_bag(inv.bag@, name) {
        Some(it) => Some(it),
        None => match inv.weapon {
            Some(w) => if w.name@ == name {
                Some(crate::rpg::Item::Weapon(w.item))
            } else {
                None
            },
            None => None,
        },
    }
}

/// What `inventory info` tells of a weapon.
pub open spec fn weapon_info(w: crate::rpg::Weapon) -> Seq<char> {
    ": weapon, damage "@ + decimal(w.base_dmg as int) + ", critical "@ + decimal(w.crit_dmg as int) + ", "@
        + (if w.two_handed { "two-handed"@ } else { "one-handed"@ }) + ", STR scaling "@ + decimal(
        w.str_scaling as int,
    ) + ", DEX scaling "@ + decimal(w.dex_scaling as int)
}

/// What `inventory info` tells of an item (after its name).
pub open spec fn item_info(item: crate::rpg::Item) -> Seq<char> {
    match item {
        crate::rpg::Item::Weapon(w) => weapon_info(w),
        crate::rpg::Item::Chestplate(a) => ": armor, defense "@ + decimal(a.def as int),
    }
}

/// The answer's text to `inventory info <name>`.
pub open spec fn item_info_text(inv: Inventory, name: Seq<char>) -> Seq<char> {
    match find_item(inv, name) {
        Some(it) => name + item_info(it),
        None => "You have no item called "@ + name + "."@,
    }
}

fn push_weapon_info(t: &mut String, w: &crate::rpg::Weapon)
    ensures
        final(t)@ == old(t)@ + weapon_info(*w),
{
    push_str(t, ": weapon, damage ");
    push_i64(t, w.base_dmg as i64);
    push_str(t, ", critical ");
    push_i64(t, w.crit_dmg as i64);
    if w.two_handed {
        push_str(t, ", two-handed");
    } else {
        push_str(t, ", one-handed");
    }
    push_str(t, ", STR scaling ");
    push_i64(t, w.str_scaling as i64);
    push_str(t, ", DEX scaling ");
    push_i64(t, w.dex_scaling as i64);
    proof {
        reveal_strlit(", two-handed");
        reveal_strlit(", one-handed");
        reveal_strlit("two-handed");
        reveal_strlit("one-handed");
        reveal_strlit(", ");
    }
}

fn push_item_info(t: &mut String, item: &crate::rpg::Item)
    ensures
        final(t)@ == old(t)@ + item_info(*item),
{
    match item {
        crate::rpg::Item::Weapon(w) => push_weapon_info(t, w),
        crate::rpg::Item::Chestplate(a) => {
            push_str(t, ": armor, defense ");
            push_i64(t, a.def as i64);
        },
    }
}

/// Describes the item named `name` in `inv`.
pub fn item_info_reply_text(inv: &Inventory, name: &str) -> (r: String)
    ensures
        r@ == item_info_text(*inv, name@),
{
    let mut found: Option<usize> = None;
    let mut i: usize = 0;
    while i < inv.bag.len()
        invariant
            i <= inv.bag@.len(),
            match found {
                Some(k) => k < i && inv.bag@[k as int] is Some && find_in_bag(inv.bag@.take(i as int), name@)
                    == Some(inv.bag@[k as int].unwrap().item),
                None => find_in_bag(inv.bag@.take(i as int), name@).is_none(),
            },
        decreases inv.bag.len() - i,
    {
        assert(inv.bag@.take(i + 1).drop_last() == inv.bag@.take(i as int));
        if found.is_none() {
            if let Some(it) = &inv.bag[i] {
                if str_eq(it.name.as_str(), name) {
                    found = Some(i);
                }
            }
        }
        i = i + 1;
    }
    assert(inv.bag@.take(inv.bag@.len() as int) == inv.bag@);
    let mut t = String::new();
    match found {
        Some(k) => {
            push_str(&mut t, name);
            match &inv.bag[k] {
                Some(it) => push_item_info(&mut t, &it.item),
                None => {},
            }
            return t;
        },
        None => {},
    }
    if let Some(w) = &inv.weapon {
        if str_eq(w.name.as_str(), name) {
            push_str(&mut t, name);
            push_weapon_info(&mut t, &w.item);
            return t;
        }
    }
    push_str(&mut t, "You have no item called ");
    push_str(&mut t, name);
    push_str(&mut t, ".");
    t
}

/// What an `inventory` command asks to list: the kind named after `list`, or
/// every item when `list` is not followed by exactly one argument.
pub open spec fn list_kind(args: Seq<Seq<char>>) -> Option<ItemKind> {
    if args.len() == 2 {
        item_kind_spec(args[1])
    } else {
        Some(ItemKind::All)
    }
}

/// Whether an `inventory` command needs the sender's character: listing items
/// of a known kind, or telling about an item, does.
pub open spec fn inventory_needs_player_spec(c: crate::message::CommandView) -> bool {
    c.args.len() >= 1 && ((c.args[0] == "list"@ && list_kind(c.args).is_some()) || (c.args[0] == "info"@
        && c.args.len() >= 2))
}

pub fn inventory_needs_player(command: &CommandData) -> (r: bool)
    ensures
        r == inventory_needs_player_spec(command@),
{
    if command.args.len() >= 1 {
        assert(views(command.args@)[0] == command.args@[0]@);
        if str_eq(command.args[0].as_str(), "list") {
            proof {
                reveal_strlit("list");
                reveal_strlit("info");
                assert("list"@[0] != "info"@[0]);
            }
            if command.args.len() == 2 {
                assert(views(command.args@)[1] == command.args@[1]@);
                item_kind(command.args[1].as_str()).is_some()
            } else {
                true
            }
        } else {
            str_eq(command.args[0].as_str(), "info") && command.args.len() >= 2
        }
    } else {
        false
    }
}

/// The usage whisper for an `inventory` command it cannot read.
pub open spec fn inventory_usage() -> Seq<char> {
    "Command usage: >>inventory <list<all|weapons|armor|consumables>|info <item_name>>"@
}

/// The answer to `inventory ...`; `player` is the sender's character where it is
/// needed and could be loaded.
pub open spec fn inventory_spec(name: Seq<char>, args: Seq<Seq<char>>, player: Option<Player>) -> Option<MessageView> {
    if args.len() < 1 {
        Some(
            outgoing(
                "jtv"@,
                whisper_text(name, "Command usage: >>inventory <list< weapons|armor|consumables>>|<info <item_name>>"@),
            ),
        )
    } else if args[0] == "list"@ {
        match list_kind(args) {
            None => None,
            Some(k) => match player {
                Some(p) => Some(outgoing("jtv"@, whisper_text(name, "Your inventory: "@ + inventory_text(p.inventory, k)))),
                None => None,
            },
        }
    } else if args[0] == "info"@ {
        if args.len() < 2 {
            None
        } else {
            match player {
                Some(p) => Some(outgoing("jtv"@, whisper_text(name, item_info_text(p.inventory, join_words(args.skip(1)))))),
                None => None,
            }
        }
    } else {
        Some(outgoing("jtv"@, whisper_text(name, inventory_usage())))
    }
}

pub fn inventory_reply(privmsg_in: &PrivateMessage, command: &CommandData, player: Option<&Player>) -> (r: Option<Message>)
    requires
        privmsg_in.tags@.contains_key("display-name"@),
    ensures
        opt_view(r) == inventory_spec(
            privmsg_in.tags@["display-name"@],
            views(command.args@),
            match player {
                Some(p) => Some(*p),
                None => None,
            },
        ),
{
    let name = privmsg_in.tag("display-name");
    let usage = "Command usage: >>inventory <list<all|weapons|armor|consumables>|info <item_name>>";
    if command.args.len() < 1 {
        return Some(whisper(name.as_str(), "Command usage: >>inventory <list< weapons|armor|consumables>>|<info <item_name>>"));
    }
    assert(views(command.args@)[0] == command.args@[0]@);
    if str_eq(command.args[0].as_str(), "list") {
        let kind = if command.args.len() == 2 {
            assert(views(command.args@)[1] == command.args@[1]@);
            item_kind(command.args[1].as_str())
        } else {
            Some(ItemKind::All)
        };
        match kind {
            None => None,
            Some(k) => match player {
                Some(p) => {
                    let listing = inventory_listing(&p.inventory, k);
                    let mut t = String::new();
                    push_str(&mut t, "Your inventory: ");
                    push_str(&mut t, listing.as_str());
                    Some(whisper(name.as_str(), t.as_str()))
                },
                None => None,
            },
        }
    } else if str_eq(command.args[0].as_str(), "info") {
        if command.args.len() < 2 {
            return None;
        }
        match player {
            Some(p) => {
                let item = info_item_name(command);
                let t = item_info_reply_text(&p.inventory, item.as_str());
                Some(whisper(name.as_str(), t.as_str()))
            },
            None => None,
        }
    } else {
        Some(whisper(name.as_str(), usage))
    }
}

/// The RPG commands.
pub enum RpgCommand {
    Delete,
    Create,
    Info,
    Inventory,
}

/// Which RPG command a message is, if any.
pub open spec fn rpg_command_spec(m: MessageView) -> Option<RpgCommand> {
    match m {
        MessageView::Command(_, c) => if c.name == "delete"@ {
            Some(RpgCommand::Delete)
        } else if c.name == "create"@ {
            Some(RpgCommand::Create)
        } else if c.name == "info"@ {
            Some(RpgCommand::Info)
        } else if c.name == "inventory"@ {
            Some(RpgCommand::Inventory)
        } else {
            None
        },
        _ => None,
    }
}

pub fn rpg_command_of(message: &Message) -> (r: Option<RpgCommand>)
    ensures
        r == rpg_command_spec(message@),
{
    match message {
        Message::Command(_, c) => {
            if str_eq(c.name.as_str(), "delete") {
                Some(RpgCommand::Delete)
            } else if str_eq(c.name.as_str(), "create") {
                Some(RpgCommand::Create)
            } else if str_eq(c.name.as_str(), "info") {
                Some(RpgCommand::Info)
            } else if str_eq(c.name.as_str(), "inventory") {
                Some(RpgCommand::Inventory)
            } else {
                None
            }
        },
        _ => None,
    }
}

} // verus!
