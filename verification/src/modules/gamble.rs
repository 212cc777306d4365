use vstd::prelude::*;
use crate::message::{
    outgoing, privmsg, whisper, whisper_text, CommandData, Message, MessageView, PrivateMessage,
};
use crate::text::{decimal, parse_i32, parse_i32_spec, push_i64, push_str, str_eq};

verus! {

/// Whether `message` is a gamble command with something to bet: `gamble` or
/// `roulette` followed by at least one argument. Only then are the user's points
/// needed.
pub open spec fn is_gamble_request(m: MessageView) -> bool {
    match m {
        MessageView::Command(_, c) => (c.name == "gamble"@ || c.name == "roulette"@) && c.args.len() > 0,
        _ => false,
    }
}

pub fn gamble_requested(message: &Message) -> (r: bool)
    ensures
        r == is_gamble_request(message@),
{
    match message {
        Message::Command(_, command) => {
            (str_eq(command.name.as_str(), "gamble") || str_eq(command.name.as_str(), "roulette"))
                && command.args.len() > 0
        },
        _ => false,
    }
}

/// The amount a bet argument stands for: a number, or `all` for every point the
/// user has; `None` for anything else.
pub open spec fn bet_amount_spec(arg: Seq<char>, curr_points: i32) -> Option<i32> {
    match parse_i32_spec(arg) {
        Some(a) => Some(a),
        None => if arg == "all"@ {
            Some(curr_points)
        } else {
            None
        },
    }
}

pub fn bet_amount(arg: &str, curr_points: i32) -> (r: Option<i32>)
    ensures
        r == bet_amount_spec(arg@, curr_points),
{
    match parse_i32(arg) {
        Some(a) => Some(a),
        None => if str_eq(arg, "all") {
            Some(curr_points)
        } else {
            None
        },
    }
}

/// The points after the bet: the amount is lost or doubled.
pub open spec fn points_after(curr_points: int, amount: int, lost: bool) -> int {
    if lost {
        curr_points - amount
    } else {
        curr_points + amount
    }
}

/// Winning the bet does not overflow the points.
pub open spec fn gamble_fits(arg: Seq<char>, curr_points: i32, lost: bool) -> bool {
    match bet_amount_spec(arg, curr_points) {
        Some(a) => (0 < a && a <= curr_points && !lost) ==> curr_points + a <= i32::MAX,
        None => true,
    }
}

/// What a gamble comes to.
pub enum GambleOutcome {
    /// Nothing is answered.
    Ignore,
    /// The points stay as they are and this is answered.
    Reply(Message),
    /// The user's points become the first field; once stored, the second is answered.
    Update(i32, Message),
}

/// The announcement of a played bet.
pub open spec fn result_text(name: Seq<char>, new_points: int, lost: bool) -> Seq<char> {
    if lost {
        name + " has lost and now has "@ + decimal(new_points) + " points. FeelsWeirdMan"@
    } else {
        name + " has won and now has "@ + decimal(new_points) + " points. PagChomp"@
    }
}

/// The whisper asking for a positive bet.
pub open spec fn positive_text(name: Seq<char>) -> Seq<char> {
    name + ", please enter a positive amount of points."@
}

/// The whisper refusing a bet above the user's points.
pub open spec fn not_enough_text(name: Seq<char>) -> Seq<char> {
    name + ", you don't have enough points for this roulette."@
}

/// The gamble of a user with `curr_points` points who bets `arg` in `channel`;
/// `lost` is the roll of the coin.
pub open spec fn gamble_spec(
    name: Seq<char>,
    channel: Seq<char>,
    arg: Seq<char>,
    curr_points: i32,
    lost: bool,
) -> GambleView {
    match bet_amount_spec(arg, curr_points) {
        None => GambleView::Ignore,
        Some(a) => if a <= 0 {
            GambleView::Reply(outgoing("jtv"@, whisper_text(name, positive_text(name))))
        } else if a <= curr_points {
            let np = points_after(curr_points as int, a as int, lost);
            GambleView::Update(np, outgoing(channel, result_text(name, np, lost)))
        } else {
            GambleView::Reply(outgoing("jtv"@, whisper_text(name, not_enough_text(name))))
        },
    }
}

/// The mathematical content of a [`GambleOutcome`].
pub enum GambleView {
    Ignore,
    Reply(MessageView),
    Update(int, MessageView),
}

impl View for GambleOutcome {
    type V = GambleView;

    open spec fn view(&self) -> GambleView {
        match self {
            GambleOutcome::Ignore => GambleView::Ignore,
            GambleOutcome::Reply(m) => GambleView::Reply(m@),
            GambleOutcome::Update(p, m) => GambleView::Update(*p as int, m@),
        }
    }
}

/// Decides a gamble command (`gamble <amount>` or `roulette <amount>`, where the
/// amount may be `all`) of a user who has `curr_points` points; `lost` is the
/// coin's verdict.
pub fn gamble_outcome(privmsg_in: &PrivateMessage, command: &CommandData, curr_points: i32, lost: bool) -> (r: GambleOutcome)
    requires
        command.args@.len() > 0,
        bet_amount_spec(command.args@[0]@, curr_points).is_some() ==> privmsg_in.tags@.contains_key("display-name"@),
        gamble_fits(command.args@[0]@, curr_points, lost),
    ensures
        r@ == gamble_spec(
            privmsg_in.tags@["display-name"@],
            privmsg_in.channel@,
            command.args@[0]@,
            curr_points,
            lost,
        ),
{
    let amount = match bet_amount(command.args[0].as_str(), curr_points) {
        Some(a) => a,
        None => {
            return GambleOutcome::Ignore;
        },
    };
    let name = privmsg_in.tag("display-name");
    if amount <= 0 {
        let mut t = String::new();
        push_str(&mut t, name.as_str());
        push_str(&mut t, ", please enter a positive amount of points.");
        return GambleOutcome::Reply(whisper(name.as_str(), t.as_str()));
    }
    if amount <= curr_points {
        let new_points: i32 = if lost {
            curr_points - amount
        } else {
            curr_points + amount
        };
        let mut t = String::new();
        push_str(&mut t, name.as_str());
        if lost {
            push_str(&mut t, " has lost and now has ");
            push_i64(&mut t, new_points as i64);
            push_str(&mut t, " points. FeelsWeirdMan");
        } else {
            push_str(&mut t, " has won and now has ");
            push_i64(&mut t, new_points as i64);
            push_str(&mut t, " points. PagChomp");
        }
        GambleOutcome::Update(new_points, privmsg(privmsg_in.channel.as_str(), t))
    } else {
        let mut t = String::new();
        push_str(&mut t, name.as_str());
        push_str(&mut t, ", you don't have enough points for this roulette.");
        GambleOutcome::Reply(whisper(name.as_str(), t.as_str()))
    }
}

/// A bet never takes more than the user has: after a lost bet the points are
/// what they were minus the amount, and never below zero.
pub proof fn law_gamble_never_negative(name: Seq<char>, channel: Seq<char>, arg: Seq<char>, curr_points: i32)
    ensures
        gamble_spec(name, channel, arg, curr_points, true) matches GambleView::Update(np, _) ==> 0 <= np < curr_points,
        gamble_spec(name, channel, arg, curr_points, false) matches GambleView::Update(np, _) ==> curr_points < np <= 2 * curr_points,
{
}

/// A played bet moves the points by exactly the amount bet: a bet of `a` (the
/// number given, or every point for `all`) with `0 < a <= curr_points` leaves
/// `curr_points - a` points when lost and `curr_points + a` when won, and the
/// announcement in the channel tells that number.
pub proof fn law_gamble_moves_by_amount(
    name: Seq<char>,
    channel: Seq<char>,
    arg: Seq<char>,
    curr_points: i32,
    a: i32,
    lost: bool,
)
    requires
        parse_i32_spec(arg) == Some(a) || (parse_i32_spec(arg).is_none() && arg == "all"@ && a == curr_points),
        0 < a <= curr_points,
    ensures
        lost ==> gamble_spec(name, channel, arg, curr_points, lost) == GambleView::Update(
            curr_points - a,
            outgoing(channel, name + " has lost and now has "@ + decimal(curr_points - a) + " points. FeelsWeirdMan"@),
        ),
        !lost ==> gamble_spec(name, channel, arg, curr_points, lost) == GambleView::Update(
            curr_points + a,
            outgoing(channel, name + " has won and now has "@ + decimal(curr_points + a) + " points. PagChomp"@),
        ),
{
}

} // verus!
