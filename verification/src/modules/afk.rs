use vstd::prelude::*;
use crate::message::{outgoing, privmsg, CommandData, Message, MessageView, PrivateMessage};
use crate::modules::ping::opt_view;
use crate::text::{decimal, push_i128, push_str, str_eq, views};

verus! {

/// An instant in UTC as chrono counts it: whole seconds since the Unix epoch and
/// the nanoseconds within the second.
pub struct Timestamp {
    pub secs: i64,
    pub nanos: u32,
}

/// A user's AFK record: whether they are away, why, and since when.
pub struct AFKStatus {
    pub afk: bool,
    pub reason: String,
    pub time: Timestamp,
}

/// Whether chrono's `DateTime::<Utc>::from_timestamp(secs, nanos)` gives a date:
/// the day (counted from January 1 of year 1, with 1970-01-01 as day 719163)
/// lies within chrono's years -262143 to 262142, the nanoseconds are below two
/// seconds, and a leap-second value (one second or more) comes only in the last
/// second of a minute.
pub open spec fn chrono_representable(secs: i64, nanos: u32) -> bool {
    let day = (secs as int) / 86400 + 719163;
    let second_of_day = (secs as int) % 86400;
    &&& -95746129 <= day <= 95745399
    &&& nanos < 2_000_000_000
    &&& nanos >= 1_000_000_000 ==> second_of_day % 60 == 59
}

/// chrono: the current instant, `Utc::now()`, as whole seconds since the epoch
/// (`timestamp`) and the nanoseconds within the second
/// (`timestamp_subsec_nanos`). Trusted: `Utc::now` builds the instant with
/// `from_timestamp` from the system clock's seconds and sub-second nanoseconds
/// (below one second), so chrono can represent what comes back. Which instant it
/// is depends on the clock and is not stated. `Utc::now` panics only when the
/// system clock is set before 1970.
#[verifier::external_body]
fn utc_now() -> (t: Timestamp)
    ensures
        chrono_representable(t.secs, t.nanos),
        t.nanos < 1_000_000_000,
{
    let now = chrono::Utc::now();
    Timestamp { secs: now.timestamp(), nanos: now.timestamp_subsec_nanos() }
}

/// What chrono's `(from_timestamp(now) - from_timestamp(since)).num_seconds()`
/// gives: the whole seconds from `since` to `now`, truncated toward zero, with
/// chrono's own counting of leap seconds.
pub uninterp spec fn seconds_between(now_secs: i64, now_nanos: u32, secs: i64, nanos: u32) -> i64;

/// chrono: `DateTime::<Utc>::from_timestamp` of both instants, their difference
/// (`Sub`, which cannot fail between two dates chrono holds) and its
/// `TimeDelta::num_seconds`. Trusted: `None` exactly when one of the instants
/// is not representable; otherwise the named difference, which, where neither
/// instant is inside a leap second, is the exact difference truncated toward
/// zero.
#[verifier::external_body]
fn elapsed_seconds(now_secs: i64, now_nanos: u32, secs: i64, nanos: u32) -> (r: Option<i64>)
    ensures
        r.is_some() == (chrono_representable(now_secs, now_nanos) && chrono_representable(secs, nanos)),
        r matches Some(e) ==> e == seconds_between(now_secs, now_nanos, secs, nanos),
        now_nanos < 1_000_000_000 && nanos < 1_000_000_000 ==> (r matches Some(e) ==> e == trunc_div(
            (now_secs * 1_000_000_000 + now_nanos) - (secs * 1_000_000_000 + nanos),
            1_000_000_000,
        )),
{
    match (chrono::DateTime::from_timestamp(now_secs, now_nanos), chrono::DateTime::from_timestamp(secs, nanos)) {
        (Some(now), Some(since)) => Some((now - since).num_seconds()),
        _ => None,
    }
}

/// Division rounding toward zero, as Rust's `/` on integers.
pub open spec fn trunc_div(a: int, b: int) -> int {
    if a >= 0 {
        a / b
    } else {
        -((-a) / b)
    }
}

/// Days, hours, minutes and seconds of an elapsed time of `s` seconds, as the
/// AFK messages count them.
pub open spec fn elapsed_parts(s: int) -> (int, int, int, int) {
    let d = trunc_div(s, 86400);
    let h = trunc_div(s, 3600) - d * 24;
    let m = trunc_div(s, 60) - d * 24 * 60 - h * 60;
    let sec = s - d * 24 * 60 * 60 - h * 60 * 60 - m * 60;
    (d, h, m, sec)
}

/// `<d>d <h>h <m>m <s>s`
pub open spec fn ago_text(s: int) -> Seq<char> {
    let (d, h, m, sec) = elapsed_parts(s);
    decimal(d) + "d "@ + decimal(h) + "h "@ + decimal(m) + "m "@ + decimal(sec) + "s"@
}

/// The elapsed time `s` (in seconds) written as days, hours, minutes and seconds.
pub fn ago_string(s: i64) -> (r: String)
    ensures
        r@ == ago_text(s as int),
{
    let neg = s < 0;
    let a: i128 = if neg { -(s as i128) } else { s as i128 };
    let da: i128 = a / 86400;
    let ha: i128 = a / 3600 - da * 24;
    let ma: i128 = a / 60 - da * 24 * 60 - ha * 60;
    let sa: i128 = a - da * 24 * 60 * 60 - ha * 60 * 60 - ma * 60;
    let (d, h, m, sec) = if neg { (-da, -ha, -ma, -sa) } else { (da, ha, ma, sa) };
    assert(elapsed_parts(s as int) == (d as int, h as int, m as int, sec as int));
    let mut r = String::new();
    push_i128(&mut r, d);
    push_str(&mut r, "d ");
    push_i128(&mut r, h);
    push_str(&mut r, "h ");
    push_i128(&mut r, m);
    push_str(&mut r, "m ");
    push_i128(&mut r, sec);
    push_str(&mut r, "s");
    r
}

/// The parts add up to the elapsed time.
pub proof fn law_elapsed_parts_sum(s: int)
    ensures
        ({
            let (d, h, m, sec) = elapsed_parts(s);
            d * 86400 + h * 3600 + m * 60 + sec == s
        }),
{
}

/// For a non-negative elapsed time the parts are the usual ones: whole days, and
/// hours below 24, minutes and seconds below 60.
pub proof fn law_elapsed_parts_ranges(s: int)
    requires
        s >= 0,
    ensures
        ({
            let (d, h, m, sec) = elapsed_parts(s);
            &&& d == s / 86400
            &&& 0 <= h < 24
            &&& 0 <= m < 60
            &&& 0 <= sec < 60
        }),
{
    let p = s / 60;
    let q = s / 3600;
    vstd::arithmetic::div_mod::lemma_div_denominator(s, 60, 60);
    vstd::arithmetic::div_mod::lemma_div_denominator(s, 3600, 24);
    vstd::arithmetic::div_mod::lemma_fundamental_div_mod(q, 24);
    vstd::arithmetic::div_mod::lemma_mod_pos_bound(q, 24);
    vstd::arithmetic::div_mod::lemma_fundamental_div_mod(p, 60);
    vstd::arithmetic::div_mod::lemma_mod_pos_bound(p, 60);
    vstd::arithmetic::div_mod::lemma_fundamental_div_mod(s, 60);
    vstd::arithmetic::div_mod::lemma_mod_pos_bound(s, 60);
    vstd::arithmetic::div_mod::lemma_div_pos_is_pos(s, 60);
}

/// The announcement that a user is back, or nothing: a user comes back only if
/// they are AFK and at least a minute has passed since they left.
pub open spec fn back_spec(name: Seq<char>, channel: Seq<char>, afk: bool, reason: Seq<char>, elapsed: int) -> Option<MessageView> {
    if !afk || elapsed < 60 {
        None
    } else if reason.len() == 0 {
        Some(outgoing(channel, name + " is back ("@ + ago_text(elapsed) + " ago)!"@))
    } else {
        Some(outgoing(channel, name + " is back ("@ + ago_text(elapsed) + " ago): "@ + reason))
    }
}

/// Whether the sender of a chat line, with AFK record `status`, came back after
/// `elapsed` seconds: `Some` holds the announcement, to be sent once the record
/// has been cleared.
pub fn back_reply(privmsg_in: &PrivateMessage, status: &AFKStatus, elapsed: i64) -> (r: Option<Message>)
    requires
        status.afk && elapsed >= 60 ==> privmsg_in.tags@.contains_key("display-name"@),
    ensures
        opt_view(r) == back_spec(
            privmsg_in.tags@["display-name"@],
            privmsg_in.channel@,
            status.afk,
            status.reason@,
            elapsed as int,
        ),
{
    if !status.afk || elapsed < 60 {
        return None;
    }
    let name = privmsg_in.tag("display-name");
    let ago = ago_string(elapsed);
    let mut t = String::new();
    push_str(&mut t, name.as_str());
    push_str(&mut t, " is back (");
    push_str(&mut t, ago.as_str());
    if status.reason.as_str().is_empty() {
        push_str(&mut t, " ago)!");
    } else {
        push_str(&mut t, " ago): ");
        push_str(&mut t, status.reason.as_str());
    }
    Some(privmsg(privmsg_in.channel.as_str(), t))
}

/// The seconds from `time` to `now`, where chrono can represent both.
pub open spec fn elapsed_spec(now: Timestamp, time: Timestamp) -> Option<i64> {
    if chrono_representable(now.secs, now.nanos) && chrono_representable(time.secs, time.nanos) {
        Some(seconds_between(now.secs, now.nanos, time.secs, time.nanos))
    } else {
        None
    }
}

/// Whether a user with the AFK record (`afk`, `time`) is back at `now`: the
/// seconds elapsed, when the user is away and at least a minute has passed.
pub open spec fn back_due_spec(afk: bool, time: Timestamp, now: Timestamp) -> Option<i64> {
    match elapsed_spec(now, time) {
        Some(e) => if afk && e >= 60 {
            Some(e)
        } else {
            None
        },
        None => None,
    }
}

/// Whether the user with AFK record `status` is back at `now`: `Some` holds the
/// seconds elapsed since `status.time`.
pub fn back_due(status: &AFKStatus, now: &Timestamp) -> (r: Option<i64>)
    ensures
        r == back_due_spec(status.afk, status.time, *now),
{
    if !status.afk {
        return None;
    }
    match elapsed_seconds(now.secs, now.nanos, status.time.secs, status.time.nanos) {
        Some(elapsed) => if elapsed >= 60 {
            Some(elapsed)
        } else {
            None
        },
        None => None,
    }
}

/// [`back_due`] at the instant read from the clock.
pub fn back_due_now(status: &AFKStatus) -> (r: Option<i64>)
    ensures
        exists|now: Timestamp|
            chrono_representable(now.secs, now.nanos) && now.nanos < 1_000_000_000 && r == #[trigger] back_due_spec(
                status.afk,
                status.time,
                now,
            ),
{
    let now = utc_now();
    back_due(status, &now)
}

/// What an AFK-module command asks for.
pub enum AfkCommand {
    /// `afk [reason]`: mark the sender as away.
    SetAfk,
    /// `isafk <user>`: tell whether the user is away.
    IsAfk(String),
    /// Anything else, `isafk` without a user included.
    Other,
}

pub enum AfkCommandView {
    SetAfk,
    IsAfk(Seq<char>),
    Other,
}

impl View for AfkCommand {
    type V = AfkCommandView;

    open spec fn view(&self) -> AfkCommandView {
        match self {
            AfkCommand::SetAfk => AfkCommandView::SetAfk,
            AfkCommand::IsAfk(u) => AfkCommandView::IsAfk(u@),
            AfkCommand::Other => AfkCommandView::Other,
        }
    }
}

pub open spec fn afk_command_spec(c: crate::message::CommandView) -> AfkCommandView {
    if c.name == "afk"@ {
        AfkCommandView::SetAfk
    } else if c.name == "isafk"@ && c.args.len() > 0 {
        AfkCommandView::IsAfk(c.args[0])
    } else {
        AfkCommandView::Other
    }
}

pub fn afk_command_of(command: &CommandData) -> (r: AfkCommand)
    ensures
        r@ == afk_command_spec(command@),
{
    if str_eq(command.name.as_str(), "afk") {
        AfkCommand::SetAfk
    } else if str_eq(command.name.as_str(), "isafk") && command.args.len() > 0 {
        assert(views(command.args@)[0] == command.args@[0]@);
        AfkCommand::IsAfk(command.args[0].clone())
    } else {
        AfkCommand::Other
    }
}

/// The reason an `afk` command gives: its raw arguments (with their leading
/// space), or nothing when it has no argument.
pub open spec fn afk_reason_spec(c: crate::message::CommandView) -> Seq<char> {
    if c.args.len() > 0 {
        c.raw_args
    } else {
        Seq::empty()
    }
}

/// The announcement that a user is now AFK.
pub open spec fn now_afk_text(name: Seq<char>, reason: Seq<char>) -> Seq<char> {
    if reason.len() == 0 {
        name + " is now afk."@
    } else {
        name + " is now afk: "@ + reason
    }
}

/// The reason to record for an `afk` command of a user whose current record is
/// `status` (`None` when it could not be read): nothing happens if the record
/// could not be read or the user is already away.
pub fn afk_reason(command: &CommandData, status: Option<&AFKStatus>) -> (r: Option<String>)
    ensures
        match status {
            Some(st) if !st.afk => r matches Some(reason) && reason@ == afk_reason_spec(command@),
            _ => r.is_none(),
        },
{
    match status {
        Some(st) => {
            if st.afk {
                return None;
            }
        },
        None => {
            return None;
        },
    }
    let mut reason = String::new();
    if command.args.len() > 0 {
        push_str(&mut reason, command.raw_args.as_str());
    }
    Some(reason)
}

/// The announcement, once the record is stored, that the sender is now AFK.
pub fn now_afk_announcement(privmsg_in: &PrivateMessage, reason: &str) -> (m: Message)
    requires
        privmsg_in.tags@.contains_key("display-name"@),
    ensures
        m@ == outgoing(privmsg_in.channel@, now_afk_text(privmsg_in.tags@["display-name"@], reason@)),
{
    let name = privmsg_in.tag("display-name");
    let mut t = String::new();
    push_str(&mut t, name.as_str());
    if reason.is_empty() {
        push_str(&mut t, " is now afk.");
    } else {
        push_str(&mut t, " is now afk: ");
        push_str(&mut t, reason);
    }
    privmsg(privmsg_in.channel.as_str(), t)
}

/// What looking a user's AFK record up by name gave.
pub enum AfkLookup {
    Found(AFKStatus),
    /// There is no record of that user.
    NotFound,
    /// The lookup failed otherwise.
    Failed,
}

/// The answer to `isafk <username>`.
pub open spec fn is_afk_spec(channel: Seq<char>, username: Seq<char>, lookup: AfkLookup, elapsed: int) -> Option<MessageView> {
    match lookup {
        AfkLookup::Found(st) => if st.afk {
            Some(outgoing(channel, username + " is afk ("@ + ago_text(elapsed) + " ago): "@ + st.reason@ + "."@))
        } else {
            Some(outgoing(channel, username + " is not afk."@))
        },
        AfkLookup::NotFound => Some(outgoing(channel, username + " is not afk."@)),
        AfkLookup::Failed => None,
    }
}

/// Answers `isafk <username>` given the lookup and the seconds elapsed since the
/// record's time.
pub fn is_afk_reply(privmsg_in: &PrivateMessage, username: &str, lookup: &AfkLookup, elapsed: i64) -> (r: Option<Message>)
    ensures
        opt_view(r) == is_afk_spec(privmsg_in.channel@, username@, *lookup, elapsed as int),
{
    let mut t = String::new();
    push_str(&mut t, username);
    match lookup {
        AfkLookup::Found(st) => {
            if st.afk {
                let ago = ago_string(elapsed);
                push_str(&mut t, " is afk (");
                push_str(&mut t, ago.as_str());
                push_str(&mut t, " ago): ");
                push_str(&mut t, st.reason.as_str());
                push_str(&mut t, ".");
            } else {
                push_str(&mut t, " is not afk.");
            }
        },
        AfkLookup::NotFound => {
            push_str(&mut t, " is not afk.");
        },
        AfkLookup::Failed => {
            return None;
        },
    }
    Some(privmsg(privmsg_in.channel.as_str(), t))
}

/// The answer to `isafk <username>` at `now`: for an away user the time since
/// their record's time, and no answer where chrono cannot represent either.
pub open spec fn is_afk_at_spec(channel: Seq<char>, username: Seq<char>, lookup: AfkLookup, now: Timestamp) -> Option<MessageView> {
    match lookup {
        AfkLookup::Found(st) => if st.afk {
            match elapsed_spec(now, st.time) {
                Some(e) => is_afk_spec(channel, username, lookup, e as int),
                None => None,
            }
        } else {
            is_afk_spec(channel, username, lookup, 0)
        },
        _ => is_afk_spec(channel, username, lookup, 0),
    }
}

/// Answers `isafk <username>` given the lookup, at the instant `now`.
pub fn is_afk_reply_at(privmsg_in: &PrivateMessage, username: &str, lookup: &AfkLookup, now: &Timestamp) -> (r: Option<Message>)
    ensures
        opt_view(r) == is_afk_at_spec(privmsg_in.channel@, username@, *lookup, *now),
{
    let elapsed = match lookup {
        AfkLookup::Found(st) => if st.afk {
            match elapsed_seconds(now.secs, now.nanos, st.time.secs, st.time.nanos) {
                Some(e) => e,
                None => {
                    return None;
                },
            }
        } else {
            0
        },
        _ => 0,
    };
    is_afk_reply(privmsg_in, username, lookup, elapsed)
}

/// [`is_afk_reply_at`] at the instant read from the clock.
pub fn is_afk_reply_now(privmsg_in: &PrivateMessage, username: &str, lookup: &AfkLookup) -> (r: Option<Message>)
    ensures
        exists|now: Timestamp|
            chrono_representable(now.secs, now.nanos) && now.nanos < 1_000_000_000 && opt_view(r)
                == #[trigger] is_afk_at_spec(privmsg_in.channel@, username@, *lookup, now),
{
    let now = utc_now();
    is_afk_reply_at(privmsg_in, username, lookup, &now)
}

} // verus!
