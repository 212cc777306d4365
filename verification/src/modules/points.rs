use vstd::prelude::*;
use crate::message::{outgoing, privmsg, Message, MessageView, PrivateMessage};
use crate::modules::ping::opt_view;
use crate::text::{decimal, push_i64, push_str, str_eq};

verus! {

/// Whose points a `points` command asks for.
pub enum PointsQuery {
    /// The sender's own points (the command has no argument).
    Own,
    /// The points of the user named by the first argument.
    ByUsername(String),
}

pub enum PointsQueryView {
    Own,
    ByUsername(Seq<char>),
}

impl View for PointsQuery {
    type V = PointsQueryView;

    open spec fn view(&self) -> PointsQueryView {
        match self {
            PointsQuery::Own => PointsQueryView::Own,
            PointsQuery::ByUsername(u) => PointsQueryView::ByUsername(u@),
        }
    }
}

/// The query a message asks for: only a `points` command asks one.
pub open spec fn points_query_spec(m: MessageView) -> Option<PointsQueryView> {
    match m {
        MessageView::Command(_, c) => if c.name == "points"@ {
            if c.args.len() == 0 {
                Some(PointsQueryView::Own)
            } else {
                Some(PointsQueryView::ByUsername(c.args[0]))
            }
        } else {
            None
        },
        _ => None,
    }
}

pub fn points_query(message: &Message) -> (r: Option<PointsQuery>)
    ensures
        match r {
            Some(q) => points_query_spec(message@) == Some(q@),
            None => points_query_spec(message@).is_none(),
        },
{
    match message {
        Message::Command(_, command) => {
            if !str_eq(command.name.as_str(), "points") {
                return None;
            }
            if command.args.len() == 0 {
                Some(PointsQuery::Own)
            } else {
                assert(crate::text::views(command.args@)[0] == command.args@[0]@);
                Some(PointsQuery::ByUsername(command.args[0].clone()))
            }
        },
        _ => None,
    }
}

/// The answer to a points query; `points` is what the lookup found (`None` when
/// it failed).
pub open spec fn points_reply_spec(name: Seq<char>, channel: Seq<char>, query: PointsQueryView, points: Option<i32>) -> Option<MessageView> {
    match (query, points) {
        (PointsQueryView::Own, Some(p)) => Some(outgoing(channel, name + ", you have "@ + decimal(p as int) + " points."@)),
        (PointsQueryView::Own, None) => None,
        (PointsQueryView::ByUsername(u), Some(p)) => Some(
            outgoing(channel, name + ", "@ + u + " has "@ + decimal(p as int) + " points."@),
        ),
        (PointsQueryView::ByUsername(_), None) => Some(
            outgoing(channel, name + ", that user doesn't exist yet in the database."@),
        ),
    }
}

pub fn points_reply(privmsg_in: &PrivateMessage, query: &PointsQuery, points: Option<i32>) -> (r: Option<Message>)
    requires
        !(query@ == PointsQueryView::Own && points.is_none()) ==> privmsg_in.tags@.contains_key("display-name"@),
    ensures
        opt_view(r) == points_reply_spec(privmsg_in.tags@["display-name"@], privmsg_in.channel@, query@, points),
{
    if let (PointsQuery::Own, None) = (query, points) {
        return None;
    }
    let name = privmsg_in.tag("display-name");
    let mut t = String::new();
    push_str(&mut t, name.as_str());
    match (query, points) {
        (PointsQuery::Own, Some(p)) => {
            push_str(&mut t, ", you have ");
            push_i64(&mut t, p as i64);
            push_str(&mut t, " points.");
        },
        (PointsQuery::Own, None) => {
            return None;
        },
        (PointsQuery::ByUsername(u), Some(p)) => {
            push_str(&mut t, ", ");
            push_str(&mut t, u.as_str());
            push_str(&mut t, " has ");
            push_i64(&mut t, p as i64);
            push_str(&mut t, " points.");
        },
        (PointsQuery::ByUsername(_), None) => {
            push_str(&mut t, ", that user doesn't exist yet in the database.");
        },
    }
    Some(privmsg(privmsg_in.channel.as_str(), t))
}

} // verus!
