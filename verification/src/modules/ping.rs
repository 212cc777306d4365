use vstd::prelude::*;
use crate::message::{outgoing, Message, MessageView, Module, privmsg};
use crate::text::{push_str, str_eq};

verus! {

/// A module that answers `ping` with `pong` and greets on `hi`.
pub struct Ping {}

/// Ping's answer to a message, if any.
pub open spec fn ping_answer(m: MessageView) -> Option<MessageView> {
    match m {
        MessageView::Command(p, c) => if c.name == "ping"@ {
            Some(outgoing(p.channel, "pong"@))
        } else if c.name == "hi"@ {
            Some(outgoing(p.channel, "Hi from a dynamically loaded module :)"@))
        } else {
            None
        },
        _ => None,
    }
}

/// The view of an optional message.
pub open spec fn opt_view(m: Option<Message>) -> Option<MessageView> {
    match m {
        Some(x) => Some(x@),
        None => None,
    }
}

impl Module for Ping {
    fn handle_message(&mut self, message: &Message) -> (r: Option<Message>)
        ensures
            opt_view(r) == ping_answer(message@),
    {
        match message {
            Message::Command(privmsg_in, command) => {
                if str_eq(command.name.as_str(), "ping") {
                    let mut t = String::new();
                    push_str(&mut t, "pong");
                    Some(privmsg(privmsg_in.channel.as_str(), t))
                } else if str_eq(command.name.as_str(), "hi") {
                    let mut t = String::new();
                    push_str(&mut t, "Hi from a dynamically loaded module :)");
                    Some(privmsg(privmsg_in.channel.as_str(), t))
                } else {
                    None
                }
            },
            _ => None,
        }
    }
}

} // verus!
