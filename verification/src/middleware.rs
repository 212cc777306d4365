use vstd::prelude::*;
use crate::message::{Message, MessageView};
use crate::text::{contains, contains_seq, lowercase, to_lowercase, views};

verus! {

/// A stage that every decoded message passes before the modules see it. It may
/// change the message and its own state, and it decides whether the message
/// goes on.
pub trait Middleware: Sized {
    /// What processing `message` does: the middleware's next state, the message
    /// as it goes on, and whether it goes on.
    spec fn step(&self, message: Message) -> (Self, Message, bool);

    fn process_message(&mut self, message: &mut Message) -> (accepted: bool)
        ensures
            (*final(self), *final(message), accepted) == old(self).step(*old(message)),
    ;
}

/// Runs the middlewares from position `i` on: each one processes the message as
/// the previous one left it, and the first that refuses it stops the run.
pub open spec fn run_middlewares<M: Middleware>(mws: Seq<M>, message: Message, i: nat) -> (Seq<M>, Message, bool)
    decreases mws.len() - i,
{
    if i >= mws.len() {
        (mws, message, true)
    } else {
        let (m, next, ok) = mws[i as int].step(message);
        let mws2 = mws.update(i as int, m);
        if !ok {
            (mws2, next, false)
        } else {
            run_middlewares(mws2, next, i + 1)
        }
    }
}

/// Passes `message` through the middlewares in order; true when every one of
/// them let it through, false as soon as one refuses it (the later ones do not
/// see it).
pub fn forward_to_middlewares<M: Middleware>(middlewares: &mut Vec<M>, message: &mut Message) -> (r: bool)
    ensures
        (final(middlewares)@, *final(message), r) == run_middlewares(old(middlewares)@, *old(message), 0),
{
    let mut i: usize = 0;
    while i < middlewares.len()
        invariant
            i <= middlewares@.len(),
            middlewares@.len() == old(middlewares)@.len(),
            run_middlewares(old(middlewares)@, *old(message), 0) == run_middlewares(middlewares@, *message, i as nat),
        decreases middlewares.len() - i,
    {
        let ghost prev = middlewares@;
        let mut m = middlewares.remove(i);
        let ok = m.process_message(message);
        middlewares.insert(i, m);
        assert(middlewares@ =~= prev.update(i as int, m));
        if !ok {
            return false;
        }
        i = i + 1;
    }
    true
}

/// The chat text that the filter looks at, if the message is a chat line.
pub open spec fn chat_text(m: MessageView) -> Option<Seq<char>> {
    match m {
        MessageView::Private(p) => Some(p.text),
        MessageView::Command(p, _) => Some(p.text),
        _ => None,
    }
}

/// A chat text is banned when, ignoring case, it contains one of the phrases.
pub open spec fn is_banned(phrases: Seq<Seq<char>>, text: Seq<char>) -> bool {
    exists|i: int| 0 <= i < phrases.len() && contains_seq(lowercase(text), lowercase(#[trigger] phrases[i]))
}

/// Stops chat messages that contain a banned phrase, in any case.
pub struct Filter {
    banned_phrases: Vec<String>,
}

impl Filter {
    /// The banned phrases.
    pub closed spec fn phrases(&self) -> Seq<Seq<char>> {
        views(self.banned_phrases@)
    }

    pub fn new(banned_phrases: Vec<String>) -> (f: Filter)
        ensures
            f.phrases() == views(banned_phrases@),
    {
        Filter { banned_phrases }
    }

    /// Whether the filter lets `message` through.
    pub open spec fn accepts(&self, message: MessageView) -> bool {
        match chat_text(message) {
            Some(t) => !is_banned(self.phrases(), t),
            None => true,
        }
    }
}

impl Middleware for Filter {
    open spec fn step(&self, message: Message) -> (Filter, Message, bool) {
        (*self, message, self.accepts(message@))
    }

    fn process_message(&mut self, message: &mut Message) -> (accepted: bool) {
        let text = match &*message {
            Message::Private(privmsg) => &privmsg.text,
            Message::Command(privmsg, _) => &privmsg.text,
            _ => {
                return true;
            },
        };
        let lowered = to_lowercase(text.as_str());
        let mut i: usize = 0;
        while i < self.banned_phrases.len()
            invariant
                i <= self.banned_phrases@.len(),
                lowered@ == lowercase(chat_text(message@).unwrap()),
                chat_text(message@).is_some(),
                forall|j: int| 0 <= j < i ==> !contains_seq(lowered@, lowercase(#[trigger] self.phrases()[j])),
            decreases self.banned_phrases.len() - i,
        {
            let phrase = to_lowercase(self.banned_phrases[i].as_str());
            assert(self.phrases()[i as int] == self.banned_phrases@[i as int]@);
            if contains(lowered.as_str(), phrase.as_str()) {
                return false;
            }
            i = i + 1;
        }
        true
    }
}

/// A run of filters lets a message through exactly when every filter accepts it;
/// the message and the filters are left as they were.
pub proof fn law_filters_accept_all(filters: Seq<Filter>, message: Message, i: nat)
    requires
        i <= filters.len(),
    ensures
        run_middlewares(filters, message, i) == (filters, message,
            forall|k: int| i <= k < filters.len() ==> #[trigger] filters[k].accepts(message@)),
    decreases filters.len() - i,
{
    if i < filters.len() {
        assert(filters.update(i as int, filters[i as int]) == filters);
        law_filters_accept_all(filters, message, i + 1);
    }
}

/// Every banned phrase counts, wherever it stands in the list: a chat message
/// whose text, lower-cased, contains the lower-cased phrase at any index is
/// refused by the filter (and so by any run of middlewares holding the filter);
/// a chat message that contains none of them is let through, and so is every
/// message that is not a chat line.
pub proof fn law_filter_refuses_any_banned_phrase(f: Filter, message: MessageView, text: Seq<char>, i: int)
    ensures
        chat_text(message) == Some(text) && 0 <= i < f.phrases().len() && contains_seq(
            lowercase(text),
            lowercase(f.phrases()[i]),
        ) ==> !f.accepts(message),
        chat_text(message) == Some(text) && (forall|j: int|
            0 <= j < f.phrases().len() ==> !contains_seq(lowercase(text), lowercase(#[trigger] f.phrases()[j])))
            ==> f.accepts(message),
        chat_text(message).is_none() ==> f.accepts(message),
{
}

} // verus!
