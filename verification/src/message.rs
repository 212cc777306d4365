use vstd::prelude::*;
use crate::text::{push_str, str_eq, views};

verus! {

/// The IRCv3 tags of a message: a map from tag name to tag value.
///
/// Entries are kept in the order they were inserted; a later entry with the same
/// key overrides an earlier one, exactly as successive `HashMap::insert` calls do.
pub struct TagMap {
    entries: Vec<(String, String)>,
}

/// The map that inserting `s[0]`, `s[1]`, ... one after another builds.
pub open spec fn fold_tags(s: Seq<(Seq<char>, Seq<char>)>) -> Map<Seq<char>, Seq<char>>
    decreases s.len(),
{
    if s.len() == 0 {
        Map::empty()
    } else {
        fold_tags(s.drop_last()).insert(s.last().0, s.last().1)
    }
}

pub open spec fn pair_views(s: Seq<(String, String)>) -> Seq<(Seq<char>, Seq<char>)> {
    s.map_values(|p: (String, String)| (p.0@, p.1@))
}

proof fn lemma_fold_tags_last(s: Seq<(Seq<char>, Seq<char>)>, i: int, k: Seq<char>)
    requires
        0 <= i < s.len(),
        s[i].0 == k,
        forall|j: int| i < j < s.len() ==> #[trigger] s[j].0 != k,
    ensures
        fold_tags(s).contains_key(k),
        fold_tags(s)[k] == s[i].1,
    decreases s.len(),
{
    if i < s.len() - 1 {
        lemma_fold_tags_last(s.drop_last(), i, k);
    }
}

proof fn lemma_fold_tags_absent(s: Seq<(Seq<char>, Seq<char>)>, k: Seq<char>)
    requires
        forall|j: int| 0 <= j < s.len() ==> #[trigger] s[j].0 != k,
    ensures
        !fold_tags(s).contains_key(k),
    decreases s.len(),
{
    if s.len() > 0 {
        lemma_fold_tags_absent(s.drop_last(), k);
    }
}

impl View for TagMap {
    type V = Map<Seq<char>, Seq<char>>;

    closed spec fn view(&self) -> Map<Seq<char>, Seq<char>> {
        fold_tags(pair_views(self.entries@))
    }
}

impl TagMap {
    /// An empty tag map.
    pub fn new() -> (m: TagMap)
        ensures
            m@ == Map::<Seq<char>, Seq<char>>::empty(),
    {
        let m = TagMap { entries: Vec::new() };
        assert(pair_views(m.entries@) =~= Seq::empty());
        m
    }

    /// Sets `key` to `value`, replacing any earlier value.
    pub fn insert(&mut self, key: String, value: String)
        ensures
            final(self)@ == old(self)@.insert(key@, value@),
    {
        self.entries.push((key, value));
        assert(pair_views(self.entries@).drop_last() =~= pair_views(old(self).entries@));
    }

    /// The value of `key`, if it is present.
    pub fn get(&self, key: &str) -> (r: Option<&String>)
        ensures
            match r {
                Some(v) => self@.contains_key(key@) && self@[key@] == v@,
                None => !self@.contains_key(key@),
            },
    {
        let mut i = self.entries.len();
        let ghost pv = pair_views(self.entries@);
        while i > 0
            invariant
                i <= self.entries@.len(),
                pv == pair_views(self.entries@),
                forall|j: int| i <= j < pv.len() ==> #[trigger] pv[j].0 != key@,
            decreases i,
        {
            i = i - 1;
            if str_eq(self.entries[i].0.as_str(), key) {
                proof {
                    lemma_fold_tags_last(pv, i as int, key@);
                }
                return Some(&self.entries[i].1);
            }
        }
        proof {
            lemma_fold_tags_absent(pv, key@);
        }
        None
    }

    /// Whether `key` is present.
    pub fn contains_key(&self, key: &str) -> (r: bool)
        ensures
            r == self@.contains_key(key@),
    {
        self.get(key).is_some()
    }
}

/// A chat line sent to a channel (or, through the `jtv` channel, a whisper).
pub struct PrivateMessage {
    pub tags: TagMap,
    pub channel: String,
    pub sender: String,
    pub text: String,
}

impl PrivateMessage {
    /// The value of the tag `key`, which must be present.
    pub fn tag(&self, key: &str) -> (r: &String)
        requires
            self.tags@.contains_key(key@),
        ensures
            r@ == self.tags@[key@],
    {
        match self.tags.get(key) {
            Some(v) => v,
            None => {
                proof {
                    assert(false);
                }
                &self.channel
            },
        }
    }
}

/// A chat line that starts with the command prefix, split into name and arguments.
pub struct CommandData {
    pub name: String,
    pub raw_args: String,
    pub args: Vec<String>,
}

/// A decoded IRC line.
pub enum Message {
    Unknown,
    Private(PrivateMessage),
    Command(PrivateMessage, CommandData),
    Ping,
}

/// The mathematical content of a [`PrivateMessage`].
pub struct PrivateMessageView {
    pub tags: Map<Seq<char>, Seq<char>>,
    pub channel: Seq<char>,
    pub sender: Seq<char>,
    pub text: Seq<char>,
}

/// The mathematical content of a [`CommandData`].
pub struct CommandView {
    pub name: Seq<char>,
    pub raw_args: Seq<char>,
    pub args: Seq<Seq<char>>,
}

/// The mathematical content of a [`Message`].
pub enum MessageView {
    Unknown,
    Private(PrivateMessageView),
    Command(PrivateMessageView, CommandView),
    Ping,
}

impl View for PrivateMessage {
    type V = PrivateMessageView;

    open spec fn view(&self) -> PrivateMessageView {
        PrivateMessageView {
            tags: self.tags@,
            channel: self.channel@,
            sender: self.sender@,
            text: self.text@,
        }
    }
}

impl View for CommandData {
    type V = CommandView;

    open spec fn view(&self) -> CommandView {
        CommandView { name: self.name@, raw_args: self.raw_args@, args: views(self.args@) }
    }
}

impl View for Message {
    type V = MessageView;

    open spec fn view(&self) -> MessageView {
        match self {
            Message::Unknown => MessageView::Unknown,
            Message::Private(p) => MessageView::Private(p@),
            Message::Command(p, c) => MessageView::Command(p@, c@),
            Message::Ping => MessageView::Ping,
        }
    }
}

/// The view of an outgoing line to `channel` with text `text` (no tags, no sender).
pub open spec fn outgoing(channel: Seq<char>, text: Seq<char>) -> MessageView {
    MessageView::Private(
        PrivateMessageView {
            tags: Map::empty(),
            channel: channel,
            sender: Seq::empty(),
            text: text,
        },
    )
}

/// The text of a whisper to `user`: the `/w` chat command addressed to the user.
pub open spec fn whisper_text(user: Seq<char>, text: Seq<char>) -> Seq<char> {
    "/w "@ + user + " "@ + text
}

/// A message to `channel` with the given text.
pub fn privmsg(channel: &str, text: String) -> (m: Message)
    ensures
        m@ == outgoing(channel@, text@),
{
    let mut ch = String::new();
    push_str(&mut ch, channel);
    assert(ch@ == channel@);
    Message::Private(PrivateMessage { tags: TagMap::new(), channel: ch, sender: String::new(), text })
}

/// A whisper to `user`: a message on the `jtv` channel that starts with `/w <user> `.
pub fn whisper(user: &str, text: &str) -> (m: Message)
    ensures
        m@ == outgoing("jtv"@, whisper_text(user@, text@)),
{
    let mut t = String::new();
    push_str(&mut t, "/w ");
    push_str(&mut t, user);
    push_str(&mut t, " ");
    push_str(&mut t, text);
    assert(t@ == whisper_text(user@, text@));
    privmsg("jtv", t)
}

/// A chat module: it sees every decoded message and may answer with one.
pub trait Module {
    fn handle_message(&mut self, message: &Message) -> Option<Message>;
}

/// The interface of a chat module, as the AFK module names it.
pub trait ModuleInterface {
    fn handle_message(&mut self, message: &Message) -> Option<Message>;
}

} // verus!
