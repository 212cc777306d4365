use vstd::prelude::*;
use crate::message::{
    fold_tags, CommandData, CommandView, Message, MessageView, PrivateMessage, PrivateMessageView,
    TagMap,
};
use crate::text::{
    has_prefix, lemma_split_char_nonempty, push_slice, push_str, split_char, split_range, sub_vec,
    starts_with, str_chars, str_eq, string_of, trim_start, trim_start_pos, views,
};

verus! {

// ---------------------------------------------------------------------------
// The line grammar.
//
// A Twitch IRC line with tags has the shape
//
//     @<tags> +:<prefix> +<command>( +<param>)*( +:<trailing>)?[\r\n]*
//
// where <tags>, <prefix>, <command> and each <param> are runs of characters
// other than a space (<prefix>, <command> and <param> non-empty, a <param> not
// starting with ':'), and <trailing> is everything after the colon up to the
// first line feed. The functions below describe, position by position, which
// part of a line each field is.
// ---------------------------------------------------------------------------

/// The first position at or after `i` that holds `c`, or the length of `l`.
pub open spec fn find_from(l: Seq<char>, i: nat, c: char) -> nat
    decreases l.len() - i,
{
    if i >= l.len() || l[i as int] == c {
        i
    } else {
        find_from(l, i + 1, c)
    }
}

/// The first position at or after `i` that does not hold a space, or the length of `l`.
pub open spec fn skip_spaces(l: Seq<char>, i: nat) -> nat
    decreases l.len() - i,
{
    if i >= l.len() || l[i as int] != ' ' {
        i
    } else {
        skip_spaces(l, i + 1)
    }
}

pub proof fn lemma_find_from(l: Seq<char>, i: nat, c: char)
    ensures
        i <= find_from(l, i, c),
        i <= l.len() ==> find_from(l, i, c) <= l.len(),
        i < l.len() && l[i as int] != c ==> i < find_from(l, i, c),
        find_from(l, i, c) < l.len() ==> l[find_from(l, i, c) as int] == c,
        forall|k: int| i <= k < find_from(l, i, c) ==> l[k] != c,
    decreases l.len() - i,
{
    if i < l.len() && l[i as int] != c {
        lemma_find_from(l, i + 1, c);
    }
}

pub proof fn lemma_skip_spaces(l: Seq<char>, i: nat)
    ensures
        i <= skip_spaces(l, i),
        i <= l.len() ==> skip_spaces(l, i) <= l.len(),
        skip_spaces(l, i) < l.len() ==> l[skip_spaces(l, i) as int] != ' ',
        forall|k: int| i <= k < skip_spaces(l, i) ==> l[k] == ' ',
    decreases l.len() - i,
{
    if i < l.len() && l[i as int] == ' ' {
        lemma_skip_spaces(l, i + 1);
    }
}

/// Where the middle parameters end: starting at `i` (the end of the command or of
/// a parameter), as long as spaces are followed by a character other than ':',
/// another parameter follows.
pub open spec fn params_stop(l: Seq<char>, i: nat) -> nat
    decreases l.len() - i,
{
    let j = skip_spaces(l, i);
    if i < l.len() && j < l.len() && l[j as int] != ':' {
        proof {
            lemma_skip_spaces(l, i);
            lemma_find_from(l, j, ' ');
        }
        params_stop(l, find_from(l, j, ' '))
    } else {
        i
    }
}

/// Every character of `s` is a carriage return or a line feed.
pub open spec fn all_line_ends(s: Seq<char>) -> bool {
    forall|k: int| 0 <= k < s.len() ==> #[trigger] s[k] == '\r' || s[k] == '\n'
}

/// The fields of a line in the grammar above.
pub struct IrcFields {
    pub tags: Seq<char>,
    pub prefix: Seq<char>,
    pub command: Seq<char>,
    pub params: Option<Seq<char>>,
    pub trailing: Option<Seq<char>>,
}

/// The fields of `l`, or `None` where `l` is not in the grammar.
pub open spec fn irc_fields(l: Seq<char>) -> Option<IrcFields> {
    let te = find_from(l, 1, ' ');
    let ps = skip_spaces(l, te);
    let pe = find_from(l, ps + 1, ' ');
    let cs = skip_spaces(l, pe);
    let ce = find_from(l, cs, ' ');
    let q = params_stop(l, ce);
    let j = skip_spaces(l, q);
    let nl = find_from(l, j + 1, '\n');
    if l.len() == 0 || l[0] != '@' || te >= l.len() || ps >= l.len() || l[ps as int] != ':'
        || pe == ps + 1 || pe >= l.len() || cs >= l.len() {
        None
    } else {
        let params = if q > ce {
            Some(l.subrange(skip_spaces(l, ce) as int, q as int))
        } else {
            None
        };
        if q >= l.len() {
            Some(
                IrcFields {
                    tags: l.subrange(1, te as int),
                    prefix: l.subrange(ps + 1 as int, pe as int),
                    command: l.subrange(cs as int, ce as int),
                    params: params,
                    trailing: None,
                },
            )
        } else if j >= l.len() || !all_line_ends(l.skip(nl as int)) {
            None
        } else {
            Some(
                IrcFields {
                    tags: l.subrange(1, te as int),
                    prefix: l.subrange(ps + 1 as int, pe as int),
                    command: l.subrange(cs as int, ce as int),
                    params: params,
                    trailing: Some(l.subrange(j + 1 as int, nl as int)),
                },
            )
        }
    }
}

} // verus!

verus! {

/// The key and value of each `key=value` pair of a tag string: the pairs are
/// separated by `;`, and the value is what lies between the first and the second
/// `=` of a pair.
pub open spec fn tag_pairs(s: Seq<char>) -> Seq<(Seq<char>, Seq<char>)> {
    split_char(s, ';').map_values(|p: Seq<char>| (split_char(p, '=')[0], split_char(p, '=')[1]))
}

/// Every pair of the tag string has a value (holds a `=`).
pub open spec fn tags_well_formed(s: Seq<char>) -> bool {
    forall|i: int| 0 <= i < split_char(s, ';').len() ==> #[trigger] split_char(split_char(s, ';')[i], '=').len() >= 2
}

/// The tag map of a tag string: the pairs inserted in order.
pub open spec fn tags_of(s: Seq<char>) -> Map<Seq<char>, Seq<char>> {
    fold_tags(tag_pairs(s))
}

/// The line a Twitch server sends to check that the client is alive.
pub open spec fn ping_line() -> Seq<char> {
    "PING :tmi.twitch.tv"@
}

/// The command part of a chat text after the command prefix: the first
/// space-separated word is the name, everything from the first space on is the
/// raw argument string, and the other words are the arguments.
pub open spec fn command_of(body: Seq<char>) -> CommandView {
    let tokens = split_char(body, ' ');
    if tokens.len() > 1 {
        CommandView {
            name: tokens[0],
            raw_args: body.skip(find_from(body, 0, ' ') as int),
            args: tokens.skip(1),
        }
    } else {
        CommandView { name: tokens[0], raw_args: Seq::empty(), args: Seq::empty() }
    }
}

/// What decoding `line` gives with the command prefix `prefix`.
pub open spec fn decode_spec(prefix: Seq<char>, line: Seq<char>) -> Result<MessageView, Seq<char>> {
    if line == ping_line() {
        Ok(MessageView::Ping)
    } else {
        match irc_fields(line) {
            None => Err("Cannot decode this message"@),
            Some(f) => if f.command != "PRIVMSG"@ {
                Ok(MessageView::Unknown)
            } else {
                let text = f.trailing.unwrap();
                let tags = tags_of(f.tags);
                let sender = f.prefix;
                let channel = trim_start(f.params.unwrap(), seq!['#']);
                if starts_with(text, prefix) {
                    let body = trim_start(text, prefix);
                    if split_char(body, ' ')[0].len() > 0 {
                        Ok(
                            MessageView::Command(
                                PrivateMessageView { tags, channel, sender, text: body },
                                command_of(body),
                            ),
                        )
                    } else {
                        Err("No command name provided"@)
                    }
                } else {
                    Ok(MessageView::Private(PrivateMessageView { tags, channel, sender, text }))
                }
            },
        }
    }
}

/// The lines that decoding handles without failing: every line but a `PRIVMSG`
/// line that lacks its channel or its text, or whose tags hold a pair without `=`.
pub open spec fn decodable(line: Seq<char>) -> bool {
    line == ping_line() || match irc_fields(line) {
        None => true,
        Some(f) => f.command != "PRIVMSG"@ || (f.trailing.is_some() && f.params.is_some()
            && tags_well_formed(f.tags)),
    }
}

/// The view of a decoding result.
pub open spec fn result_view(r: Result<Message, &str>) -> Result<MessageView, Seq<char>> {
    match r {
        Ok(m) => Ok(m@),
        Err(e) => Err(e@),
    }
}

fn find_from_exec(v: &Vec<char>, i: usize, c: char) -> (r: usize)
    requires
        i <= v@.len(),
    ensures
        r == find_from(v@, i as nat, c),
        i <= r <= v@.len(),
{
    let mut k = i;
    proof {
        lemma_find_from(v@, i as nat, c);
    }
    while k < v.len() && v[k] != c
        invariant
            i <= k <= v@.len(),
            find_from(v@, i as nat, c) == find_from(v@, k as nat, c),
        decreases v.len() - k,
    {
        k = k + 1;
    }
    k
}

fn skip_spaces_exec(v: &Vec<char>, i: usize) -> (r: usize)
    requires
        i <= v@.len(),
    ensures
        r == skip_spaces(v@, i as nat),
        i <= r <= v@.len(),
{
    let mut k = i;
    proof {
        lemma_skip_spaces(v@, i as nat);
    }
    while k < v.len() && v[k] == ' '
        invariant
            i <= k <= v@.len(),
            skip_spaces(v@, i as nat) == skip_spaces(v@, k as nat),
        decreases v.len() - k,
    {
        k = k + 1;
    }
    k
}

fn params_stop_exec(v: &Vec<char>, i: usize) -> (r: usize)
    requires
        i <= v@.len(),
    ensures
        r == params_stop(v@, i as nat),
        i <= r <= v@.len(),
{
    let mut q = i;
    loop
        invariant
            i <= q <= v@.len(),
            params_stop(v@, i as nat) == params_stop(v@, q as nat),
        decreases v@.len() - q,
    {
        let j = skip_spaces_exec(v, q);
        proof {
            lemma_skip_spaces(v@, q as nat);
        }
        if q < v.len() && j < v.len() && v[j] != ':' {
            proof {
                lemma_find_from(v@, j as nat, ' ');
            }
            q = find_from_exec(v, j, ' ');
        } else {
            return q;
        }
    }
}

fn all_line_ends_exec(v: &Vec<char>, from: usize) -> (r: bool)
    requires
        from <= v@.len(),
    ensures
        r == all_line_ends(v@.skip(from as int)),
{
    let mut k = from;
    while k < v.len()
        invariant
            from <= k <= v@.len(),
            forall|m: int| from <= m < k ==> v@[m] == '\r' || v@[m] == '\n',
        decreases v.len() - k,
    {
        if v[k] != '\r' && v[k] != '\n' {
            assert(v@.skip(from as int)[k - from] == v@[k as int]);
            return false;
        }
        k = k + 1;
    }
    assert forall|m: int| 0 <= m < v@.skip(from as int).len() implies #[trigger] v@.skip(from as int)[m] == '\r'
        || v@.skip(from as int)[m] == '\n' by {
        assert(v@.skip(from as int)[m] == v@[m + from]);
    }
    true
}

/// Positions of the fields of a line in the grammar.
struct LineParts {
    te: usize,
    ps: usize,
    pe: usize,
    cs: usize,
    ce: usize,
    params: Option<(usize, usize)>,
    trailing: Option<(usize, usize)>,
}

spec fn parts_match(v: Seq<char>, p: LineParts, f: IrcFields) -> bool {
    &&& 1 <= p.te <= v.len()
    &&& p.ps + 1 <= p.pe <= v.len()
    &&& p.cs <= p.ce <= v.len()
    &&& f.tags == v.subrange(1, p.te as int)
    &&& f.prefix == v.subrange(p.ps + 1, p.pe as int)
    &&& f.command == v.subrange(p.cs as int, p.ce as int)
    &&& match p.params {
        Some((a, b)) => a <= b <= v.len() && f.params == Some(v.subrange(a as int, b as int)),
        None => f.params.is_none(),
    }
    &&& match p.trailing {
        Some((a, b)) => a <= b <= v.len() && f.trailing == Some(v.subrange(a as int, b as int)),
        None => f.trailing.is_none(),
    }
}

fn scan_line(v: &Vec<char>) -> (r: Option<LineParts>)
    ensures
        match irc_fields(v@) {
            None => r.is_none(),
            Some(f) => r.is_some() && parts_match(v@, r.unwrap(), f),
        },
{
    let n = v.len();
    if n == 0 || v[0] != '@' {
        return None;
    }
    let te = find_from_exec(v, 1, ' ');
    let ps = skip_spaces_exec(v, te);
    if te >= n || ps >= n || v[ps] != ':' {
        return None;
    }
    let pe = find_from_exec(v, ps + 1, ' ');
    if pe == ps + 1 || pe >= n {
        return None;
    }
    let cs = skip_spaces_exec(v, pe);
    if cs >= n {
        return None;
    }
    let ce = find_from_exec(v, cs, ' ');
    let q = params_stop_exec(v, ce);
    let params = if q > ce {
        let a = skip_spaces_exec(v, ce);
        proof {
            lemma_skip_spaces(v@, ce as nat);
            if a > q {
                // params_stop moved past `ce`, so the spaces after `ce` end before `q`
                lemma_params_stop_start(v@, ce as nat);
            }
        }
        Some((a, q))
    } else {
        None
    };
    if q >= n {
        return Some(LineParts { te, ps, pe, cs, ce, params, trailing: None });
    }
    let j = skip_spaces_exec(v, q);
    if j >= n {
        return None;
    }
    let nl = find_from_exec(v, j + 1, '\n');
    if !all_line_ends_exec(v, nl) {
        return None;
    }
    Some(LineParts { te, ps, pe, cs, ce, params, trailing: Some((j + 1, nl)) })
}

proof fn lemma_params_stop_start(l: Seq<char>, i: nat)
    requires
        i <= l.len(),
        params_stop(l, i) > i,
    ensures
        skip_spaces(l, i) <= params_stop(l, i),
    decreases l.len() - i,
{
    let j = skip_spaces(l, i);
    lemma_skip_spaces(l, i);
    lemma_find_from(l, j, ' ');
    lemma_params_stop_ge(l, find_from(l, j, ' '));
}

proof fn lemma_params_stop_ge(l: Seq<char>, i: nat)
    requires
        i <= l.len(),
    ensures
        i <= params_stop(l, i) <= l.len(),
    decreases l.len() - i,
{
    let j = skip_spaces(l, i);
    lemma_skip_spaces(l, i);
    if i < l.len() && j < l.len() && l[j as int] != ':' {
        lemma_find_from(l, j, ' ');
        lemma_params_stop_ge(l, find_from(l, j, ' '));
    }
}

} // verus!

verus! {

fn parse_tags(v: &Vec<char>, from: usize, to: usize) -> (m: TagMap)
    requires
        from <= to <= v@.len(),
        tags_well_formed(v@.subrange(from as int, to as int)),
    ensures
        m@ == tags_of(v@.subrange(from as int, to as int)),
{
    let ghost s = v@.subrange(from as int, to as int);
    let pairs = split_range(v, from, to, ';');
    let mut m = TagMap::new();
    let mut k: usize = 0;
    assert(tag_pairs(s).take(0) =~= Seq::empty());
    while k < pairs.len()
        invariant
            views(pairs@) == split_char(s, ';'),
            tags_well_formed(s),
            k <= pairs@.len(),
            m@ == fold_tags(tag_pairs(s).take(k as int)),
        decreases pairs.len() - k,
    {
        let pv = str_chars(pairs[k].as_str());
        assert(views(pairs@)[k as int] == pairs@[k as int]@);
        assert(pv@.subrange(0, pv@.len() as int) == pv@);
        let pieces = split_range(&pv, 0, pv.len(), '=');
        assert(split_char(split_char(s, ';')[k as int], '=').len() >= 2);
        assert(views(pieces@)[0] == pieces@[0]@);
        assert(views(pieces@)[1] == pieces@[1]@);
        let key = pieces[0].clone();
        let value = pieces[1].clone();
        m.insert(key, value);
        assert(tag_pairs(s).take(k + 1).drop_last() == tag_pairs(s).take(k as int));
        k = k + 1;
    }
    assert(tag_pairs(s).take(pairs@.len() as int) == tag_pairs(s));
    m
}

/// Decodes Twitch IRC lines into messages, recognising commands by their prefix.
pub struct Parser {
    command_prefix: String,
}

impl Parser {
    /// The command prefix this parser recognises.
    pub closed spec fn prefix(&self) -> Seq<char> {
        self.command_prefix@
    }

    pub fn new(command_prefix: &str) -> (p: Parser)
        ensures
            p.prefix() == command_prefix@,
    {
        let mut s = String::new();
        push_str(&mut s, command_prefix);
        Parser { command_prefix: s }
    }

    /// Whether [`Parser::decode`] handles `line` without failing.
    pub fn can_decode(&self, line: &str) -> (r: bool)
        ensures
            r == decodable(line@),
    {
        if str_eq(line, "PING :tmi.twitch.tv") {
            return true;
        }
        let v = str_chars(line);
        match scan_line(&v) {
            None => true,
            Some(p) => {
                let command = string_of(&v, p.cs, p.ce);
                if !str_eq(command.as_str(), "PRIVMSG") {
                    return true;
                }
                match (p.trailing, p.params) {
                    (Some(_), Some(_)) => tags_ok(&v, 1, p.te),
                    _ => false,
                }
            },
        }
    }

    /// Decodes one line: the server's ping, a chat message (a command where its
    /// text starts with the command prefix), or another line, which is `Unknown`.
    pub fn decode(&self, line: &str) -> (r: Result<Message, &'static str>)
        requires
            decodable(line@),
        ensures
            result_view(r) == decode_spec(self.prefix(), line@),
    {
        if str_eq(line, "PING :tmi.twitch.tv") {
            return Ok(Message::Ping);
        }
        let v = str_chars(line);
        let parts = scan_line(&v);
        let p = match parts {
            None => {
                return Err("Cannot decode this message");
            },
            Some(p) => p,
        };
        let ghost f = irc_fields(v@).unwrap();
        let command = string_of(&v, p.cs, p.ce);
        if !str_eq(command.as_str(), "PRIVMSG") {
            return Ok(Message::Unknown);
        }
        let (ta, tb) = match p.trailing {
            Some(t) => t,
            None => {
                return Err("Cannot decode this message");  // not reached: excluded by `decodable`
            },
        };
        let (pa, pb) = match p.params {
            Some(t) => t,
            None => {
                return Err("Cannot decode this message");  // not reached: excluded by `decodable`
            },
        };
        let tags = parse_tags(&v, 1, p.te);
        let sender = string_of(&v, p.ps + 1, p.pe);
        let params = sub_vec(&v, pa, pb);
        let hash: Vec<char> = vec!['#'];
        assert(hash@ == seq!['#']);
        let cpos = trim_start_pos(&params, &hash);
        let channel = string_of(&params, cpos, params.len());
        assert(params@.skip(cpos as int) == params@.subrange(cpos as int, params@.len() as int));
        let text = sub_vec(&v, ta, tb);
        let prefix = str_chars(self.command_prefix.as_str());
        if has_prefix(&text, &prefix) {
            let bpos = trim_start_pos(&text, &prefix);
            let body = sub_vec(&text, bpos, text.len());
            assert(text@.skip(bpos as int) == text@.subrange(bpos as int, text@.len() as int));
            assert(body@.subrange(0, body@.len() as int) == body@);
            let mut tokens = split_range(&body, 0, body.len(), ' ');
            proof {
                lemma_split_char_nonempty(body@, ' ');
            }
            assert(views(tokens@)[0] == tokens@[0]@);
            if tokens[0].as_str().is_empty() {
                return Err("No command name provided");
            }
            let body_text = string_of(&body, 0, body.len());
            let ntokens = tokens.len();
            let name = tokens.remove(0);
            let mut raw_args = String::new();
            if ntokens > 1 {
                let sp = find_from_exec(&body, 0, ' ');
                push_slice(&mut raw_args, &body, sp, body.len());
                assert(body@.skip(sp as int) == body@.subrange(sp as int, body@.len() as int));
            } else {
                tokens = Vec::new();
            }
            proof {
                assert(views(tokens@) =~= command_of(body@).args);
            }
            let cmd = CommandData { name, raw_args, args: tokens };
            let pm = PrivateMessage { tags, channel, sender, text: body_text };
            Ok(Message::Command(pm, cmd))
        } else {
            let text_s = string_of(&text, 0, text.len());
            assert(text@.subrange(0, text@.len() as int) == text@);
            Ok(Message::Private(PrivateMessage { tags, channel, sender, text: text_s }))
        }
    }

    /// The raw line for an outgoing message: `PRIVMSG #<channel> :<text>`.
    /// Only chat messages can be sent.
    pub fn encode(message: &Message) -> (r: Result<String, &'static str>)
        ensures
            match message@ {
                MessageView::Private(p) => r matches Ok(s) && s@ == encoded_line(p.channel, p.text),
                _ => r matches Err(e) && e@ == "Cannot encode this message"@,
            },
    {
        match message {
            Message::Private(privmsg) => {
                let mut s = String::new();
                push_str(&mut s, "PRIVMSG #");
                push_str(&mut s, privmsg.channel.as_str());
                push_str(&mut s, " :");
                push_str(&mut s, privmsg.text.as_str());
                Ok(s)
            },
            _ => Err("Cannot encode this message"),
        }
    }

    /// Encodes a module's response; the same as [`Parser::encode`].
    pub fn encode_response(message: &Message) -> (r: Result<String, &'static str>)
        ensures
            match message@ {
                MessageView::Private(p) => r matches Ok(s) && s@ == encoded_line(p.channel, p.text),
                _ => r matches Err(e) && e@ == "Cannot encode this message"@,
            },
    {
        Parser::encode(message)
    }
}

/// What the bot does with a decoded line besides handing it to the modules.
pub enum Upkeep {
    /// Records the chat user with this id under this display name.
    RegisterSender(String, String),
    /// Sends this raw line back to the server.
    Send(String),
    Nothing,
}

/// The mathematical content of an [`Upkeep`].
pub enum UpkeepView {
    RegisterSender(Seq<char>, Seq<char>),
    Send(Seq<char>),
    Nothing,
}

impl View for Upkeep {
    type V = UpkeepView;

    open spec fn view(&self) -> UpkeepView {
        match self {
            Upkeep::RegisterSender(id, name) => UpkeepView::RegisterSender(id@, name@),
            Upkeep::Send(l) => UpkeepView::Send(l@),
            Upkeep::Nothing => UpkeepView::Nothing,
        }
    }
}

/// The tags of a chat line, if the message is one.
pub open spec fn chat_tags(m: MessageView) -> Option<Map<Seq<char>, Seq<char>>> {
    match m {
        MessageView::Private(p) => Some(p.tags),
        MessageView::Command(p, _) => Some(p.tags),
        _ => None,
    }
}

/// The upkeep for a message: a chat line registers its sender (by the `user-id`
/// and `display-name` tags), the server's ping is answered with a pong, and
/// anything else needs nothing.
pub open spec fn upkeep_spec(m: MessageView) -> UpkeepView {
    match chat_tags(m) {
        Some(t) => UpkeepView::RegisterSender(t["user-id"@], t["display-name"@]),
        None => match m {
            MessageView::Ping => UpkeepView::Send("PONG :tmi.twitch.tv"@),
            _ => UpkeepView::Nothing,
        },
    }
}

/// Decides the upkeep for a decoded message. A chat line must carry the
/// `user-id` and `display-name` tags.
pub fn upkeep(message: &Message) -> (r: Upkeep)
    requires
        chat_tags(message@) matches Some(t) ==> t.contains_key("user-id"@) && t.contains_key("display-name"@),
    ensures
        r@ == upkeep_spec(message@),
{
    match message {
        Message::Private(p) | Message::Command(p, _) => {
            let mut id = String::new();
            push_str(&mut id, p.tag("user-id").as_str());
            let mut name = String::new();
            push_str(&mut name, p.tag("display-name").as_str());
            Upkeep::RegisterSender(id, name)
        },
        Message::Ping => {
            let mut line = String::new();
            push_str(&mut line, "PONG :tmi.twitch.tv");
            Upkeep::Send(line)
        },
        Message::Unknown => Upkeep::Nothing,
    }
}

/// The raw line that sends `text` to `channel`.
pub open spec fn encoded_line(channel: Seq<char>, text: Seq<char>) -> Seq<char> {
    "PRIVMSG #"@ + channel + " :"@ + text
}

fn tags_ok(v: &Vec<char>, from: usize, to: usize) -> (r: bool)
    requires
        from <= to <= v@.len(),
    ensures
        r == tags_well_formed(v@.subrange(from as int, to as int)),
{
    let ghost s = v@.subrange(from as int, to as int);
    let pairs = split_range(v, from, to, ';');
    let mut k: usize = 0;
    while k < pairs.len()
        invariant
            from <= to <= v@.len(),
            s == v@.subrange(from as int, to as int),
            views(pairs@) == split_char(s, ';'),
            k <= pairs@.len(),
            forall|i: int| 0 <= i < k ==> #[trigger] split_char(split_char(s, ';')[i], '=').len() >= 2,
        decreases pairs.len() - k,
    {
        let pv = str_chars(pairs[k].as_str());
        assert(views(pairs@)[k as int] == pairs@[k as int]@);
        assert(pv@.subrange(0, pv@.len() as int) == pv@);
        let pieces = split_range(&pv, 0, pv.len(), '=');
        if pieces.len() < 2 {
            assert(views(pieces@).len() == pieces@.len());
            assert(!(split_char(split_char(s, ';')[k as int], '=').len() >= 2));
            return false;
        }
        k = k + 1;
    }
    true
}

} // verus!

verus! {

/// The arguments written out, each after one space.
pub open spec fn spaced(args: Seq<Seq<char>>) -> Seq<char>
    decreases args.len(),
{
    if args.len() == 0 {
        Seq::empty()
    } else {
        spaced(args.drop_last()) + seq![' '] + args.last()
    }
}

proof fn lemma_find_from_push(s: Seq<char>, x: char, i: nat, c: char)
    requires
        i <= s.len(),
    ensures
        find_from(s.push(x), i, c) == if find_from(s, i, c) < s.len() {
            find_from(s, i, c)
        } else if x == c {
            s.len()
        } else {
            s.len() + 1
        },
    decreases s.len() - i,
{
    if i < s.len() {
        assert(s.push(x)[i as int] == s[i as int]);
        if s[i as int] != c {
            lemma_find_from_push(s, x, i + 1, c);
        }
    } else {
        assert(s.push(x)[i as int] == x);
        if x != c {
            assert(find_from(s.push(x), i + 1, c) == i + 1);
        }
    }
}

proof fn lemma_first_word(s: Seq<char>)
    ensures
        ({
            let f = find_from(s, 0, ' ');
            let t = split_char(s, ' ');
            &&& f <= s.len()
            &&& t.len() >= 1
            &&& (t.len() > 1) == (f < s.len())
            &&& s.take(f as int) == t[0]
            &&& s.skip(f as int) == spaced(t.skip(1))
        }),
    decreases s.len(),
{
    lemma_find_from(s, 0, ' ');
    lemma_split_char_nonempty(s, ' ');
    if s.len() == 0 {
        assert(s.take(0) =~= Seq::<char>::empty());
        assert(split_char(s, ' ').skip(1) =~= Seq::<Seq<char>>::empty());
        assert(s.skip(0) =~= Seq::<char>::empty());
    } else {
        let b = s.drop_last();
        let x = s.last();
        assert(b.push(x) == s);
        lemma_first_word(b);
        lemma_find_from_push(b, x, 0, ' ');
        lemma_find_from(b, 0, ' ');
        lemma_split_char_nonempty(b, ' ');
        let fb = find_from(b, 0, ' ');
        let tb = split_char(b, ' ');
        let t = split_char(s, ' ');
        let f = find_from(s, 0, ' ');
        if fb < b.len() {
            assert(f == fb);
            assert(s.take(f as int) =~= b.take(fb as int));
            assert(s.skip(f as int) =~= b.skip(fb as int).push(x));
            if x == ' ' {
                assert(t == tb.push(Seq::<char>::empty()));
                assert(t.skip(1) =~= tb.skip(1).push(Seq::<char>::empty()));
                assert(t.skip(1).drop_last() =~= tb.skip(1));
                assert(spaced(t.skip(1)) =~= spaced(tb.skip(1)) + seq![' '] + Seq::<char>::empty());
            } else {
                assert(t == tb.update(tb.len() - 1, tb.last().push(x)));
                let a = tb.skip(1);
                assert(t.skip(1) =~= a.update(a.len() - 1, a.last().push(x)));
                assert(t.skip(1).drop_last() =~= a.drop_last());
                assert(spaced(t.skip(1)) =~= spaced(a.drop_last()) + seq![' '] + a.last().push(x));
                assert(spaced(a) =~= spaced(a.drop_last()) + seq![' '] + a.last());
            }
        } else {
            assert(tb.len() == 1);
            assert(b.take(fb as int) =~= b);
            if x == ' ' {
                assert(f == b.len());
                assert(t == tb.push(Seq::<char>::empty()));
                assert(s.take(f as int) =~= b);
                assert(t.skip(1) =~= seq![Seq::<char>::empty()]);
                assert(t.skip(1).drop_last() =~= Seq::<Seq<char>>::empty());
                assert(s.skip(f as int) =~= seq![' ']);
                assert(spaced(t.skip(1)) == spaced(t.skip(1).drop_last()) + seq![' '] + t.skip(1).last());
                assert(spaced(Seq::<Seq<char>>::empty()) == Seq::<char>::empty());
                assert(spaced(t.skip(1)) =~= seq![' ']);
            } else {
                assert(f == s.len());
                assert(t == tb.update(0, tb[0].push(x)));
                assert(s.take(f as int) =~= s);
                assert(t.skip(1) =~= Seq::<Seq<char>>::empty());
                assert(s.skip(f as int) =~= Seq::<char>::empty());
            }
        }
    }
}

/// A decoded command's text is its name followed by its raw arguments, and the
/// raw arguments are the arguments, each after one space.
pub proof fn law_command_text(body: Seq<char>)
    ensures
        body == command_of(body).name + command_of(body).raw_args,
        command_of(body).raw_args == spaced(command_of(body).args),
{
    lemma_first_word(body);
    let f = find_from(body, 0, ' ');
    assert(body =~= body.take(f as int) + body.skip(f as int));
    if split_char(body, ' ').len() <= 1 {
        assert(body.take(f as int) =~= body);
    }
}


proof fn lemma_find_at(l: Seq<char>, i: nat, c: char, k: nat)
    requires
        i <= k <= l.len(),
        forall|m: int| i <= m < k ==> l[m] != c,
        k == l.len() || l[k as int] == c,
    ensures
        find_from(l, i, c) == k,
    decreases k - i,
{
    if i < k {
        lemma_find_at(l, i + 1, c, k);
    }
}

proof fn lemma_skip_at(l: Seq<char>, i: nat, k: nat)
    requires
        i <= k <= l.len(),
        forall|m: int| i <= m < k ==> l[m] == ' ',
        k == l.len() || l[k as int] != ' ',
    ensures
        skip_spaces(l, i) == k,
    decreases k - i,
{
    if i < k {
        lemma_skip_at(l, i + 1, k);
    }
}

/// `s` holds no `c`.
pub open spec fn free_of(s: Seq<char>, c: char) -> bool {
    forall|k: int| 0 <= k < s.len() ==> s[k] != c
}

/// The line the server relays for a chat message that was sent encoded: the
/// tags, then the sender, then the encoded line.
pub open spec fn relayed_line(tags: Seq<char>, sender: Seq<char>, channel: Seq<char>, text: Seq<char>) -> Seq<char> {
    "@"@ + tags + " :"@ + sender + " "@ + encoded_line(channel, text)
}

proof fn lemma_trim_hash(channel: Seq<char>)
    requires
        channel.len() == 0 || channel[0] != '#',
    ensures
        trim_start(seq!['#'] + channel, seq!['#']) == channel,
{
    let p = seq!['#'] + channel;
    assert(p.take(1) =~= seq!['#']);
    assert(p.skip(1) =~= channel);
    if channel.len() > 0 {
        assert(channel.take(1)[0] != '#');
        assert(channel.take(1) != seq!['#']);
    }
    assert(!starts_with(channel, seq!['#']));
    reveal_with_fuel(trim_start, 2);
}

#[verifier::rlimit(40)]
proof fn lemma_relayed_fields(tags: Seq<char>, sender: Seq<char>, channel: Seq<char>, text: Seq<char>)
    requires
        free_of(tags, ' '),
        sender.len() > 0,
        free_of(sender, ' '),
        free_of(channel, ' '),
        free_of(text, '\n'),
    ensures
        relayed_line(tags, sender, channel, text)[0] == '@',
        irc_fields(relayed_line(tags, sender, channel, text)) == Some(
            IrcFields {
                tags,
                prefix: sender,
                command: "PRIVMSG"@,
                params: Some(seq!['#'] + channel),
                trailing: Some(text),
            },
        ),
{
    reveal_strlit("@");
    reveal_strlit(" :");
    reveal_strlit(" ");
    reveal_strlit("PRIVMSG #");
    reveal_strlit("PRIVMSG");
    let l = relayed_line(tags, sender, channel, text);
    let nt = tags.len();
    let ns = sender.len();
    let nc = channel.len();
    let head = seq!['@'] + tags + seq![' ', ':'] + sender + seq![' '];
    let cmd = seq!['P', 'R', 'I', 'V', 'M', 'S', 'G'];
    let mid = seq![' ', '#'] + channel + seq![' ', ':'];
    assert(l =~= head + cmd + mid + text);
    let te: nat = (1 + nt) as nat;
    let ps: nat = te + 1;
    let pe: nat = ps + 1 + ns;
    let cs: nat = pe + 1;
    let ce: nat = cs + 7;
    let pend: nat = ce + 2 + nc;
    assert(l.len() == pend + 2 + text.len());
    assert forall|m: int| 1 <= m < te implies l[m] != ' ' by {
        assert(l[m] == tags[m - 1]);
    }
    assert(l[te as int] == ' ');
    lemma_find_at(l, 1, ' ', te);
    assert(l[ps as int] == ':');
    lemma_skip_at(l, te, ps);
    assert forall|m: int| ps + 1 <= m < pe implies l[m] != ' ' by {
        assert(l[m] == sender[m - ps - 1]);
    }
    assert(l[pe as int] == ' ');
    lemma_find_at(l, ps + 1, ' ', pe);
    assert(l[cs as int] == 'P');
    lemma_skip_at(l, pe, cs);
    assert forall|m: int| cs <= m < ce implies l[m] != ' ' by {
        assert(l[m] == cmd[m - cs]);
    }
    assert(l[ce as int] == ' ');
    lemma_find_at(l, cs, ' ', ce);
    assert(l[ce + 1 as int] == '#');
    lemma_skip_at(l, ce, ce + 1);
    assert forall|m: int| ce + 1 <= m < pend implies l[m] != ' ' by {
        if m > ce + 1 {
            assert(l[m] == channel[m - ce - 2]);
        }
    }
    assert(l[pend as int] == ' ');
    lemma_find_at(l, ce + 1, ' ', pend);
    assert(l[pend + 1 as int] == ':');
    lemma_skip_at(l, pend, pend + 1);
    assert(params_stop(l, pend) == pend);
    assert(params_stop(l, ce) == pend);
    assert forall|m: int| pend + 2 <= m < l.len() implies l[m] != '\n' by {
        assert(l[m] == text[m - pend - 2]);
    }
    lemma_find_at(l, pend + 2, '\n', l.len());
    assert(all_line_ends(l.skip(l.len() as int)));
    assert(l.subrange(1, te as int) =~= tags);
    assert(l.subrange(ps + 1 as int, pe as int) =~= sender);
    assert(l.subrange(cs as int, ce as int) =~= "PRIVMSG"@);
    assert(l.subrange(ce + 1 as int, pend as int) =~= seq!['#'] + channel);
    assert(l.subrange(pend + 2 as int, l.len() as int) =~= text);
}

/// Decoding gives back an encoded chat message: a line made of well-formed tags,
/// a sender and the encoded message (whose text is not a command and has no line
/// feed, and whose channel has no space and does not start with `#`) decodes to
/// that message, with those tags and that sender.
pub proof fn law_decode_encoded(prefix: Seq<char>, tags: Seq<char>, sender: Seq<char>, channel: Seq<char>, text: Seq<char>)
    requires
        free_of(tags, ' '),
        tags_well_formed(tags),
        sender.len() > 0,
        free_of(sender, ' '),
        free_of(channel, ' '),
        channel.len() == 0 || channel[0] != '#',
        free_of(text, '\n'),
        !starts_with(text, prefix),
    ensures
        decodable(relayed_line(tags, sender, channel, text)),
        decode_spec(prefix, relayed_line(tags, sender, channel, text)) == Ok::<MessageView, Seq<char>>(
            MessageView::Private(PrivateMessageView { tags: tags_of(tags), channel, sender, text }),
        ),
{
    lemma_relayed_fields(tags, sender, channel, text);
    lemma_trim_hash(channel);
    reveal_strlit("PING :tmi.twitch.tv");
    assert(relayed_line(tags, sender, channel, text) != ping_line()) by {
        assert(ping_line()[0] == 'P');
    }
}

} // verus!
