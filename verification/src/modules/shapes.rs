use vstd::prelude::*;
use crate::message::{outgoing, privmsg, Message, MessageView, PrivateMessage};
use crate::text::{
    decimal, str_eq, lemma_split_char_concat, lemma_split_char_none, push_i64, push_str, split_char, split_range,
    str_chars, views,
};

verus! {

// A user completes an "E shape" in a channel by sending, one after another,
//
//     t t t
//     t
//     t t
//     t
//     t t t
//
// for some word t. The stage counts how many of these lines were seen.

/// One step of the shape tracking: the next stage, the remembered word, and the
/// completed word if this line finished the shape.
pub open spec fn shape_step(stage: int, token: Seq<char>, words: Seq<Seq<char>>) -> (int, Seq<char>, Option<Seq<char>>) {
    if stage == 0 {
        if words.len() == 3 && words[0] == words[1] && words[1] == words[2] {
            (1, words[0], None)
        } else {
            (0, token, None)
        }
    } else if stage == 1 || stage == 3 {
        if words.len() == 1 && words[0] == token {
            (stage + 1, token, None)
        } else {
            (0, token, None)
        }
    } else if stage == 2 {
        if words.len() == 2 && words[0] == words[1] && words[0] == token {
            (3, token, None)
        } else {
            (0, token, None)
        }
    } else if stage == 4 {
        if words.len() == 3 && words[0] == words[1] && words[1] == words[2] && words[0] == token
            && words[1] == token {
            (0, token, Some(token))
        } else {
            (0, token, None)
        }
    } else {
        (0, token, None)
    }
}

/// The progress of the shape in one channel.
pub struct ShapeData {
    pub stage: i32,
    pub token: String,
}

impl ShapeData {
    /// No progress yet.
    pub fn new() -> (d: ShapeData)
        ensures
            d.stage == 0,
            d.token@ == Seq::<char>::empty(),
    {
        ShapeData { stage: 0, token: String::new() }
    }

    /// Starts over; the remembered word stays.
    pub fn reset(&mut self)
        ensures
            final(self).stage == 0,
            final(self).token == old(self).token,
    {
        self.stage = 0;
    }

    /// Takes the next chat line of the channel; returns the word when the line
    /// completes the shape.
    pub fn observe(&mut self, text: &str) -> (done: Option<String>)
        ensures
            ({
                let (stage, token, finished) = shape_step(old(self).stage as int, old(self).token@, split_char(text@, ' '));
                &&& final(self).stage == stage
                &&& final(self).token@ == token
                &&& match done {
                    Some(t) => finished == Some(t@),
                    None => finished.is_none(),
                }
            }),
    {
        let v = str_chars(text);
        let words = split_range(&v, 0, v.len(), ' ');
        assert(v@.subrange(0, v@.len() as int) == text@);
        let ghost w = split_char(text@, ' ');
        assert(forall|i: int| 0 <= i < words@.len() ==> #[trigger] words@[i]@ == w[i]) by {
            assert forall|i: int| 0 <= i < words@.len() implies #[trigger] words@[i]@ == w[i] by {
                assert(views(words@)[i] == words@[i]@);
            }
        }
        assert(words@.len() == w.len()) by {
            assert(views(words@).len() == words@.len());
        }
        let n = words.len();
        if self.stage == 0 {
            if n == 3 && words[0] == words[1] && words[1] == words[2] {
                self.token = words[0].clone();
                self.stage = 1;
            }
            None
        } else if self.stage == 1 || self.stage == 3 {
            if n == 1 && words[0] == self.token {
                self.stage = self.stage + 1;
            } else {
                self.reset();
            }
            None
        } else if self.stage == 2 {
            if n == 2 && words[0] == words[1] && words[0] == self.token {
                self.stage = 3;
            } else {
                self.reset();
            }
            None
        } else if self.stage == 4 {
            if n == 3 && words[0] == words[1] && words[1] == words[2] && words[0] == self.token
                && words[1] == self.token {
                self.reset();
                Some(self.token.clone())
            } else {
                self.reset();
                None
            }
        } else {
            self.reset();
            None
        }
    }
}

/// The points a completed shape earns.
pub const SHAPE_REWARD: i32 = 100;

/// The announcement of a completed shape.
pub open spec fn reward_text(name: Seq<char>, token: Seq<char>, new_points: int) -> Seq<char> {
    name + " completed the "@ + token + " E shape, won 100 points and now has "@ + decimal(new_points)
        + " points. PagChomp"@
}

/// The points of a user with `curr_points` points who completed a shape.
pub fn shape_reward(curr_points: i32) -> (r: i32)
    requires
        curr_points + SHAPE_REWARD <= i32::MAX,
    ensures
        r == curr_points + SHAPE_REWARD,
{
    curr_points + SHAPE_REWARD
}

/// The announcement, in the channel of `privmsg_in`, that its sender completed
/// the shape with `token` and now has `new_points` points.
pub fn shape_announcement(privmsg_in: &PrivateMessage, token: &String, new_points: i32) -> (r: Message)
    requires
        privmsg_in.tags@.contains_key("display-name"@),
    ensures
        r@ == outgoing(privmsg_in.channel@, reward_text(privmsg_in.tags@["display-name"@], token@, new_points as int)),
{
    let name = privmsg_in.tag("display-name");
    let mut t = String::new();
    push_str(&mut t, name.as_str());
    push_str(&mut t, " completed the ");
    push_str(&mut t, token.as_str());
    push_str(&mut t, " E shape, won 100 points and now has ");
    push_i64(&mut t, new_points as i64);
    push_str(&mut t, " points. PagChomp");
    privmsg(privmsg_in.channel.as_str(), t)
}

/// The shape progress of a channel: its stage and remembered word.
pub type ShapeState = (int, Seq<char>);

/// The map that recording the entries one after another builds.
pub open spec fn fold_shapes(s: Seq<(Seq<char>, ShapeState)>) -> Map<Seq<char>, ShapeState>
    decreases s.len(),
{
    if s.len() == 0 {
        Map::empty()
    } else {
        fold_shapes(s.drop_last()).insert(s.last().0, s.last().1)
    }
}

/// The progress of a channel in `m`; a channel not seen yet is at stage 0 with
/// no word.
pub open spec fn progress_of(m: Map<Seq<char>, ShapeState>, channel: Seq<char>) -> ShapeState {
    if m.contains_key(channel) {
        m[channel]
    } else {
        (0, Seq::empty())
    }
}

/// A chat line `words` in `channel`: the new progress of every channel, and the
/// completed word if the line finished a shape there.
pub open spec fn channel_step(m: Map<Seq<char>, ShapeState>, channel: Seq<char>, words: Seq<Seq<char>>) -> (Map<Seq<char>, ShapeState>, Option<Seq<char>>) {
    let (stage, token) = progress_of(m, channel);
    let (stage2, token2, finished) = shape_step(stage, token, words);
    (m.insert(channel, (stage2, token2)), finished)
}

/// The shape progress of every channel, kept apart.
pub struct ChannelShapes {
    entries: Vec<(String, ShapeData)>,
}

pub open spec fn shape_entry_views(s: Seq<(String, ShapeData)>) -> Seq<(Seq<char>, ShapeState)> {
    s.map_values(|e: (String, ShapeData)| (e.0@, (e.1.stage as int, e.1.token@)))
}

impl View for ChannelShapes {
    type V = Map<Seq<char>, ShapeState>;

    closed spec fn view(&self) -> Map<Seq<char>, ShapeState> {
        fold_shapes(shape_entry_views(self.entries@))
    }
}

proof fn lemma_fold_shapes_last(s: Seq<(Seq<char>, ShapeState)>, i: int, k: Seq<char>)
    requires
        0 <= i < s.len(),
        s[i].0 == k,
        forall|j: int| i < j < s.len() ==> #[trigger] s[j].0 != k,
    ensures
        fold_shapes(s).contains_key(k),
        fold_shapes(s)[k] == s[i].1,
    decreases s.len(),
{
    if i < s.len() - 1 {
        lemma_fold_shapes_last(s.drop_last(), i, k);
    }
}

proof fn lemma_fold_shapes_absent(s: Seq<(Seq<char>, ShapeState)>, k: Seq<char>)
    requires
        forall|j: int| 0 <= j < s.len() ==> #[trigger] s[j].0 != k,
    ensures
        !fold_shapes(s).contains_key(k),
    decreases s.len(),
{
    if s.len() > 0 {
        lemma_fold_shapes_absent(s.drop_last(), k);
    }
}

proof fn lemma_fold_shapes_update(s: Seq<(Seq<char>, ShapeState)>, i: int, k: Seq<char>, v: ShapeState)
    requires
        0 <= i < s.len(),
        s[i].0 == k,
        forall|j: int| i < j < s.len() ==> #[trigger] s[j].0 != k,
    ensures
        fold_shapes(s.update(i, (k, v))) == fold_shapes(s).insert(k, v),
    decreases s.len(),
{
    let t = s.update(i, (k, v));
    if i == s.len() - 1 {
        assert(t.drop_last() =~= s.drop_last());
        assert(fold_shapes(t) =~= fold_shapes(s).insert(k, v));
    } else {
        lemma_fold_shapes_update(s.drop_last(), i, k, v);
        assert(t.drop_last() =~= s.drop_last().update(i, (k, v)));
        assert(s.last().0 != k);
        assert(fold_shapes(t) =~= fold_shapes(s).insert(k, v));
    }
}

impl ChannelShapes {
    /// No channel has progress yet.
    pub fn new() -> (c: ChannelShapes)
        ensures
            c@ == Map::<Seq<char>, ShapeState>::empty(),
    {
        let c = ChannelShapes { entries: Vec::new() };
        assert(shape_entry_views(c.entries@) =~= Seq::empty());
        c
    }

    /// Takes the next chat line `text` of `channel`: only that channel's
    /// progress moves, and the word is returned when the line completes the
    /// shape there.
    pub fn observe(&mut self, channel: &str, text: &str) -> (done: Option<String>)
        ensures
            ({
                let (m, finished) = channel_step(old(self)@, channel@, split_char(text@, ' '));
                &&& final(self)@ == m
                &&& match done {
                    Some(t) => finished == Some(t@),
                    None => finished.is_none(),
                }
            }),
    {
        let ghost ev = shape_entry_views(self.entries@);
        let mut i = self.entries.len();
        while i > 0
            invariant
                i <= self.entries@.len(),
                ev == shape_entry_views(self.entries@),
                self.entries@ == old(self).entries@,
                forall|j: int| i <= j < ev.len() ==> #[trigger] ev[j].0 != channel@,
            decreases i,
        {
            i = i - 1;
            if str_eq(self.entries[i].0.as_str(), channel) {
                proof {
                    lemma_fold_shapes_last(ev, i as int, channel@);
                }
                let ghost before = self.entries@;
                assert(ev[i as int] == (before[i as int].0@, (before[i as int].1.stage as int, before[i as int].1.token@)));
                let (key, mut data) = self.entries.remove(i);
                assert(key@ == channel@);
                assert(progress_of(fold_shapes(ev), channel@) == (data.stage as int, data.token@));
                let done = data.observe(text);
                let ghost nv = (data.stage as int, data.token@);
                self.entries.insert(i, (key, data));
                proof {
                    assert(self.entries@ =~= before.update(i as int, self.entries@[i as int]));
                    assert(shape_entry_views(self.entries@) =~= ev.update(i as int, (channel@, nv)));
                    lemma_fold_shapes_update(ev, i as int, channel@, nv);
                }
                return done;
            }
        }
        proof {
            lemma_fold_shapes_absent(ev, channel@);
        }
        let mut data = ShapeData::new();
        let done = data.observe(text);
        let mut key = String::new();
        push_str(&mut key, channel);
        self.entries.push((key, data));
        proof {
            assert(shape_entry_views(self.entries@).drop_last() =~= ev);
        }
        done
    }
}

impl ChannelShapes {
    /// Takes a decoded message: a plain chat line moves its channel's progress
    /// (see [`ChannelShapes::observe`]); any other message changes nothing.
    pub fn observe_message(&mut self, message: &Message) -> (done: Option<String>)
        ensures
            match message@ {
                MessageView::Private(p) => {
                    let (m, finished) = channel_step(old(self)@, p.channel, split_char(p.text, ' '));
                    &&& final(self)@ == m
                    &&& match done {
                        Some(t) => finished == Some(t@),
                        None => finished.is_none(),
                    }
                },
                _ => final(self)@ == old(self)@ && done.is_none(),
            },
    {
        match message {
            Message::Private(p) => self.observe(p.channel.as_str(), p.text.as_str()),
            _ => None,
        }
    }
}

/// A line in one channel leaves the progress of every other channel as it was.
pub proof fn law_shape_channels_apart(m: Map<Seq<char>, ShapeState>, channel: Seq<char>, other: Seq<char>, words: Seq<Seq<char>>)
    requires
        other != channel,
    ensures
        progress_of(channel_step(m, channel, words).0, other) == progress_of(m, other),
{
}

/// The stage never leaves `0..=4`, whatever line comes.
pub proof fn law_shape_stage_bounded(stage: int, token: Seq<char>, words: Seq<Seq<char>>)
    ensures
        0 <= shape_step(stage, token, words).0 <= 4,
{
}

/// From any state at stage 0, the five lines of the E shape for a word `t`
/// complete it on the fifth line, and only there; the stage is then 0 again.
pub proof fn law_shape_completes(token: Seq<char>, t: Seq<char>)
    ensures
        ({
            let s1 = shape_step(0, token, seq![t, t, t]);
            let s2 = shape_step(s1.0, s1.1, seq![t]);
            let s3 = shape_step(s2.0, s2.1, seq![t, t]);
            let s4 = shape_step(s3.0, s3.1, seq![t]);
            let s5 = shape_step(s4.0, s4.1, seq![t, t, t]);
            &&& s1.2.is_none() && s2.2.is_none() && s3.2.is_none() && s4.2.is_none()
            &&& s5 == (0int, t, Some(t))
        }),
{
}

/// The same for the chat lines themselves: from stage 0, a user who sends
/// `t t t`, `t`, `t t`, `t`, `t t t` (for a word `t` without spaces) completes the
/// shape with the fifth line and only there.
pub proof fn law_shape_lines_complete(token: Seq<char>, t: Seq<char>)
    requires
        forall|i: int| 0 <= i < t.len() ==> t[i] != ' ',
    ensures
        ({
            let three = t + " "@ + t + " "@ + t;
            let two = t + " "@ + t;
            let s1 = shape_step(0, token, split_char(three, ' '));
            let s2 = shape_step(s1.0, s1.1, split_char(t, ' '));
            let s3 = shape_step(s2.0, s2.1, split_char(two, ' '));
            let s4 = shape_step(s3.0, s3.1, split_char(t, ' '));
            let s5 = shape_step(s4.0, s4.1, split_char(three, ' '));
            &&& s1.2.is_none() && s2.2.is_none() && s3.2.is_none() && s4.2.is_none()
            &&& s5 == (0int, t, Some(t))
        }),
{
    reveal_strlit(" ");
    lemma_split_char_none(t, ' ');
    assert(t + " "@ + t == t + seq![' '] + t);
    lemma_split_char_concat(t, t, ' ');
    assert(split_char(t + " "@ + t, ' ') =~= seq![t, t]);
    assert(t + " "@ + t + " "@ + t == (t + " "@ + t) + seq![' '] + t);
    lemma_split_char_concat(t + " "@ + t, t, ' ');
    assert(split_char(t + " "@ + t + " "@ + t, ' ') =~= seq![t, t, t]);
    law_shape_completes(token, t);
}

/// Each line of the shape, word by word: at stage 0 three equal words start a
/// shape with that word; at stages 1 and 3 the line must be the word alone, at
/// stage 2 the word twice, and at stage 4 the word three times, which completes
/// the shape. Any other line starts over at stage 0 and completes nothing.
pub proof fn law_shape_lines(stage: int, token: Seq<char>, words: Seq<Seq<char>>, w: Seq<char>)
    ensures
        stage == 0 && words == seq![w, w, w] ==> shape_step(stage, token, words) == (1int, w, None::<Seq<char>>),
        stage == 0 && !(words.len() == 3 && words[0] == words[1] && words[1] == words[2]) ==> shape_step(
            stage,
            token,
            words,
        ) == (0int, token, None::<Seq<char>>),
        (stage == 1 || stage == 3) ==> shape_step(stage, token, words) == if words == seq![token] {
            (stage + 1, token, None::<Seq<char>>)
        } else {
            (0int, token, None::<Seq<char>>)
        },
        stage == 2 ==> shape_step(stage, token, words) == if words == seq![token, token] {
            (3int, token, None::<Seq<char>>)
        } else {
            (0int, token, None::<Seq<char>>)
        },
        stage == 4 ==> shape_step(stage, token, words) == if words == seq![token, token, token] {
            (0int, token, Some(token))
        } else {
            (0int, token, None::<Seq<char>>)
        },
{
    if words.len() == 1 && words[0] == token {
        assert(words =~= seq![token]);
    }
    if words.len() == 2 && words[0] == token && words[1] == token {
        assert(words =~= seq![token, token]);
    }
    if words.len() == 3 && words[0] == token && words[1] == token && words[2] == token {
        assert(words =~= seq![token, token, token]);
    }
}

/// The progress after the lines `lines`, from stage 0 with the word `start`:
/// the stage, the remembered word, and the word completed by the last line.
pub open spec fn shape_run(lines: Seq<Seq<Seq<char>>>, start: Seq<char>) -> (int, Seq<char>, Option<Seq<char>>)
    decreases lines.len(),
{
    if lines.len() == 0 {
        (0, start, None)
    } else {
        let prev = shape_run(lines.drop_last(), start);
        shape_step(prev.0, prev.1, lines.last())
    }
}

/// The five lines of the E shape for the word `t`.
pub open spec fn e_shape(t: Seq<char>) -> Seq<Seq<Seq<char>>> {
    seq![seq![t, t, t], seq![t], seq![t, t], seq![t], seq![t, t, t]]
}

proof fn lemma_run_stage(lines: Seq<Seq<Seq<char>>>, start: Seq<char>)
    ensures
        0 <= shape_run(lines, start).0 <= 4,
        shape_run(lines, start).0 <= lines.len(),
        shape_run(lines, start).0 > 0 ==> lines.skip(lines.len() - shape_run(lines, start).0) == e_shape(
            shape_run(lines, start).1,
        ).take(shape_run(lines, start).0),
    decreases lines.len(),
{
    if lines.len() > 0 {
        let dl = lines.drop_last();
        lemma_run_stage(dl, start);
        let prev = shape_run(dl, start);
        let cur = shape_run(lines, start);
        law_shape_lines(prev.0, prev.1, lines.last(), lines.last()[0]);
        if cur.0 > 0 {
            let k = cur.0;
            let t = cur.1;
            if prev.0 == 0 {
                assert(lines.last() == seq![t, t, t]) by {
                    assert(lines.last() =~= seq![t, t, t]);
                }
                assert(lines.skip(lines.len() - 1) =~= e_shape(t).take(1));
            } else {
                assert(k == prev.0 + 1);
                assert(t == prev.1);
                assert(dl.skip(dl.len() - prev.0) == e_shape(t).take(prev.0));
                assert(lines.skip(lines.len() - k) =~= dl.skip(dl.len() - prev.0).push(lines.last()));
                assert(e_shape(t).take(k) =~= e_shape(t).take(prev.0).push(e_shape(t)[prev.0]));
            }
        }
    }
}

/// A shape completes only with the exact five lines: whenever the last of a
/// run of lines (from any start) completes a shape for the word `t`, the last
/// five lines are `t t t`, `t`, `t t`, `t`, `t t t`.
pub proof fn law_shape_needs_all_five_lines(lines: Seq<Seq<Seq<char>>>, start: Seq<char>, t: Seq<char>)
    requires
        shape_run(lines, start).2 == Some(t),
    ensures
        lines.len() >= 5,
        lines.skip(lines.len() - 5) == e_shape(t),
{
    let dl = lines.drop_last();
    lemma_run_stage(dl, start);
    let prev = shape_run(dl, start);
    law_shape_completion_needs_stage_four(prev.0, prev.1, lines.last());
    assert(lines.skip(lines.len() - 5) =~= dl.skip(dl.len() - 4).push(lines.last()));
    assert(e_shape(t) =~= e_shape(t).take(4).push(seq![t, t, t]));
}

/// A line completes the shape only at stage 4, with three copies of the
/// remembered word, and reports that word.
pub proof fn law_shape_completion_needs_stage_four(stage: int, token: Seq<char>, words: Seq<Seq<char>>)
    ensures
        shape_step(stage, token, words).2 is Some ==> stage == 4 && words == seq![token, token, token]
            && shape_step(stage, token, words).2 == Some(token),
{
    if shape_step(stage, token, words).2 is Some {
        assert(words =~= seq![token, token, token]);
    }
}

} // verus!
