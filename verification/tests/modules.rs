use lordbornebot::message::{privmsg, CommandData, Message, Module, PrivateMessage, TagMap};
use lordbornebot::middleware::{forward_to_middlewares, Filter, Middleware};
use lordbornebot::modules::afk::{
    afk_command_of, afk_reason, back_due, back_due_now, is_afk_reply_at, is_afk_reply_now, now_afk_announcement, ago_string, back_reply, is_afk_reply, AFKStatus, AfkCommand, AfkLookup,
    Timestamp,
};
use lordbornebot::modules::gamble::{bet_amount, gamble_outcome, gamble_requested, GambleOutcome};
use lordbornebot::modules::ping::Ping;
use lordbornebot::modules::points::{points_query, points_reply, PointsQuery};
use lordbornebot::modules::shapes::{shape_announcement, shape_reward, ChannelShapes, ShapeData};

fn pm(name: &str, text: &str) -> PrivateMessage {
    let mut tags = TagMap::new();
    tags.insert("display-name".to_string(), name.to_string());
    tags.insert("user-id".to_string(), "42".to_string());
    PrivateMessage { tags, channel: "chan".to_string(), sender: "s".to_string(), text: text.to_string() }
}

fn cmd(name: &str, args: &[&str]) -> CommandData {
    let mut raw = String::new();
    for a in args {
        raw.push(' ');
        raw.push_str(a);
    }
    CommandData { name: name.to_string(), raw_args: raw, args: args.iter().map(|s| s.to_string()).collect() }
}

fn text_of(m: &Message) -> (String, String) {
    match m {
        Message::Private(p) => (p.channel.clone(), p.text.clone()),
        _ => panic!("expected a chat message"),
    }
}

#[test]
fn ping_answers() {
    let mut ping = Ping {};
    let m = Message::Command(pm("A", "ping"), cmd("ping", &[]));
    assert_eq!(text_of(&ping.handle_message(&m).unwrap()), ("chan".to_string(), "pong".to_string()));
    let m = Message::Command(pm("A", "hi"), cmd("hi", &[]));
    assert_eq!(text_of(&ping.handle_message(&m).unwrap()).1, "Hi from a dynamically loaded module :)");
    let m = Message::Command(pm("A", "x"), cmd("x", &[]));
    assert!(ping.handle_message(&m).is_none());
    assert!(ping.handle_message(&Message::Ping).is_none());
}

#[test]
fn gamble_requests_and_amounts() {
    assert!(gamble_requested(&Message::Command(pm("A", ""), cmd("gamble", &["5"]))));
    assert!(gamble_requested(&Message::Command(pm("A", ""), cmd("roulette", &["all"]))));
    assert!(!gamble_requested(&Message::Command(pm("A", ""), cmd("gamble", &[]))));
    assert!(!gamble_requested(&Message::Command(pm("A", ""), cmd("points", &["5"]))));
    assert!(!gamble_requested(&Message::Private(pm("A", "gamble 5"))));
    assert_eq!(bet_amount("all", 77), Some(77));
    assert_eq!(bet_amount("-3", 77), Some(-3));
    assert_eq!(bet_amount("lots", 77), None);
}

#[test]
fn gamble_outcomes() {
    let p = pm("Bob", "");
    match gamble_outcome(&p, &cmd("gamble", &["10"]), 100, false) {
        GambleOutcome::Update(n, m) => {
            assert_eq!(n, 110);
            assert_eq!(text_of(&m), ("chan".to_string(), "Bob has won and now has 110 points. PagChomp".to_string()));
        }
        _ => panic!("expected an update"),
    }
    match gamble_outcome(&p, &cmd("roulette", &["all"]), 100, true) {
        GambleOutcome::Update(n, m) => {
            assert_eq!(n, 0);
            assert_eq!(text_of(&m).1, "Bob has lost and now has 0 points. FeelsWeirdMan");
        }
        _ => panic!("expected an update"),
    }
    match gamble_outcome(&p, &cmd("gamble", &["0"]), 100, false) {
        GambleOutcome::Reply(m) => assert_eq!(
            text_of(&m),
            ("jtv".to_string(), "/w Bob Bob, please enter a positive amount of points.".to_string())
        ),
        _ => panic!("expected a reply"),
    }
    match gamble_outcome(&p, &cmd("gamble", &["101"]), 100, false) {
        GambleOutcome::Reply(m) => {
            assert_eq!(text_of(&m).1, "/w Bob Bob, you don't have enough points for this roulette.")
        }
        _ => panic!("expected a reply"),
    }
    assert!(matches!(gamble_outcome(&p, &cmd("gamble", &["x"]), 100, false), GambleOutcome::Ignore));
}

#[test]
fn points_queries_and_replies() {
    let q = points_query(&Message::Command(pm("A", ""), cmd("points", &[]))).unwrap();
    assert!(matches!(q, PointsQuery::Own));
    let q2 = points_query(&Message::Command(pm("A", ""), cmd("points", &["carl", "x"]))).unwrap();
    match &q2 {
        PointsQuery::ByUsername(u) => assert_eq!(u, "carl"),
        _ => panic!("expected a user"),
    }
    assert!(points_query(&Message::Command(pm("A", ""), cmd("gamble", &[]))).is_none());
    let p = pm("Ann", "");
    assert_eq!(text_of(&points_reply(&p, &q, Some(-5)).unwrap()).1, "Ann, you have -5 points.");
    assert!(points_reply(&p, &q, None).is_none());
    assert_eq!(text_of(&points_reply(&p, &q2, Some(12)).unwrap()).1, "Ann, carl has 12 points.");
    assert_eq!(
        text_of(&points_reply(&p, &q2, None).unwrap()).1,
        "Ann, that user doesn't exist yet in the database."
    );
}

#[test]
fn shape_completes_after_five_lines() {
    let mut d = ShapeData::new();
    assert!(d.observe("Kappa Kappa Kappa").is_none());
    assert!(d.observe("Kappa").is_none());
    assert!(d.observe("Kappa Kappa").is_none());
    assert!(d.observe("Kappa").is_none());
    assert_eq!(d.observe("Kappa Kappa Kappa").unwrap(), "Kappa");
    assert_eq!(d.stage, 0);
}

#[test]
fn shape_resets_on_wrong_line() {
    let mut d = ShapeData::new();
    assert!(d.observe("a a a").is_none());
    assert_eq!(d.stage, 1);
    assert!(d.observe("a a a").is_none());
    assert_eq!(d.stage, 0);
    assert!(d.observe("a").is_none());
    assert_eq!(d.stage, 0);
    assert!(d.observe("b b").is_none());
    assert_eq!(d.stage, 0);
    d.stage = 3;
    d.reset();
    assert_eq!(d.stage, 0);
}

#[test]
fn shape_channels_kept_apart() {
    let mut c = ChannelShapes::new();
    assert!(c.observe("a", "Kappa Kappa Kappa").is_none());
    assert!(c.observe("a", "Kappa").is_none());
    assert!(c.observe("b", "x x x").is_none());
    assert!(c.observe("a", "Kappa Kappa").is_none());
    assert!(c.observe("b", "x").is_none());
    assert!(c.observe("a", "Kappa").is_none());
    assert_eq!(c.observe("a", "Kappa Kappa Kappa").unwrap(), "Kappa");
    assert!(c.observe("b", "x x").is_none());
    assert!(c.observe("b", "x").is_none());
    assert_eq!(c.observe("b", "x x x").unwrap(), "x");
    assert!(c.observe("a", "Kappa").is_none());
}

#[test]
fn shape_reward_message() {
    let n = shape_reward(5);
    assert_eq!(n, 105);
    let m = shape_announcement(&pm("Zed", ""), &"Kappa".to_string(), n);
    assert_eq!(text_of(&m).1, "Zed completed the Kappa E shape, won 100 points and now has 105 points. PagChomp");
}

#[test]
fn elapsed_time_text() {
    assert_eq!(ago_string(90061), "1d 1h 1m 1s");
    assert_eq!(ago_string(59), "0d 0h 0m 59s");
    assert_eq!(ago_string(-61), "0d 0h -1m -1s");
    assert_eq!(ago_string(i64::MIN), "-106751991167300d -15h -30m -8s");
}

fn status(afk: bool, reason: &str) -> AFKStatus {
    AFKStatus { afk, reason: reason.to_string(), time: Timestamp { secs: 0, nanos: 0 } }
}

#[test]
fn back_from_afk() {
    let p = pm("Eve", "hello");
    assert!(back_reply(&p, &status(false, ""), 1000).is_none());
    assert!(back_reply(&p, &status(true, ""), 59).is_none());
    assert_eq!(text_of(&back_reply(&p, &status(true, ""), 60).unwrap()).1, "Eve is back (0d 0h 1m 0s ago)!");
    assert_eq!(
        text_of(&back_reply(&p, &status(true, "lunch"), 3600).unwrap()).1,
        "Eve is back (0d 1h 0m 0s ago): lunch"
    );
}

#[test]
fn afk_commands() {
    assert!(matches!(afk_command_of(&cmd("afk", &[])), AfkCommand::SetAfk));
    match afk_command_of(&cmd("isafk", &["joe"])) {
        AfkCommand::IsAfk(u) => assert_eq!(u, "joe"),
        _ => panic!("expected isafk"),
    }
    assert!(matches!(afk_command_of(&cmd("isafk", &[])), AfkCommand::Other));
    let p = pm("Eve", "");
    let reason = afk_reason(&cmd("afk", &["gone", "fishing"]), Some(&status(false, ""))).unwrap();
    assert_eq!(reason, " gone fishing");
    assert_eq!(text_of(&now_afk_announcement(&p, &reason)).1, "Eve is now afk:  gone fishing");
    let reason = afk_reason(&cmd("afk", &[]), Some(&status(false, ""))).unwrap();
    assert_eq!(reason, "");
    assert_eq!(text_of(&now_afk_announcement(&p, &reason)).1, "Eve is now afk.");
    assert!(afk_reason(&cmd("afk", &[]), Some(&status(true, ""))).is_none());
    assert!(afk_reason(&cmd("afk", &[]), None).is_none());
}

#[test]
fn is_afk_answers() {
    let p = pm("Eve", "");
    let found = AfkLookup::Found(status(true, "zzz"));
    assert_eq!(text_of(&is_afk_reply(&p, "joe", &found, 61).unwrap()).1, "joe is afk (0d 0h 1m 1s ago): zzz.");
    let back = AfkLookup::Found(status(false, ""));
    assert_eq!(text_of(&is_afk_reply(&p, "joe", &back, 61).unwrap()).1, "joe is not afk.");
    assert_eq!(text_of(&is_afk_reply(&p, "joe", &AfkLookup::NotFound, 0).unwrap()).1, "joe is not afk.");
    assert!(is_afk_reply(&p, "joe", &AfkLookup::Failed, 0).is_none());
}

#[test]
fn filter_blocks_banned_phrases_in_any_case() {
    let mut f = Filter::new(vec!["ABC".to_string()]);
    let mut m = Message::Private(pm("A", "xxabcxx"));
    assert!(!f.process_message(&mut m));
    let mut m = Message::Command(pm("A", "say AbC"), cmd("say", &["AbC"]));
    assert!(!f.process_message(&mut m));
    let mut m = Message::Private(pm("A", "ab c"));
    assert!(f.process_message(&mut m));
    let mut m = Message::Ping;
    assert!(f.process_message(&mut m));
}

#[test]
fn middlewares_run_in_order_until_one_refuses() {
    let mut mws = vec![Filter::new(vec!["foo".to_string()]), Filter::new(vec!["bar".to_string()])];
    let mut m = Message::Private(pm("A", "nothing here"));
    assert!(forward_to_middlewares(&mut mws, &mut m));
    let mut m = Message::Private(pm("A", "a BAR"));
    assert!(!forward_to_middlewares(&mut mws, &mut m));
    let mut none: Vec<Filter> = Vec::new();
    assert!(forward_to_middlewares(&mut none, &mut m));
}

#[test]
fn empty_banned_phrase_blocks_every_chat_line() {
    let mut f = Filter::new(vec!["".to_string()]);
    let mut m = Message::Private(pm("A", "anything"));
    assert!(!f.process_message(&mut m));
    let mut m = privmsg("c", "x".to_string());
    assert!(!f.process_message(&mut m));
}

#[test]
fn clock_readings() {
    let p = pm("Eve", "");
    let long_ago = AFKStatus { afk: true, reason: "x".to_string(), time: Timestamp { secs: 0, nanos: 0 } };
    let elapsed = back_due_now(&long_ago).unwrap();
    assert!(elapsed >= 60);
    let back = text_of(&back_reply(&p, &long_ago, elapsed).unwrap()).1;
    assert!(back.starts_with("Eve is back ("), "{}", back);
    assert!(back.ends_with(" ago): x"), "{}", back);
    let answer = text_of(&is_afk_reply_now(&p, "joe", &AfkLookup::Found(long_ago)).unwrap()).1;
    assert!(answer.starts_with("joe is afk (") && answer.ends_with(" ago): x."), "{}", answer);
    let out_of_range = AFKStatus { afk: true, reason: String::new(), time: Timestamp { secs: i64::MAX, nanos: 0 } };
    assert!(back_due_now(&out_of_range).is_none());
    assert!(is_afk_reply_now(&p, "joe", &AfkLookup::Found(out_of_range)).is_none());
    assert!(back_due_now(&status(false, "")).is_none());
    let just_now = AFKStatus { afk: true, reason: String::new(), time: Timestamp { secs: 4102444800, nanos: 0 } };
    assert!(back_due_now(&just_now).is_none());
}

#[test]
fn chrono_date_range() {
    let p = pm("Eve", "");
    let at = |secs: i64, nanos: u32| AfkLookup::Found(AFKStatus { afk: true, reason: "x".to_string(), time: Timestamp { secs, nanos } });
    assert!(is_afk_reply_now(&p, "joe", &at(-8334601228800, 0)).is_some());
    assert!(is_afk_reply_now(&p, "joe", &at(-8334601228801, 0)).is_none());
    assert!(is_afk_reply_now(&p, "joe", &at(8210266876799, 999_999_999)).is_some());
    assert!(is_afk_reply_now(&p, "joe", &at(8210266876800, 0)).is_none());
    assert!(is_afk_reply_now(&p, "joe", &at(59, 1_500_000_000)).is_some());
    assert!(is_afk_reply_now(&p, "joe", &at(58, 1_500_000_000)).is_none());
    assert!(is_afk_reply_now(&p, "joe", &at(59, 2_000_000_000)).is_none());
    let leap = AFKStatus { afk: true, reason: String::new(), time: Timestamp { secs: 59, nanos: 1_500_000_000 } };
    assert!(back_due_now(&leap).unwrap() >= 60);
}

#[test]
fn elapsed_time_at_a_given_instant() {
    let p = pm("Eve", "");
    let ts = |secs: i64, nanos: u32| Timestamp { secs, nanos };
    let away = AFKStatus { afk: true, reason: "x".to_string(), time: ts(0, 0) };
    assert_eq!(back_due(&away, &ts(90061, 0)), Some(90061));
    assert_eq!(back_due(&away, &ts(60, 0)), Some(60));
    assert_eq!(back_due(&away, &ts(59, 999_999_999)), None);
    let later = AFKStatus { afk: true, reason: "x".to_string(), time: ts(1, 500_000_000) };
    assert_eq!(back_due(&later, &ts(0, 0)), None);
    let not_away = AFKStatus { afk: false, reason: String::new(), time: ts(0, 0) };
    assert_eq!(back_due(&not_away, &ts(90061, 0)), None);
    assert_eq!(back_due(&away, &ts(i64::MAX, 0)), None);
    let found = AfkLookup::Found(AFKStatus { afk: true, reason: "zzz".to_string(), time: ts(0, 0) });
    assert_eq!(
        text_of(&is_afk_reply_at(&p, "joe", &found, &ts(90061, 500_000_000)).unwrap()).1,
        "joe is afk (1d 1h 1m 1s ago): zzz."
    );
    let ahead = AfkLookup::Found(AFKStatus { afk: true, reason: "zzz".to_string(), time: ts(1, 500_000_000) });
    assert_eq!(
        text_of(&is_afk_reply_at(&p, "joe", &ahead, &ts(0, 0)).unwrap()).1,
        "joe is afk (0d 0h 0m -1s ago): zzz."
    );
    assert_eq!(text_of(&is_afk_reply_at(&p, "joe", &AfkLookup::NotFound, &ts(0, 0)).unwrap()).1, "joe is not afk.");
    assert!(is_afk_reply_at(&p, "joe", &found, &ts(i64::MAX, 0)).is_none());
}

#[test]
fn shapes_follow_plain_chat_lines_only() {
    let mut c = ChannelShapes::new();
    let line = |t: &str| Message::Private(pm("A", t));
    assert!(c.observe_message(&line("k k k")).is_none());
    assert!(c.observe_message(&Message::Ping).is_none());
    assert!(c.observe_message(&Message::Command(pm("A", "k"), cmd("k", &[]))).is_none());
    assert!(c.observe_message(&line("k")).is_none());
    assert!(c.observe_message(&line("k k")).is_none());
    assert!(c.observe_message(&line("k")).is_none());
    assert_eq!(c.observe_message(&line("k k k")).unwrap(), "k");
}
