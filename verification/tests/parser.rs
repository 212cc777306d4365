use lordbornebot::message::{privmsg, whisper, Message, TagMap};
use lordbornebot::parser::{upkeep, Parser, Upkeep};

const LINE: &str = "@badge-info=;display-name=Foo;user-id=123 :foo!foo@foo.tmi.twitch.tv PRIVMSG #chan :hello world";

fn private_parts(m: &Message) -> (String, String, String) {
    match m {
        Message::Private(p) => (p.channel.clone(), p.sender.clone(), p.text.clone()),
        _ => panic!("not a private message"),
    }
}

#[test]
fn decode_private_message() {
    let parser = Parser::new(">>");
    assert!(parser.can_decode(LINE));
    let m = parser.decode(LINE).ok().unwrap();
    let (channel, sender, text) = private_parts(&m);
    assert_eq!(channel, "chan");
    assert_eq!(sender, "foo!foo@foo.tmi.twitch.tv");
    assert_eq!(text, "hello world");
    if let Message::Private(p) = &m {
        assert_eq!(p.tags.get("user-id").unwrap(), "123");
        assert_eq!(p.tags.get("display-name").unwrap(), "Foo");
        assert_eq!(p.tags.get("badge-info").unwrap(), "");
        assert!(p.tags.get("color").is_none());
    }
}

#[test]
fn decode_command() {
    let parser = Parser::new(">>");
    let line = "@user-id=1;display-name=A :a!a@a PRIVMSG #c :>>gamble 50  all";
    let m = parser.decode(line).ok().unwrap();
    match m {
        Message::Command(p, c) => {
            assert_eq!(p.text, "gamble 50  all");
            assert_eq!(c.name, "gamble");
            assert_eq!(c.raw_args, " 50  all");
            assert_eq!(c.args, vec!["50".to_string(), "".to_string(), "all".to_string()]);
            assert_eq!(p.channel, "c");
        }
        _ => panic!("expected a command"),
    }
}

#[test]
fn decode_command_without_arguments_and_repeated_prefix() {
    let parser = Parser::new(">>");
    let m = parser.decode("@a=1 :a PRIVMSG ##c :>>>>points").ok().unwrap();
    match m {
        Message::Command(p, c) => {
            assert_eq!(p.channel, "c");
            assert_eq!(p.text, "points");
            assert_eq!(c.name, "points");
            assert_eq!(c.raw_args, "");
            assert!(c.args.is_empty());
        }
        _ => panic!("expected a command"),
    }
}

#[test]
fn decode_command_without_name() {
    let parser = Parser::new(">>");
    let r = parser.decode("@a=1 :a PRIVMSG #c :>> gamble");
    assert_eq!(r.err().unwrap(), "No command name provided");
}

#[test]
fn decode_ping_unknown_and_garbage() {
    let parser = Parser::new("!");
    assert!(matches!(parser.decode("PING :tmi.twitch.tv"), Ok(Message::Ping)));
    assert!(matches!(parser.decode("@a=b :tmi.twitch.tv JOIN #chan"), Ok(Message::Unknown)));
    assert_eq!(parser.decode("hello").err().unwrap(), "Cannot decode this message");
    assert_eq!(parser.decode("@a=b :x PRIVMSG #c :t  \nmore").err().unwrap(), "Cannot decode this message");
    assert_eq!(parser.decode("@a=b :x PRIVMSG #c ").err().unwrap(), "Cannot decode this message");
}

#[test]
fn decode_keeps_carriage_return_in_text() {
    let parser = Parser::new("!");
    let m = parser.decode("@a=b :x PRIVMSG #c :hi\r\n").ok().unwrap();
    assert_eq!(private_parts(&m).2, "hi\r");
}

#[test]
fn decode_refuses_what_would_fail() {
    let parser = Parser::new("!");
    // a tag without '='
    assert!(!parser.can_decode("@a :x PRIVMSG #c :t"));
    // no text
    assert!(!parser.can_decode("@a=b :x PRIVMSG #c"));
    // no channel
    assert!(!parser.can_decode("@a=b :x PRIVMSG :t"));
    // other lines are fine
    assert!(parser.can_decode("@a :x JOIN #c"));
    assert!(parser.can_decode("nonsense"));
}

#[test]
fn tag_value_is_between_first_and_second_equals() {
    let parser = Parser::new("!");
    let m = parser.decode("@k=v=w;k2=x;k=last :x PRIVMSG #c :t").ok().unwrap();
    if let Message::Private(p) = m {
        assert_eq!(p.tags.get("k").unwrap(), "last");
        assert_eq!(p.tags.get("k2").unwrap(), "x");
    } else {
        panic!("expected a chat message");
    }
    let m = parser.decode("@k=v=w :x PRIVMSG #c :t").ok().unwrap();
    if let Message::Private(p) = m {
        assert_eq!(p.tags.get("k").unwrap(), "v");
    }
}

#[test]
fn encode_messages() {
    let m = privmsg("chan", "hi there".to_string());
    assert_eq!(Parser::encode(&m).unwrap(), "PRIVMSG #chan :hi there");
    assert_eq!(Parser::encode_response(&m).unwrap(), "PRIVMSG #chan :hi there");
    let w = whisper("bob", "psst");
    assert_eq!(Parser::encode(&w).unwrap(), "PRIVMSG #jtv :/w bob psst");
    assert_eq!(Parser::encode(&Message::Ping).err().unwrap(), "Cannot encode this message");
    assert_eq!(Parser::encode(&Message::Unknown).err().unwrap(), "Cannot encode this message");
}

#[test]
fn tag_map_later_insert_wins() {
    let mut m = TagMap::new();
    assert!(!m.contains_key("a"));
    m.insert("a".to_string(), "1".to_string());
    m.insert("b".to_string(), "2".to_string());
    m.insert("a".to_string(), "3".to_string());
    assert_eq!(m.get("a").unwrap(), "3");
    assert_eq!(m.get("b").unwrap(), "2");
    assert!(m.contains_key("b"));
}

#[test]
fn decode_takes_every_middle_parameter_as_channel() {
    let parser = Parser::new("!");
    let m = parser.decode("@a=b :x PRIVMSG #c:d extra  :t x").ok().unwrap();
    let (channel, _, text) = private_parts(&m);
    assert_eq!(channel, "c:d extra");
    assert_eq!(text, "t x");
}

#[test]
fn command_text_is_name_then_raw_arguments() {
    let parser = Parser::new("!");
    let m = parser.decode("@a=b :x PRIVMSG #c :!say  hello world").ok().unwrap();
    match m {
        Message::Command(p, c) => {
            assert_eq!(p.text, format!("{}{}", c.name, c.raw_args));
            let spaced: String = c.args.iter().map(|a| format!(" {}", a)).collect();
            assert_eq!(c.raw_args, spaced);
        }
        _ => panic!("expected a command"),
    }
}

#[test]
fn empty_prefix_makes_every_line_a_command() {
    let parser = Parser::new("");
    match parser.decode("@a=b :x PRIVMSG #c :hello there").ok().unwrap() {
        Message::Command(p, c) => {
            assert_eq!(p.text, "hello there");
            assert_eq!(c.name, "hello");
        }
        _ => panic!("expected a command"),
    }
}

#[test]
fn decoding_gives_back_an_encoded_message() {
    let parser = Parser::new(">>");
    let sent = privmsg("chan", "a: b\r".to_string());
    let line = format!("@k=v;x=y :bot {}", Parser::encode(&sent).unwrap());
    assert!(parser.can_decode(&line));
    match parser.decode(&line).ok().unwrap() {
        Message::Private(p) => {
            assert_eq!(p.channel, "chan");
            assert_eq!(p.text, "a: b\r");
            assert_eq!(p.sender, "bot");
            assert_eq!(p.tags.get("k").unwrap(), "v");
            assert_eq!(p.tags.get("x").unwrap(), "y");
        }
        _ => panic!("expected a chat message"),
    }
}

#[test]
fn upkeep_registers_senders_and_answers_pings() {
    let parser = Parser::new(">>");
    match upkeep(&parser.decode(LINE).ok().unwrap()) {
        Upkeep::RegisterSender(id, name) => {
            assert_eq!(id, "123");
            assert_eq!(name, "Foo");
        }
        _ => panic!("expected a registration"),
    }
    match upkeep(&parser.decode("PING :tmi.twitch.tv").ok().unwrap()) {
        Upkeep::Send(line) => assert_eq!(line, "PONG :tmi.twitch.tv"),
        _ => panic!("expected a pong"),
    }
    assert!(matches!(upkeep(&Message::Unknown), Upkeep::Nothing));
}
