// Decoding compared, line by line, with the regular expression that describes
// the grammar of tagged Twitch IRC lines.

use lordbornebot::message::Message;
use lordbornebot::parser::Parser;
use rand::rngs::StdRng;
use rand::{Rng, SeedableRng};
use regex::Regex;
use std::collections::HashMap;

const PATTERN: &str = "^(?:@([^ ]*) +)(?::([^ ]+) +)([^ ]+)(?: +([^: ]+[^ ]*(?: +[^: ]+[^ ]*)*))?(?: +:(.*))?[\r\n]*$";

#[derive(Debug, PartialEq)]
enum Expected {
    Ping,
    Unknown,
    Private(Vec<(String, String)>, String, String, String),
    Command(Vec<(String, String)>, String, String, String, String, String, Vec<String>),
    Error(String),
    Fails,
}

fn sorted(map: HashMap<String, String>) -> Vec<(String, String)> {
    let mut v: Vec<(String, String)> = map.into_iter().collect();
    v.sort();
    v
}

fn expected(re: &Regex, prefix: &str, line: &str) -> Expected {
    if line == "PING :tmi.twitch.tv" {
        return Expected::Ping;
    }
    let captures = match re.captures(line) {
        Some(c) => c,
        None => return Expected::Error("Cannot decode this message".to_string()),
    };
    if captures.get(3).unwrap().as_str() != "PRIVMSG" {
        return Expected::Unknown;
    }
    let text = match captures.get(5) {
        Some(t) => t.as_str(),
        None => return Expected::Fails,
    };
    let mut tags = HashMap::new();
    for tag_pair in captures.get(1).unwrap().as_str().split(';') {
        let tag_tokens: Vec<&str> = tag_pair.split('=').collect();
        if tag_tokens.len() < 2 {
            return Expected::Fails;
        }
        tags.insert(tag_tokens[0].to_string(), tag_tokens[1].to_string());
    }
    let sender = captures.get(2).unwrap().as_str().to_string();
    let channel = match captures.get(4) {
        Some(c) => c.as_str().trim_start_matches('#').to_string(),
        None => return Expected::Fails,
    };
    if text.starts_with(prefix) {
        let text = text.trim_start_matches(prefix);
        let tokens: Vec<&str> = text.split(' ').collect();
        if !tokens[0].is_empty() {
            let name = tokens[0].to_string();
            let mut raw_args = String::new();
            let mut args = Vec::new();
            if tokens.len() > 1 {
                raw_args = text[text.find(' ').unwrap()..].to_string();
                args = tokens[1..].iter().map(|s| s.to_string()).collect();
            }
            return Expected::Command(sorted(tags), channel, sender, text.to_string(), name, raw_args, args);
        }
        return Expected::Error("No command name provided".to_string());
    }
    Expected::Private(sorted(tags), channel, sender, text.to_string())
}

fn tags_of(tags: &lordbornebot::message::TagMap, keys: &[String]) -> Vec<(String, String)> {
    let mut v: Vec<(String, String)> = Vec::new();
    for k in keys {
        if let Some(val) = tags.get(k) {
            if !v.iter().any(|(kk, _)| kk == k) {
                v.push((k.clone(), val.clone()));
            }
        }
    }
    v.sort();
    v
}

fn actual(parser: &Parser, line: &str, keys: &[String]) -> Expected {
    if !parser.can_decode(line) {
        return Expected::Fails;
    }
    match parser.decode(line) {
        Ok(Message::Ping) => Expected::Ping,
        Ok(Message::Unknown) => Expected::Unknown,
        Ok(Message::Private(p)) => Expected::Private(tags_of(&p.tags, keys), p.channel, p.sender, p.text),
        Ok(Message::Command(p, c)) => {
            Expected::Command(tags_of(&p.tags, keys), p.channel, p.sender, p.text, c.name, c.raw_args, c.args)
        }
        Err(e) => Expected::Error(e.to_string()),
    }
}

/// Every tag key that occurs in the line, so that the whole tag map is compared.
fn candidate_keys(line: &str) -> Vec<String> {
    let mut keys: Vec<String> = Vec::new();
    if let Some(first) = line.split(' ').next() {
        for pair in first.trim_start_matches('@').split(';') {
            keys.push(pair.split('=').next().unwrap_or("").to_string());
        }
        keys.push(first.to_string());
    }
    keys
}

fn pick<'a>(rng: &mut StdRng, xs: &[&'a str]) -> &'a str {
    xs[rng.gen_range(0..xs.len())]
}

fn random_line(rng: &mut StdRng) -> String {
    let pieces = [
        " ", "  ", ":", "a", "b=c", ";", "=", "#", "#chan", "!", "!!", "PRIVMSG", "JOIN", "\r", "\n", "é", "x:y",
        ":t", "!cmd", " :", "@",
    ];
    let tags = ["a=b", "k=v;x=y", "", "a", "a=b=c", "é=1;é=2", "user-id=1;display-name=Z", "a=;=b", "a=b;"];
    let channels = ["#chan", "##c", "c:d", "#a b", "#a  :b", "x", "#c extra", ":x"];
    let texts = [
        "hello", "!cmd a  b", "!!x", "! y", "", "\r\n", "hi\r", "a\nb", "!", "!!!!go on", " lead", "!a:b c", "é !x",
    ];
    let mut line = String::new();
    if rng.gen_range(0..10) < 9 {
        line.push('@');
        line.push_str(pick(rng, &tags));
        if rng.gen_bool(0.1) {
            line.push_str(pick(rng, &pieces));
        }
        line.push_str(if rng.gen_bool(0.9) { " :" } else { pick(rng, &[" ", "  :", ":"]) });
        line.push_str(if rng.gen_bool(0.9) { "nick!n@host" } else { pick(rng, &pieces) });
        line.push_str(pick(rng, &[" ", " ", "  ", ""]));
        line.push_str(if rng.gen_bool(0.85) { "PRIVMSG" } else { pick(rng, &pieces) });
        if rng.gen_bool(0.9) {
            line.push_str(pick(rng, &[" ", " ", "  "]));
            line.push_str(pick(rng, &channels));
        }
        if rng.gen_bool(0.85) {
            line.push_str(pick(rng, &[" :", " :", "  :", ":"]));
            line.push_str(pick(rng, &texts));
        }
    }
    for _ in 0..rng.gen_range(0..3) {
        line.push_str(pick(rng, &pieces));
    }
    line
}

#[test]
fn decoding_agrees_with_the_regular_expression() {
    let re = Regex::new(PATTERN).unwrap();
    let mut rng = StdRng::seed_from_u64(20180101);
    for prefix in ["!", "!!", ""] {
        let parser = Parser::new(prefix);
        for _ in 0..6000 {
            let line = random_line(&mut rng);
            let keys = candidate_keys(&line);
            let want = expected(&re, prefix, &line);
            let got = actual(&parser, &line, &keys);
            let want = match want {
                Expected::Private(t, a, b, c) => Expected::Private(
                    t.into_iter().filter(|(k, _)| keys.contains(k)).collect(),
                    a,
                    b,
                    c,
                ),
                Expected::Command(t, a, b, c, d, e, f) => Expected::Command(
                    t.into_iter().filter(|(k, _)| keys.contains(k)).collect(),
                    a,
                    b,
                    c,
                    d,
                    e,
                    f,
                ),
                other => other,
            };
            assert_eq!(got, want, "prefix {:?}, line {:?}", prefix, line);
        }
    }
}
