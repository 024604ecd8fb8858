use freeq_server::irc::{escape_tag_value, parse_tags, unescape_tag_value, Message};

#[test]
fn parse_simple_command() {
    let msg = Message::parse("NICK alice").unwrap();
    assert_eq!(msg.command, "NICK");
    assert_eq!(msg.params, vec!["alice"]);
    assert!(msg.tags.is_empty());
}

#[test]
fn parse_with_prefix() {
    let msg = Message::parse(":server 001 alice :Welcome").unwrap();
    assert_eq!(msg.prefix.as_deref(), Some("server"));
    assert_eq!(msg.command, "001");
    assert_eq!(msg.params, vec!["alice", "Welcome"]);
}

#[test]
fn parse_privmsg() {
    let msg = Message::parse(":alice!~a@host PRIVMSG #chan :hello world").unwrap();
    assert_eq!(msg.command, "PRIVMSG");
    assert_eq!(msg.params, vec!["#chan", "hello world"]);
}

#[test]
fn parse_with_tags() {
    let msg = Message::parse("@content-type=image/jpeg;media-url=https://example.com/img.jpg :alice!a@host PRIVMSG #chan :photo").unwrap();
    assert_eq!(msg.tags.get("content-type").unwrap(), "image/jpeg");
    assert_eq!(msg.tags.get("media-url").unwrap(), "https://example.com/img.jpg");
    assert_eq!(msg.command, "PRIVMSG");
}

#[test]
fn roundtrip() {
    let msg = Message::from_server("irc.example", "001", vec!["alice", "Welcome to IRC"]);
    let s = msg.to_string();
    assert_eq!(s, ":irc.example 001 alice :Welcome to IRC");
}

#[test]
fn tag_escaping() {
    let original = "hello world;test";
    let escaped = escape_tag_value(original);
    assert_eq!(escaped, "hello\\sworld\\:test");
    assert_eq!(unescape_tag_value(&escaped), original);
}

#[test]
fn commands_are_read_in_upper_case() {
    assert_eq!(Message::parse("privmsg #a :x").unwrap().command, "PRIVMSG");
}

#[test]
fn nothing_is_read_from_an_empty_line() {
    assert!(Message::parse("").is_none());
    assert!(Message::parse("\r\n").is_none());
}

#[test]
fn every_escape_is_undone() {
    let s = "a;b c\\d\re\nf";
    assert_eq!(escape_tag_value(s), "a\\:b\\sc\\\\d\\re\\nf");
    assert_eq!(unescape_tag_value(&escape_tag_value(s)), s);
}

#[test]
fn tags_without_value_are_empty() {
    let t = parse_tags("+typing;a=b");
    assert_eq!(t.get("+typing").unwrap(), "");
    assert_eq!(t.get("a").unwrap(), "b");
    assert!(t.get("c").is_none());
}

#[test]
fn a_line_reads_back_as_written() {
    let msg = Message::new("PRIVMSG", vec!["#a", "hello there"]);
    let again = Message::parse(&msg.to_string()).unwrap();
    assert_eq!(again.command, "PRIVMSG");
    assert_eq!(again.params, vec!["#a", "hello there"]);
}
