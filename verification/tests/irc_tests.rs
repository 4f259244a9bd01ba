use echobot::irc::{
    classify_line, join_line, join_lines, nick_line, parse_privmsg, privmsg_line, user_line,
    LineAction,
};

#[test]
fn parse_round_trip_basic() {
    let m = parse_privmsg(":alice!u@h PRIVMSG #general :hello").unwrap();
    assert_eq!(m.user, "alice");
    assert_eq!(m.channel, "#general");
    assert_eq!(m.text, "hello");
}

#[test]
fn parse_sender_may_contain_spaces() {
    let m = parse_privmsg(":a b!x PRIVMSG #c :t").unwrap();
    assert_eq!(m.user, "a b");
    assert_eq!(m.channel, "#c");
    assert_eq!(m.text, "t");
}

#[test]
fn parse_text_keeps_later_delimiters() {
    let m = parse_privmsg(":bob!u@h PRIVMSG #room :one :two :three").unwrap();
    assert_eq!(m.channel, "#room");
    assert_eq!(m.text, "one :two :three");
}

#[test]
fn parse_rejects_missing_prefix() {
    assert!(parse_privmsg("alice!u@h PRIVMSG #general :hello").is_none());
}

#[test]
fn parse_rejects_missing_bang() {
    assert!(parse_privmsg(":alice PRIVMSG #general :hello").is_none());
}

#[test]
fn parse_rejects_empty_sender() {
    assert!(parse_privmsg(":!u@h PRIVMSG #general :hello").is_none());
}

#[test]
fn parse_rejects_missing_room_marker() {
    assert!(parse_privmsg(":alice!u@h PRIVMSG general :hello").is_none());
}

#[test]
fn parse_rejects_missing_text_delimiter() {
    assert!(parse_privmsg(":alice!u@h PRIVMSG #general hello").is_none());
}

#[test]
fn parse_rejects_empty_text() {
    assert!(parse_privmsg(":alice!u@h PRIVMSG #general :").is_none());
}

#[test]
fn parse_rejects_other_commands() {
    assert!(parse_privmsg(":alice!u@h NOTICE #general :hello").is_none());
}

#[test]
fn keepalive_probe_is_answered_in_place() {
    match classify_line("PING :irc.example.net") {
        LineAction::KeepAlive(reply) => assert_eq!(reply, "PONG :irc.example.net"),
        _ => panic!("probe line must be answered, not surfaced"),
    }
}

#[test]
fn keepalive_replaces_every_occurrence() {
    match classify_line("PING PING") {
        LineAction::KeepAlive(reply) => assert_eq!(reply, "PONG PONG"),
        _ => panic!("probe line must be answered, not surfaced"),
    }
}

#[test]
fn keepalive_never_surfaces_an_event() {
    // even a well-formed room message is answered, not surfaced, when it
    // carries the probe token
    match classify_line(":a!u@h PRIVMSG #c :PING") {
        LineAction::KeepAlive(reply) => assert_eq!(reply, ":a!u@h PRIVMSG #c :PONG"),
        _ => panic!("a line containing the probe token never produces an event"),
    }
}

#[test]
fn classify_surfaces_room_messages() {
    match classify_line(":alice!u@h PRIVMSG #general :hello") {
        LineAction::Event(m) => {
            assert_eq!(m.user, "alice");
            assert_eq!(m.channel, "#general");
            assert_eq!(m.text, "hello");
        },
        _ => panic!("a grammatical line must surface an event"),
    }
}

#[test]
fn classify_discards_noise() {
    assert!(matches!(classify_line("001 welcome"), LineAction::Discard));
    assert!(matches!(classify_line(""), LineAction::Discard));
}

#[test]
fn handshake_lines_are_framed() {
    assert_eq!(user_line("zwei"), "USER zwei 0 * :zweihander-bot\n");
    assert_eq!(nick_line("zwei"), "NICK zwei\n");
}

#[test]
fn join_line_is_framed() {
    assert_eq!(join_line("#general"), "JOIN #general\n");
}

#[test]
fn join_lines_keep_order() {
    let rooms = vec![String::from("#a"), String::from("#b")];
    let lines = join_lines(&rooms);
    assert_eq!(lines, vec![String::from("JOIN #a\n"), String::from("JOIN #b\n")]);
}

#[test]
fn privmsg_line_is_framed() {
    assert_eq!(privmsg_line("#general", "hi!"), "PRIVMSG #general :hi!\n");
}
