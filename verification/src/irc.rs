//! The line-oriented chat protocol: outbound line framing (registration,
//! join, message) and inbound line handling (keep-alive answering and the
//! room-message grammar).
//!
//! A room-message line has the shape `:<sender>!<host> PRIVMSG <#room> :<text>`:
//! the sender is everything between the leading `:` and the first `!`, the
//! room starts at the marker `#` directly after the separator, and the text
//! is everything after the ` :` delimiter.  Anything else is not an event.

use vstd::prelude::*;

use crate::text::{
    contains_seq, find_from, first_match, lemma_first_match, lemma_first_match_is, matches_at,
    replace_all, replace_spec,
};

verus! {

/// A chat event parsed from one inbound line.
pub struct Message {
    pub channel: String,
    pub user: String,
    pub text: String,
}

/// Ghost image of a `Message`.
pub ghost struct MessageView {
    pub channel: Seq<char>,
    pub user: Seq<char>,
    pub text: Seq<char>,
}

impl View for Message {
    type V = MessageView;

    open spec fn view(&self) -> MessageView {
        MessageView { channel: self.channel@, user: self.user@, text: self.text@ }
    }
}

/// What a room-message line parses to, if anything: the sender runs from
/// after the leading `:` to the first `!`; the room runs from the marker
/// `#` ending the first ` PRIVMSG #` separator found after the sender, up
/// to the first ` :` delimiter after the marker; the text is the non-empty
/// remainder.
pub open spec fn parse_spec(line: Seq<char>) -> Option<MessageView> {
    if line.len() == 0 || line[0] != ':' {
        None
    } else {
        match first_match(line, "!"@, 1) {
            None => None,
            Some(b) => if b < 2 {
                None
            } else {
                match first_match(line, " PRIVMSG #"@, b + 2) {
                    None => None,
                    Some(m) => {
                        let hash = m + " PRIVMSG #"@.len() - 1;
                        match first_match(line, " :"@, hash + 2) {
                            None => None,
                            Some(c) => if c + 2 < line.len() {
                                Some(MessageView {
                                    channel: line.subrange(hash, c),
                                    user: line.subrange(1, b),
                                    text: line.subrange(c + 2, line.len() as int),
                                })
                            } else {
                                None
                            },
                        }
                    },
                }
            },
        }
    }
}

/// Parses one inbound line against the room-message grammar; lines that do
/// not fit yield nothing.
pub fn parse_privmsg(content: &str) -> (r: Option<Message>)
    ensures
        match r {
            Some(msg) => parse_spec(content@) == Some(msg@),
            None => parse_spec(content@) is None,
        },
{
    proof {
        reveal_strlit("!");
        reveal_strlit(" PRIVMSG #");
        reveal_strlit(" :");
    }
    let n = content.unicode_len();
    if n == 0 {
        return None;
    }
    if content.get_char(0) != ':' {
        return None;
    }
    let b = match find_from(content, "!", 1) {
        None => {
            return None;
        },
        Some(b) => b,
    };
    proof {
        lemma_first_match(content@, "!"@, 1);
    }
    if b < 2 {
        return None;
    }
    if b >= n - 1 {
        // nothing can follow the sender separator
        assert(first_match(content@, " PRIVMSG #"@, b + 2) is None);
        return None;
    }
    let m = match find_from(content, " PRIVMSG #", b + 2) {
        None => {
            return None;
        },
        Some(m) => m,
    };
    proof {
        lemma_first_match(content@, " PRIVMSG #"@, b + 2);
    }
    let hash = m + 9;
    if hash >= n - 1 {
        // no room for the text delimiter
        assert(first_match(content@, " :"@, hash + 2) is None);
        return None;
    }
    let c = match find_from(content, " :", hash + 2) {
        None => {
            return None;
        },
        Some(c) => c,
    };
    proof {
        lemma_first_match(content@, " :"@, hash + 2);
    }
    if c + 2 >= n {
        return None;
    }
    let user = String::from_str(content.substring_char(1, b));
    let channel = String::from_str(content.substring_char(hash, c));
    let text = String::from_str(content.substring_char(c + 2, n));
    Some(Message { channel, user, text })
}

/// The wire form of a room message from `user` (with host part `host`) to
/// `channel` carrying `text`.
pub open spec fn message_line(
    user: Seq<char>,
    host: Seq<char>,
    channel: Seq<char>,
    text: Seq<char>,
) -> Seq<char> {
    ":"@ + user + "!"@ + host + " PRIVMSG "@ + channel + " :"@ + text
}

/// Law (line grammar round trip): a room-message line built from any sender
/// without `!`, any host part without spaces, any room that starts with the
/// marker and does not itself contain the text delimiter, and any non-empty
/// text parses back to exactly that sender, room and text.
pub proof fn lemma_parse_round_trip(
    user: Seq<char>,
    host: Seq<char>,
    channel: Seq<char>,
    text: Seq<char>,
)
    requires
        user.len() >= 1,
        forall|i: int| 0 <= i < user.len() ==> user[i] != '!',
        host.len() >= 1,
        forall|i: int| 0 <= i < host.len() ==> host[i] != ' ',
        channel.len() >= 2,
        channel[0] == '#',
        forall|i: int| 0 <= i < channel.len() - 1 ==> !((#[trigger] channel[i]) == ' '
            && channel[i + 1] == ':'),
        text.len() >= 1,
    ensures
        parse_spec(message_line(user, host, channel, text)) == Some(
            MessageView { channel, user, text },
        ),
{
    reveal_strlit(":");
    reveal_strlit("!");
    reveal_strlit(" PRIVMSG ");
    reveal_strlit(" PRIVMSG #");
    reveal_strlit(" :");
    let u = user.len() as int;
    let h = host.len() as int;
    let c = channel.len() as int;
    let p1 = ":"@ + user;
    let p2 = p1 + "!"@;
    let p3 = p2 + host;
    let p4 = p3 + " PRIVMSG "@;
    let p5 = p4 + channel;
    let p6 = p5 + " :"@;
    let line = p6 + text;
    assert(line == message_line(user, host, channel, text));
    let ln = line.len() as int;
    assert(ln == 13 + u + h + c + text.len());
    // where each region of the line sits
    assert(forall|i: int| 0 <= i < p6.len() ==> line[i] == p6[i]);
    assert(forall|i: int| 0 <= i < p5.len() ==> p6[i] == p5[i]);
    assert(forall|i: int| 0 <= i < p4.len() ==> p5[i] == p4[i]);
    assert(forall|i: int| 0 <= i < p3.len() ==> p4[i] == p3[i]);
    assert(forall|i: int| 0 <= i < p2.len() ==> p3[i] == p2[i]);
    assert(forall|i: int| 0 <= i < p1.len() ==> p2[i] == p1[i]);
    assert(line[0] == ':');
    assert(forall|i: int| 1 <= i < 1 + u ==> line[i] == user[i - 1]);
    assert(line[1 + u] == '!');
    assert(forall|i: int| 2 + u <= i < 2 + u + h ==> line[i] == host[i - 2 - u]);
    assert(forall|i: int|
        2 + u + h <= i < 11 + u + h ==> line[i] == " PRIVMSG "@[i - 2 - u - h]);
    assert(forall|i: int| 11 + u + h <= i < 11 + u + h + c ==> line[i] == channel[i - 11 - u - h]);
    assert(line[11 + u + h + c] == ' ');
    assert(line[12 + u + h + c] == ':');
    assert(forall|i: int| 13 + u + h + c <= i < ln ==> line[i] == text[i - 13 - u - h - c]);
    // the first `!` ends the sender
    assert(matches_at(line, 1 + u, "!"@)) by {
        assert(line.subrange(1 + u, 2 + u) =~= "!"@);
    }
    assert forall|j: int| 1 <= j < 1 + u implies !matches_at(line, j, "!"@) by {
        if matches_at(line, j, "!"@) {
            assert(line.subrange(j, j + 1)[0] == line[j]);
        }
    }
    lemma_first_match_is(line, "!"@, 1, 1 + u);
    // the first separator follows the host part
    assert(matches_at(line, 2 + u + h, " PRIVMSG #"@)) by {
        assert forall|k: int| 0 <= k < 10 implies line.subrange(2 + u + h, 12 + u + h)[k]
            == " PRIVMSG #"@[k] by {
            assert(line.subrange(2 + u + h, 12 + u + h)[k] == line[2 + u + h + k]);
            if k < 9 {
                assert(line[2 + u + h + k] == " PRIVMSG "@[k]);
            } else {
                assert(line[11 + u + h] == channel[0]);
            }
        }
        assert(line.subrange(2 + u + h, 12 + u + h) =~= " PRIVMSG #"@);
    }
    assert forall|j: int| 3 + u <= j < 2 + u + h implies !matches_at(line, j, " PRIVMSG #"@) by {
        if matches_at(line, j, " PRIVMSG #"@) {
            assert(line.subrange(j, j + 10)[0] == line[j]);
            assert(line[j] == host[j - 2 - u]);
        }
    }
    lemma_first_match_is(line, " PRIVMSG #"@, 3 + u, 2 + u + h);
    // the first text delimiter after the marker ends the room
    assert(matches_at(line, 11 + u + h + c, " :"@)) by {
        assert(line.subrange(11 + u + h + c, 13 + u + h + c)[0] == line[11 + u + h + c]);
        assert(line.subrange(11 + u + h + c, 13 + u + h + c)[1] == line[12 + u + h + c]);
        assert(line.subrange(11 + u + h + c, 13 + u + h + c) =~= " :"@);
    }
    assert forall|j: int| 13 + u + h <= j < 11 + u + h + c implies !matches_at(line, j, " :"@) by {
        if matches_at(line, j, " :"@) {
            assert(line.subrange(j, j + 2)[0] == line[j]);
            assert(line.subrange(j, j + 2)[1] == line[j + 1]);
            let k = j - 11 - u - h;
            assert(line[j] == channel[k]);
            if j + 1 < 11 + u + h + c {
                assert(line[j + 1] == channel[k + 1]);
                assert(!(channel[k] == ' ' && channel[k + 1] == ':'));
            } else {
                assert(line[j + 1] == ' ');
            }
        }
    }
    lemma_first_match_is(line, " :"@, 13 + u + h, 11 + u + h + c);
    // the parsed fields are exactly what went in
    assert(line.subrange(1, 1 + u) =~= user);
    assert(line.subrange(11 + u + h, 11 + u + h + c) =~= channel);
    assert(line.subrange(13 + u + h + c, ln) =~= text);
}

/// Law (line grammar, negative side): a line that does not open with the
/// prefix marker, or that never terminates its sender with `!`, yields no
/// event.
pub proof fn lemma_parse_requires_prefix(line: Seq<char>)
    ensures
        line.len() == 0 || line[0] != ':' ==> parse_spec(line) is None,
        (forall|i: int| 1 <= i < line.len() ==> line[i] != '!') ==> parse_spec(line) is None,
{
    reveal_strlit("!");
    if line.len() > 0 && line[0] == ':' && (forall|i: int|
        1 <= i < line.len() ==> line[i] != '!') {
        lemma_first_match(line, "!"@, 1);
        if first_match(line, "!"@, 1) is Some {
            let b = first_match(line, "!"@, 1)->Some_0;
            assert(matches_at(line, b, "!"@));
            assert(line.subrange(b, b + 1)[0] == line[b]);
            assert(line[b] == '!');
        }
    }
}

/// The keep-alive probe token.
pub open spec fn probe_token() -> Seq<char> {
    "PING"@
}

/// The keep-alive reply token.
pub open spec fn reply_token() -> Seq<char> {
    "PONG"@
}

/// What pulling one inbound line does.
pub enum LineAction {
    /// Answer the keep-alive probe with this line; no event is surfaced.
    KeepAlive(String),
    /// Surface a parsed room message.
    Event(Message),
    /// Silently discard the line.
    Discard,
}

/// Classifies one inbound line.  A line containing the probe token is
/// answered in place by substituting the reply token for every occurrence
/// and never surfaces an event; any other line either parses to exactly
/// one event or is discarded.
pub fn classify_line(line: &str) -> (r: LineAction)
    ensures
        contains_seq(line@, probe_token()) ==> (r matches LineAction::KeepAlive(reply)
            && reply@ == replace_spec(line@, probe_token(), reply_token())),
        !contains_seq(line@, probe_token()) && parse_spec(line@) is Some ==> (r matches
            LineAction::Event(msg) && Some(msg@) == parse_spec(line@)),
        !contains_seq(line@, probe_token()) && parse_spec(line@) is None ==> r is Discard,
{
    proof {
        lemma_first_match(line@, "PING"@, 0);
    }
    match find_from(line, "PING", 0) {
        Some(_) => LineAction::KeepAlive(replace_all(line, "PING", "PONG")),
        None => {
            assert(!contains_seq(line@, probe_token()));
            match parse_privmsg(line) {
                Some(msg) => LineAction::Event(msg),
                None => LineAction::Discard,
            }
        },
    }
}

/// The framed line registering the user half of the handshake.
pub open spec fn user_line_spec(nickname: Seq<char>) -> Seq<char> {
    "USER "@ + nickname + " 0 * :zweihander-bot\n"@
}

/// The framed line registering the nickname half of the handshake.
pub open spec fn nick_line_spec(nickname: Seq<char>) -> Seq<char> {
    "NICK "@ + nickname + "\n"@
}

/// The framed line joining a room.
pub open spec fn join_line_spec(channel: Seq<char>) -> Seq<char> {
    "JOIN "@ + channel + "\n"@
}

/// The framed line posting a message to a room.
pub open spec fn privmsg_line_spec(channel: Seq<char>, message: Seq<char>) -> Seq<char> {
    "PRIVMSG "@ + channel + " :"@ + message + "\n"@
}

/// Builds the first registration line of the connection handshake.
pub fn user_line(nickname: &str) -> (r: String)
    ensures
        r@ == user_line_spec(nickname@),
{
    let mut s = String::from_str("USER ");
    s.append(nickname);
    s.append(" 0 * :zweihander-bot\n");
    s
}

/// Builds the second registration line of the connection handshake.
pub fn nick_line(nickname: &str) -> (r: String)
    ensures
        r@ == nick_line_spec(nickname@),
{
    let mut s = String::from_str("NICK ");
    s.append(nickname);
    s.append("\n");
    s
}

/// Builds the framed line that joins one room.
pub fn join_line(channel: &str) -> (r: String)
    ensures
        r@ == join_line_spec(channel@),
{
    let mut s = String::from_str("JOIN ");
    s.append(channel);
    s.append("\n");
    s
}

/// Builds the framed lines that join each room in turn, in order.
pub fn join_lines(channels: &Vec<String>) -> (r: Vec<String>)
    ensures
        r@.len() == channels@.len(),
        forall|i: int| 0 <= i < channels@.len() ==> r@[i]@ == join_line_spec(channels@[i]@),
{
    let mut out: Vec<String> = Vec::new();
    let mut i: usize = 0;
    while i < channels.len()
        invariant
            i <= channels@.len(),
            out@.len() == i,
            forall|k: int| 0 <= k < i ==> out@[k]@ == join_line_spec(channels@[k]@),
        decreases channels@.len() - i,
    {
        out.push(join_line(channels[i].as_str()));
        i += 1;
    }
    out
}

/// Builds the framed line that posts one message to one room.
pub fn privmsg_line(channel: &str, message: &str) -> (r: String)
    ensures
        r@ == privmsg_line_spec(channel@, message@),
{
    let mut s = String::from_str("PRIVMSG ");
    s.append(channel);
    s.append(" :");
    s.append(message);
    s.append("\n");
    s
}

} // verus!
