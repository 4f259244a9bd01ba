//! The cross-protocol relay: room filtering, relay-line formatting, the
//! per-direction forwarding order, and the FIFO handoff queue between the
//! two directions.
//!
//! Each direction is a loop the I/O shell runs: pull the next inbound
//! event, translate it where the protocol needs it, filter it against the
//! one bridged room, and hand matches to the opposite direction's poster.
//! Everything that loop decides is here; the shell only moves bytes.

use vstd::prelude::*;

use crate::irc;
use crate::slack;
use crate::slack::{request_uri_spec, SlackRequest};
use crate::text::str_eq;

verus! {

/// The unit handed from one direction's inbound filter to the opposite
/// direction's outbound poster: the sender's display name and the text.
pub struct BridgeMessage {
    pub sender: String,
    pub text: String,
}

/// Ghost image of a `BridgeMessage`.
pub ghost struct BridgeMessageView {
    pub sender: Seq<char>,
    pub text: Seq<char>,
}

impl View for BridgeMessage {
    type V = BridgeMessageView;

    open spec fn view(&self) -> BridgeMessageView {
        BridgeMessageView { sender: self.sender@, text: self.text@ }
    }
}

/// The text posted on the far side for a relayed message: the sender's
/// name in angle brackets, then the text.
pub open spec fn relay_text_spec(sender: Seq<char>, text: Seq<char>) -> Seq<char> {
    "<"@ + sender + "> "@ + text
}

/// Formats a relayed message for the outbound post: `<sender> text`.
pub fn format_relay(sender: &str, text: &str) -> (r: String)
    ensures
        r@ == relay_text_spec(sender@, text@),
{
    let mut s = String::from_str("<");
    s.append(sender);
    s.append("> ");
    s.append(text);
    s
}

/// Room filter for the line-protocol direction: an event crosses the
/// bridge exactly when its room equals the bridged room, character for
/// character.
pub fn irc_inbound(m: &irc::Message, bridged_channel: &str) -> (r: Option<BridgeMessage>)
    ensures
        m.channel@ == bridged_channel@ ==> (r matches Some(b) && b.sender@ == m.user@ && b.text@
            == m.text@),
        m.channel@ != bridged_channel@ ==> r is None,
{
    if str_eq(m.channel.as_str(), bridged_channel) {
        Some(BridgeMessage { sender: m.user.clone(), text: m.text.clone() })
    } else {
        None
    }
}

/// Room filter for the realtime direction: a translated event crosses the
/// bridge exactly when its resolved room name equals the bridged room,
/// character for character.
pub fn slack_inbound(m: &slack::Message, bridged_room: &str) -> (r: Option<BridgeMessage>)
    ensures
        m.channel.name@ == bridged_room@ ==> (r matches Some(b) && b.sender@ == m.user.name@
            && b.text@ == m.text@),
        m.channel.name@ != bridged_room@ ==> r is None,
{
    if str_eq(m.channel.name.as_str(), bridged_room) {
        Some(BridgeMessage { sender: m.user.name.clone(), text: m.text.clone() })
    } else {
        None
    }
}

/// The messages a run of line-protocol events forwards: exactly those in
/// the bridged room, in arrival order.
pub open spec fn irc_forwarded(events: Seq<irc::Message>, room: Seq<char>) -> Seq<
    BridgeMessageView,
>
    decreases events.len(),
{
    if events.len() == 0 {
        Seq::empty()
    } else {
        let rest = irc_forwarded(events.drop_last(), room);
        if events.last().channel@ == room {
            rest.push(
                BridgeMessageView { sender: events.last().user@, text: events.last().text@ },
            )
        } else {
            rest
        }
    }
}

/// The messages a run of translated realtime events forwards: exactly
/// those in the bridged room, in arrival order.
pub open spec fn slack_forwarded(events: Seq<slack::Message>, room: Seq<char>) -> Seq<
    BridgeMessageView,
>
    decreases events.len(),
{
    if events.len() == 0 {
        Seq::empty()
    } else {
        let rest = slack_forwarded(events.drop_last(), room);
        if events.last().channel.name@ == room {
            rest.push(
                BridgeMessageView {
                    sender: events.last().user.name@,
                    text: events.last().text@,
                },
            )
        } else {
            rest
        }
    }
}

/// Law (room filter exactness): running the line-protocol filter over a
/// run of events forwards exactly the events in the bridged room, in
/// arrival order.
pub fn relay_irc_events(events: &Vec<irc::Message>, bridged_channel: &str) -> (out: Vec<
    BridgeMessage,
>)
    ensures
        out@.map_values(|b: BridgeMessage| b@) == irc_forwarded(events@, bridged_channel@),
{
    let mut out: Vec<BridgeMessage> = Vec::new();
    proof {
        assert(out@.map_values(|b: BridgeMessage| b@) =~= irc_forwarded(
            events@.take(0),
            bridged_channel@,
        ));
    }
    let mut i: usize = 0;
    while i < events.len()
        invariant
            i <= events@.len(),
            out@.map_values(|b: BridgeMessage| b@) == irc_forwarded(
                events@.take(i as int),
                bridged_channel@,
            ),
        decreases events@.len() - i,
    {
        let ghost prev = out@;
        proof {
            assert(events@.take(i as int + 1).drop_last() =~= events@.take(i as int));
            assert(events@.take(i as int + 1).last() == events@[i as int]);
        }
        match irc_inbound(&events[i], bridged_channel) {
            Some(b) => {
                out.push(b);
                proof {
                    assert(out@.map_values(|b: BridgeMessage| b@) =~= prev.map_values(
                        |b: BridgeMessage| b@,
                    ).push(out@.last()@));
                }
            },
            None => {},
        }
        i += 1;
    }
    proof {
        assert(events@.take(events@.len() as int) =~= events@);
    }
    out
}

/// Law (room filter exactness): running the realtime filter over a run of
/// translated events forwards exactly the events in the bridged room, in
/// arrival order.
pub fn relay_slack_events(events: &Vec<slack::Message>, bridged_room: &str) -> (out: Vec<
    BridgeMessage,
>)
    ensures
        out@.map_values(|b: BridgeMessage| b@) == slack_forwarded(events@, bridged_room@),
{
    let mut out: Vec<BridgeMessage> = Vec::new();
    proof {
        assert(out@.map_values(|b: BridgeMessage| b@) =~= slack_forwarded(
            events@.take(0),
            bridged_room@,
        ));
    }
    let mut i: usize = 0;
    while i < events.len()
        invariant
            i <= events@.len(),
            out@.map_values(|b: BridgeMessage| b@) == slack_forwarded(
                events@.take(i as int),
                bridged_room@,
            ),
        decreases events@.len() - i,
    {
        let ghost prev = out@;
        proof {
            assert(events@.take(i as int + 1).drop_last() =~= events@.take(i as int));
            assert(events@.take(i as int + 1).last() == events@[i as int]);
        }
        match slack_inbound(&events[i], bridged_room) {
            Some(b) => {
                out.push(b);
                proof {
                    assert(out@.map_values(|b: BridgeMessage| b@) =~= prev.map_values(
                        |b: BridgeMessage| b@,
                    ).push(out@.last()@));
                }
            },
            None => {},
        }
        i += 1;
    }
    proof {
        assert(events@.take(events@.len() as int) =~= events@);
    }
    out
}

/// The framed line that posts one relayed message into the bridged room
/// on the line-protocol side.
pub fn irc_outbound_line(bridged_channel: &str, m: &BridgeMessage) -> (r: String)
    ensures
        r@ == irc::privmsg_line_spec(bridged_channel@, relay_text_spec(m.sender@, m.text@)),
{
    let t = format_relay(m.sender.as_str(), m.text.as_str());
    irc::privmsg_line(bridged_channel, t.as_str())
}

/// The URI of the REST call that posts one relayed message into the
/// bridged room on the realtime side.
pub fn slack_outbound_uri(request: &SlackRequest, bridged_room: &str, m: &BridgeMessage) -> (r:
    String)
    ensures
        r@ == request_uri_spec(
            "chat.postMessage"@,
            seq![
                ("token"@, request.token@),
                ("channel"@, bridged_room@),
                ("text"@, relay_text_spec(m.sender@, m.text@)),
            ],
        ),
{
    let t = format_relay(m.sender.as_str(), m.text.as_str());
    request.chat_post_message(bridged_room, t.as_str())
}

/// The unbounded FIFO handoff carrying messages from one direction's
/// inbound filter to the opposite direction's outbound poster.  Each
/// direction owns one; neither ever touches the other's.
pub struct MessageQueue {
    items: Vec<BridgeMessage>,
}

impl View for MessageQueue {
    type V = Seq<BridgeMessage>;

    /// The queued messages, oldest first.
    closed spec fn view(&self) -> Seq<BridgeMessage> {
        self.items@
    }
}

impl MessageQueue {
    /// An empty queue.
    pub fn new() -> (q: MessageQueue)
        ensures
            q@ == Seq::<BridgeMessage>::empty(),
    {
        MessageQueue { items: Vec::new() }
    }

    /// How many messages are waiting.
    pub fn len(&self) -> (n: usize)
        ensures
            n == self@.len(),
    {
        self.items.len()
    }

    /// Appends a message at the back.
    pub fn send(&mut self, m: BridgeMessage)
        ensures
            final(self)@ == old(self)@.push(m),
    {
        self.items.push(m);
    }

    /// Takes the oldest message, if any.
    pub fn recv(&mut self) -> (r: Option<BridgeMessage>)
        ensures
            old(self)@.len() == 0 ==> r is None && final(self)@ == old(self)@,
            old(self)@.len() > 0 ==> (r matches Some(m) && m == old(self)@[0] && final(self)@
                == old(self)@.subrange(1, old(self)@.len() as int)),
    {
        if self.items.len() == 0 {
            None
        } else {
            let m = self.items.remove(0);
            proof {
                assert(self.items@ =~= old(self).items@.subrange(1, old(self).items@.len() as int));
            }
            Some(m)
        }
    }
}

} // verus!

