use echobot::response::{
    ChannelsInfo, ChannelsList, ChatPostMessage, RTMConnect, UsersInfo, UsersList,
};
use echobot::slack::{
    rtm_step, ApiError, Channel, ChannelLookup, RawMessage, RtmAction, RtmFrame, Slack,
    SlackRequest, Translation, User, UserLookup,
};

fn user(id: &str, name: &str) -> User {
    User { id: String::from(id), name: String::from(name) }
}

fn channel(id: &str, name: &str) -> Channel {
    Channel { id: String::from(id), name: String::from(name) }
}

/// Drives a user resolution the way the I/O shell does, counting the
/// fetches the cache asks for.
fn resolve_user_counting(
    slack: &mut Slack,
    id: &str,
    directory: &[(&str, &str)],
    single: (&str, &str),
    bulk_fetches: &mut usize,
    single_fetches: &mut usize,
) -> User {
    loop {
        match slack.get_user(id) {
            UserLookup::Found(u) => return u,
            UserLookup::NeedFullList => {
                *bulk_fetches += 1;
                let members: Vec<User> = directory.iter().map(|(i, n)| user(i, n)).collect();
                slack.install_users(&members);
            },
            UserLookup::NeedInfo => {
                *single_fetches += 1;
                slack.insert_user(user(single.0, single.1));
            },
        }
    }
}

#[test]
fn request_uri_single_param() {
    let args = vec![(String::from("token"), String::from("T"))];
    assert_eq!(
        SlackRequest::request("users.list", &args),
        "https://slack.com/api/users.list?token=T"
    );
}

#[test]
fn request_uri_params_in_order() {
    let args = vec![
        (String::from("token"), String::from("T")),
        (String::from("channel"), String::from("C1")),
    ];
    assert_eq!(
        SlackRequest::request("channels.info", &args),
        "https://slack.com/api/channels.info?token=T&channel=C1"
    );
}

#[test]
fn request_uri_values_not_encoded() {
    // values go out exactly as supplied; encoding is the caller's business
    let args = vec![(String::from("text"), String::from("a b&c"))];
    assert_eq!(
        SlackRequest::request("chat.postMessage", &args),
        "https://slack.com/api/chat.postMessage?text=a b&c"
    );
}

#[test]
fn request_uri_without_params_strips_the_question_mark() {
    let args: Vec<(String, String)> = Vec::new();
    assert_eq!(
        SlackRequest::request("api.test", &args),
        "https://slack.com/api/api.test"
    );
}

#[test]
fn endpoint_uris() {
    let req = SlackRequest { token: String::from("T") };
    assert_eq!(req.rtm_connect(), "https://slack.com/api/rtm.connect?token=T");
    assert_eq!(req.users_list(), "https://slack.com/api/users.list?token=T");
    assert_eq!(req.users_info("U1"), "https://slack.com/api/users.info?token=T&user=U1");
    assert_eq!(req.channels_list(), "https://slack.com/api/channels.list?token=T");
    assert_eq!(
        req.channels_info("C1"),
        "https://slack.com/api/channels.info?token=T&channel=C1"
    );
    assert_eq!(
        req.chat_post_message("general", "<alice> hello"),
        "https://slack.com/api/chat.postMessage?token=T&channel=general&text=<alice> hello"
    );
}

#[test]
fn responses_yield_payload_when_ok() {
    assert_eq!(
        RTMConnect { ok: true, url: String::from("wss://x") }.session_url(),
        Ok(String::from("wss://x"))
    );
    let members = UsersList { ok: true, members: vec![user("U1", "bob")] }.into_members().unwrap();
    assert_eq!(members.len(), 1);
    assert_eq!(members[0].id, "U1");
    let u = UsersInfo { ok: true, user: user("U2", "eve") }.into_user().unwrap();
    assert_eq!(u.name, "eve");
    let cs = ChannelsList { ok: true, channels: vec![channel("C1", "general")] }
        .into_channels()
        .unwrap();
    assert_eq!(cs[0].name, "general");
    let c = ChannelsInfo { ok: true, channel: channel("C2", "random") }.into_channel().unwrap();
    assert_eq!(c.id, "C2");
    let ack = ChatPostMessage {
        ok: true,
        ts: String::from("123.45"),
        channel: String::from("C1"),
        message: RawMessage {
            channel: String::from("C1"),
            user: String::from("U1"),
            text: String::from("hi"),
        },
    }
    .into_ack();
    assert_eq!(ack, Ok(String::from("123.45")));
}

#[test]
fn responses_fail_when_not_ok() {
    assert_eq!(
        RTMConnect { ok: false, url: String::from("wss://x") }.session_url(),
        Err(ApiError::NotOk)
    );
    assert!(matches!(
        UsersList { ok: false, members: vec![] }.into_members(),
        Err(ApiError::NotOk)
    ));
    assert!(matches!(
        UsersInfo { ok: false, user: user("U1", "bob") }.into_user(),
        Err(ApiError::NotOk)
    ));
    assert!(matches!(
        ChannelsList { ok: false, channels: vec![] }.into_channels(),
        Err(ApiError::NotOk)
    ));
    assert!(matches!(
        ChannelsInfo { ok: false, channel: channel("C1", "general") }.into_channel(),
        Err(ApiError::NotOk)
    ));
}

#[test]
fn new_client_stores_credential_and_makes_no_call() {
    let s = Slack::new("T").unwrap();
    assert_eq!(s.request.token, "T");
    assert!(matches!(s.get_user("U1"), UserLookup::NeedFullList));
    assert!(matches!(s.get_channel("C1"), ChannelLookup::NeedFullList));
}

#[test]
fn empty_cache_asks_for_bulk_fetch() {
    let s = Slack::new("T").unwrap();
    assert!(matches!(s.get_user("U1"), UserLookup::NeedFullList));
}

#[test]
fn populated_cache_hits_without_fetch() {
    let mut s = Slack::new("T").unwrap();
    s.install_users(&vec![user("U1", "bob"), user("U2", "eve")]);
    match s.get_user("U2") {
        UserLookup::Found(u) => {
            assert_eq!(u.id, "U2");
            assert_eq!(u.name, "eve");
        },
        _ => panic!("cached id must be a hit"),
    }
}

#[test]
fn populated_cache_miss_asks_for_single_fetch() {
    let mut s = Slack::new("T").unwrap();
    s.install_users(&vec![user("U1", "bob")]);
    assert!(matches!(s.get_user("U9"), UserLookup::NeedInfo));
    s.insert_user(user("U9", "mallory"));
    match s.get_user("U9") {
        UserLookup::Found(u) => assert_eq!(u.name, "mallory"),
        _ => panic!("inserted id must be a hit"),
    }
}

#[test]
fn later_directory_entries_override_earlier() {
    let mut s = Slack::new("T").unwrap();
    s.install_users(&vec![user("U1", "old"), user("U1", "new")]);
    match s.get_user("U1") {
        UserLookup::Found(u) => assert_eq!(u.name, "new"),
        _ => panic!("cached id must be a hit"),
    }
}

#[test]
fn cache_idempotence_hit_in_bulk() {
    let mut s = Slack::new("T").unwrap();
    let mut bulk: usize = 0;
    let mut single: usize = 0;
    let dir = [("U1", "bob"), ("U2", "eve")];
    let u = resolve_user_counting(&mut s, "U1", &dir, ("U1", "bob"), &mut bulk, &mut single);
    assert_eq!(u.name, "bob");
    assert_eq!((bulk, single), (1, 0));
    // the second resolution performs no network call at all
    let u2 = resolve_user_counting(&mut s, "U1", &dir, ("U1", "bob"), &mut bulk, &mut single);
    assert_eq!(u2.name, "bob");
    assert_eq!((bulk, single), (1, 0));
}

#[test]
fn cache_idempotence_miss_in_bulk() {
    let mut s = Slack::new("T").unwrap();
    let mut bulk: usize = 0;
    let mut single: usize = 0;
    let dir = [("U1", "bob")];
    let u = resolve_user_counting(&mut s, "U7", &dir, ("U7", "grace"), &mut bulk, &mut single);
    assert_eq!(u.name, "grace");
    assert_eq!((bulk, single), (1, 1));
    // the second resolution performs no network call at all
    let u2 = resolve_user_counting(&mut s, "U7", &dir, ("U7", "grace"), &mut bulk, &mut single);
    assert_eq!(u2.name, "grace");
    assert_eq!((bulk, single), (1, 1));
}

#[test]
fn channel_cache_two_tier() {
    let mut s = Slack::new("T").unwrap();
    assert!(matches!(s.get_channel("C1"), ChannelLookup::NeedFullList));
    s.install_channels(&vec![channel("C1", "general")]);
    match s.get_channel("C1") {
        ChannelLookup::Found(c) => assert_eq!(c.name, "general"),
        _ => panic!("cached id must be a hit"),
    }
    assert!(matches!(s.get_channel("C9"), ChannelLookup::NeedInfo));
    s.insert_channel(channel("C9", "random"));
    match s.get_channel("C9") {
        ChannelLookup::Found(c) => assert_eq!(c.name, "random"),
        _ => panic!("inserted id must be a hit"),
    }
}

#[test]
fn translate_resolves_room_then_sender() {
    let mut s = Slack::new("T").unwrap();
    let raw = RawMessage {
        channel: String::from("C1"),
        user: String::from("U1"),
        text: String::from("hi"),
    };
    assert!(matches!(s.raw_message_to_message(&raw), Translation::NeedChannelList));
    s.install_channels(&vec![channel("C1", "general")]);
    assert!(matches!(s.raw_message_to_message(&raw), Translation::NeedUserList));
    s.install_users(&vec![user("U1", "bob")]);
    match s.raw_message_to_message(&raw) {
        Translation::Done(m) => {
            assert_eq!(m.channel.id, "C1");
            assert_eq!(m.channel.name, "general");
            assert_eq!(m.user.id, "U1");
            assert_eq!(m.user.name, "bob");
            assert_eq!(m.text, "hi");
        },
        _ => panic!("both identities cached: translation must complete"),
    }
}

#[test]
fn translate_reports_missing_entries() {
    let mut s = Slack::new("T").unwrap();
    s.install_channels(&vec![channel("C1", "general")]);
    s.install_users(&vec![user("U1", "bob")]);
    let other_room = RawMessage {
        channel: String::from("C2"),
        user: String::from("U1"),
        text: String::from("hi"),
    };
    assert!(matches!(s.raw_message_to_message(&other_room), Translation::NeedChannelInfo));
    let other_user = RawMessage {
        channel: String::from("C1"),
        user: String::from("U2"),
        text: String::from("hi"),
    };
    assert!(matches!(s.raw_message_to_message(&other_user), Translation::NeedUserInfo));
}

#[test]
fn rtm_ping_is_answered_with_same_payload() {
    match rtm_step(RtmFrame::Ping(vec![1, 2, 3])) {
        RtmAction::Pong(p) => assert_eq!(p, vec![1, 2, 3]),
        _ => panic!("a ping must be answered in place"),
    }
}

#[test]
fn rtm_event_is_delivered() {
    let raw = RawMessage {
        channel: String::from("C1"),
        user: String::from("U1"),
        text: String::from("hi"),
    };
    match rtm_step(RtmFrame::Event(raw)) {
        RtmAction::Deliver(m) => assert_eq!(m.text, "hi"),
        _ => panic!("a decoded event must be surfaced"),
    }
}

#[test]
fn rtm_malformed_is_dropped_and_close_ends() {
    assert!(matches!(rtm_step(RtmFrame::Malformed), RtmAction::Skip));
    assert!(matches!(rtm_step(RtmFrame::Closed), RtmAction::End));
}
