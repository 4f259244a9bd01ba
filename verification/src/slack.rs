//! The REST+realtime chat client: request-URI building, the identity
//! caches with their two-tier (bulk, then single-entity) fill strategy,
//! inbound realtime frame handling, and identity translation.
//!
//! The I/O shell performs the HTTP calls and the socket reads; this module
//! decides which call to make, builds its URI, and owns every byte of the
//! bookkeeping in between.

use vstd::prelude::*;

use crate::text::str_eq;

verus! {

/// Why a REST call failed: the transport failed, the response would not
/// decode, or the service answered with `ok: false`.
#[derive(Clone, Copy, PartialEq, Eq, Debug)]
pub enum ApiError {
    Transport,
    Decode,
    NotOk,
}

/// A directory user: opaque id and display name.
pub struct User {
    pub id: String,
    pub name: String,
}

/// A directory room: opaque id and display name.
pub struct Channel {
    pub id: String,
    pub name: String,
}

/// A realtime event as it arrives: room and sender still opaque ids.
pub struct RawMessage {
    pub channel: String,
    pub user: String,
    pub text: String,
}

/// A realtime event after identity translation: room and sender resolved
/// to directory entries.
pub struct Message {
    pub channel: Channel,
    pub user: User,
    pub text: String,
}

/// The query string for a call: `key=value&` for each pair, in order.
pub open spec fn query_spec(params: Seq<(Seq<char>, Seq<char>)>) -> Seq<char>
    decreases params.len(),
{
    if params.len() == 0 {
        Seq::empty()
    } else {
        query_spec(params.drop_last()) + params.last().0 + "="@ + params.last().1 + "&"@
    }
}

/// The full URI of a call: base, endpoint, `?`, then the query string with
/// its trailing character stripped (the trailing `&`; for a call without
/// parameters this strips the `?` itself).
pub open spec fn request_uri_spec(api: Seq<char>, params: Seq<(Seq<char>, Seq<char>)>) -> Seq<
    char,
> {
    let full = "https://slack.com/api/"@ + api + "?"@ + query_spec(params);
    full.subrange(0, full.len() - 1)
}

/// The views of a parameter list.
pub open spec fn param_views(params: Seq<(String, String)>) -> Seq<(Seq<char>, Seq<char>)> {
    params.map_values(|p: (String, String)| (p.0@, p.1@))
}

/// The authenticated request builder: holds the credential every call
/// carries.
pub struct SlackRequest {
    pub token: String,
}

impl SlackRequest {
    /// Builds the URI of one API call: endpoint plus `key=value` pairs in
    /// the given order, values taken as supplied (no URL encoding).
    pub fn request(api: &str, argument: &Vec<(String, String)>) -> (r: String)
        ensures
            r@ == request_uri_spec(api@, param_views(argument@)),
    {
        proof {
            reveal_strlit("https://slack.com/api/");
        }
        let mut uri = String::from_str("https://slack.com/api/");
        uri.append(api);
        uri.append("?");
        proof {
            assert(param_views(argument@.take(0)) =~= Seq::<(Seq<char>, Seq<char>)>::empty());
            assert(uri@ =~= "https://slack.com/api/"@ + api@ + "?"@ + query_spec(
                param_views(argument@.take(0)),
            ));
        }
        let mut i: usize = 0;
        while i < argument.len()
            invariant
                i <= argument@.len(),
                uri@ == "https://slack.com/api/"@ + api@ + "?"@ + query_spec(
                    param_views(argument@.take(i as int)),
                ),
            decreases argument@.len() - i,
        {
            uri.append(argument[i].0.as_str());
            uri.append("=");
            uri.append(argument[i].1.as_str());
            uri.append("&");
            proof {
                let prev = param_views(argument@.take(i as int));
                let cur = param_views(argument@.take(i as int + 1));
                assert(argument@.take(i as int + 1).drop_last() =~= argument@.take(i as int));
                assert(cur.drop_last() =~= prev);
                assert(cur.last() == (argument@[i as int].0@, argument@[i as int].1@));
                assert(query_spec(cur) == query_spec(prev) + argument@[i as int].0@ + "="@
                    + argument@[i as int].1@ + "&"@);
                assert(uri@ =~= "https://slack.com/api/"@ + api@ + "?"@ + query_spec(cur));
            }
            i += 1;
        }
        proof {
            assert(argument@.take(argument@.len() as int) =~= argument@);
        }
        let n = uri.unicode_len();
        let out = String::from_str(uri.as_str().substring_char(0, n - 1));
        out
    }

    /// The URI of the realtime session start call.
    pub fn rtm_connect(&self) -> (r: String)
        ensures
            r@ == request_uri_spec("rtm.connect"@, seq![("token"@, self.token@)]),
    {
        let mut args: Vec<(String, String)> = Vec::new();
        args.push((String::from_str("token"), self.token.clone()));
        let r = Self::request("rtm.connect", &args);
        proof {
            assert(param_views(args@) =~= seq![("token"@, self.token@)]);
        }
        r
    }

    /// The URI of the bulk user directory call.
    pub fn users_list(&self) -> (r: String)
        ensures
            r@ == request_uri_spec("users.list"@, seq![("token"@, self.token@)]),
    {
        let mut args: Vec<(String, String)> = Vec::new();
        args.push((String::from_str("token"), self.token.clone()));
        let r = Self::request("users.list", &args);
        proof {
            assert(param_views(args@) =~= seq![("token"@, self.token@)]);
        }
        r
    }

    /// The URI of the single-user directory call.
    pub fn users_info(&self, id: &str) -> (r: String)
        ensures
            r@ == request_uri_spec(
                "users.info"@,
                seq![("token"@, self.token@), ("user"@, id@)],
            ),
    {
        let mut args: Vec<(String, String)> = Vec::new();
        args.push((String::from_str("token"), self.token.clone()));
        args.push((String::from_str("user"), String::from_str(id)));
        let r = Self::request("users.info", &args);
        proof {
            assert(param_views(args@) =~= seq![("token"@, self.token@), ("user"@, id@)]);
        }
        r
    }

    /// The URI of the bulk room directory call.
    pub fn channels_list(&self) -> (r: String)
        ensures
            r@ == request_uri_spec("channels.list"@, seq![("token"@, self.token@)]),
    {
        let mut args: Vec<(String, String)> = Vec::new();
        args.push((String::from_str("token"), self.token.clone()));
        let r = Self::request("channels.list", &args);
        proof {
            assert(param_views(args@) =~= seq![("token"@, self.token@)]);
        }
        r
    }

    /// The URI of the single-room directory call.
    pub fn channels_info(&self, id: &str) -> (r: String)
        ensures
            r@ == request_uri_spec(
                "channels.info"@,
                seq![("token"@, self.token@), ("channel"@, id@)],
            ),
    {
        let mut args: Vec<(String, String)> = Vec::new();
        args.push((String::from_str("token"), self.token.clone()));
        args.push((String::from_str("channel"), String::from_str(id)));
        let r = Self::request("channels.info", &args);
        proof {
            assert(param_views(args@) =~= seq![("token"@, self.token@), ("channel"@, id@)]);
        }
        r
    }

    /// The URI of the message post call.
    pub fn chat_post_message(&self, channel: &str, text: &str) -> (r: String)
        ensures
            r@ == request_uri_spec(
                "chat.postMessage"@,
                seq![("token"@, self.token@), ("channel"@, channel@), ("text"@, text@)],
            ),
    {
        let mut args: Vec<(String, String)> = Vec::new();
        args.push((String::from_str("token"), self.token.clone()));
        args.push((String::from_str("channel"), String::from_str(channel)));
        args.push((String::from_str("text"), String::from_str(text)));
        let r = Self::request("chat.postMessage", &args);
        proof {
            assert(param_views(args@) =~= seq![
                ("token"@, self.token@),
                ("channel"@, channel@),
                ("text"@, text@),
            ]);
        }
        r
    }
}

/// The user directory a cache holds: id to display name, later entries in
/// force over earlier ones.
pub open spec fn user_map_of(users: Seq<User>) -> Map<Seq<char>, Seq<char>>
    decreases users.len(),
{
    if users.len() == 0 {
        Map::empty()
    } else {
        user_map_of(users.drop_last()).insert(users.last().id@, users.last().name@)
    }
}

/// The room directory a cache holds: id to display name, later entries in
/// force over earlier ones.
pub open spec fn channel_map_of(channels: Seq<Channel>) -> Map<Seq<char>, Seq<char>>
    decreases channels.len(),
{
    if channels.len() == 0 {
        Map::empty()
    } else {
        channel_map_of(channels.drop_last()).insert(
            channels.last().id@,
            channels.last().name@,
        )
    }
}

/// A directory after a bulk fetch result is installed over it, entry by
/// entry in order.
pub open spec fn installed_users(
    m: Map<Seq<char>, Seq<char>>,
    users: Seq<User>,
) -> Map<Seq<char>, Seq<char>>
    decreases users.len(),
{
    if users.len() == 0 {
        m
    } else {
        installed_users(m, users.drop_last()).insert(users.last().id@, users.last().name@)
    }
}

/// A directory after a bulk fetch result is installed over it, entry by
/// entry in order.
pub open spec fn installed_channels(
    m: Map<Seq<char>, Seq<char>>,
    channels: Seq<Channel>,
) -> Map<Seq<char>, Seq<char>>
    decreases channels.len(),
{
    if channels.len() == 0 {
        m
    } else {
        installed_channels(m, channels.drop_last()).insert(
            channels.last().id@,
            channels.last().name@,
        )
    }
}

/// What a cache-first lookup of a user asks for next.
pub enum UserLookup {
    /// The cached identity.
    Found(User),
    /// The cache is empty: fetch the whole directory first.
    NeedFullList,
    /// The cache is populated but lacks this id: fetch this one entity.
    NeedInfo,
}

/// What a cache-first lookup of a room asks for next.
pub enum ChannelLookup {
    /// The cached identity.
    Found(Channel),
    /// The cache is empty: fetch the whole directory first.
    NeedFullList,
    /// The cache is populated but lacks this id: fetch this one entity.
    NeedInfo,
}

/// The REST client: the request builder plus the two identity caches.  An
/// entry, once cached, is held for the life of the client — directory data
/// is assumed not to change mid-session.
pub struct Slack {
    pub request: SlackRequest,
    users: Vec<User>,
    channels: Vec<Channel>,
}

impl Slack {
    /// The request builder this client carries (for contracts).
    pub closed spec fn spec_request(&self) -> SlackRequest {
        self.request
    }

    /// The cached user directory.
    pub closed spec fn user_map(&self) -> Map<Seq<char>, Seq<char>> {
        user_map_of(self.users@)
    }

    /// The cached room directory.
    pub closed spec fn channel_map(&self) -> Map<Seq<char>, Seq<char>> {
        channel_map_of(self.channels@)
    }

    /// No user has been cached yet (the state that calls for a bulk fetch).
    pub closed spec fn user_cache_is_empty(&self) -> bool {
        self.users@.len() == 0
    }

    /// No room has been cached yet (the state that calls for a bulk fetch).
    pub closed spec fn channel_cache_is_empty(&self) -> bool {
        self.channels@.len() == 0
    }

    /// The cache is populated and holds this user id.
    pub open spec fn user_hit(&self, id: Seq<char>) -> bool {
        !self.user_cache_is_empty() && self.user_map().contains_key(id)
    }

    /// The cache is populated and holds this room id.
    pub open spec fn channel_hit(&self, id: Seq<char>) -> bool {
        !self.channel_cache_is_empty() && self.channel_map().contains_key(id)
    }

    /// A fresh client: credential stored, both caches empty, no call made.
    pub fn new(token: &str) -> (r: Result<Slack, ApiError>)
        ensures
            r matches Ok(s) && s.spec_request().token@ == token@ && s.user_cache_is_empty()
                && s.channel_cache_is_empty() && s.user_map() == Map::<Seq<char>, Seq<char>>::empty()
                && s.channel_map() == Map::<Seq<char>, Seq<char>>::empty(),
    {
        Ok(
            Slack {
                request: SlackRequest { token: String::from_str(token) },
                users: Vec::new(),
                channels: Vec::new(),
            },
        )
    }

    /// Installs a bulk user directory fetch into the cache, entry by entry
    /// in order.
    pub fn install_users(&mut self, users: &Vec<User>)
        ensures
            final(self).spec_request() == old(self).spec_request(),
            final(self).channel_map() == old(self).channel_map(),
            final(self).channel_cache_is_empty() == old(self).channel_cache_is_empty(),
            final(self).user_map() == installed_users(old(self).user_map(), users@),
            final(self).user_cache_is_empty() == (old(self).user_cache_is_empty() && users@.len() == 0),
    {
        let mut i: usize = 0;
        while i < users.len()
            invariant
                i <= users@.len(),
                self.request == old(self).request,
                self.channels == old(self).channels,
                self.users@.len() == old(self).users@.len() + i,
                user_map_of(self.users@) == installed_users(
                    user_map_of(old(self).users@),
                    users@.take(i as int),
                ),
            decreases users@.len() - i,
        {
            let ghost prev = self.users@;
            let entry = User { id: users[i].id.clone(), name: users[i].name.clone() };
            self.users.push(entry);
            proof {
                assert(self.users@.drop_last() =~= prev);
                assert(users@.take(i as int + 1).drop_last() =~= users@.take(i as int));
                assert(users@.take(i as int + 1).last() == users@[i as int]);
            }
            i += 1;
        }
        proof {
            assert(users@.take(users@.len() as int) =~= users@);
        }
    }

    /// Installs a bulk room directory fetch into the cache, entry by entry
    /// in order.
    pub fn install_channels(&mut self, channels: &Vec<Channel>)
        ensures
            final(self).spec_request() == old(self).spec_request(),
            final(self).user_map() == old(self).user_map(),
            final(self).user_cache_is_empty() == old(self).user_cache_is_empty(),
            final(self).channel_map() == installed_channels(old(self).channel_map(), channels@),
            final(self).channel_cache_is_empty() == (old(self).channel_cache_is_empty()
                && channels@.len() == 0),
    {
        let mut i: usize = 0;
        while i < channels.len()
            invariant
                i <= channels@.len(),
                self.request == old(self).request,
                self.users == old(self).users,
                self.channels@.len() == old(self).channels@.len() + i,
                channel_map_of(self.channels@) == installed_channels(
                    channel_map_of(old(self).channels@),
                    channels@.take(i as int),
                ),
            decreases channels@.len() - i,
        {
            let ghost prev = self.channels@;
            let entry = Channel { id: channels[i].id.clone(), name: channels[i].name.clone() };
            self.channels.push(entry);
            proof {
                assert(self.channels@.drop_last() =~= prev);
                assert(channels@.take(i as int + 1).drop_last() =~= channels@.take(i as int));
                assert(channels@.take(i as int + 1).last() == channels@[i as int]);
            }
            i += 1;
        }
        proof {
            assert(channels@.take(channels@.len() as int) =~= channels@);
        }
    }

    /// Installs a single-user fetch into the cache.
    pub fn insert_user(&mut self, u: User)
        ensures
            final(self).spec_request() == old(self).spec_request(),
            final(self).channel_map() == old(self).channel_map(),
            final(self).channel_cache_is_empty() == old(self).channel_cache_is_empty(),
            final(self).user_map() == old(self).user_map().insert(u.id@, u.name@),
            !final(self).user_cache_is_empty(),
    {
        self.users.push(u);
        proof {
            assert(self.users@.drop_last() =~= old(self).users@);
        }
    }

    /// Installs a single-room fetch into the cache.
    pub fn insert_channel(&mut self, c: Channel)
        ensures
            final(self).spec_request() == old(self).spec_request(),
            final(self).user_map() == old(self).user_map(),
            final(self).user_cache_is_empty() == old(self).user_cache_is_empty(),
            final(self).channel_map() == old(self).channel_map().insert(c.id@, c.name@),
            !final(self).channel_cache_is_empty(),
    {
        self.channels.push(c);
        proof {
            assert(self.channels@.drop_last() =~= old(self).channels@);
        }
    }

    /// Cache-first user lookup: a hit returns the cached identity; a miss
    /// on an empty cache calls for the bulk directory fetch; a miss on a
    /// populated cache calls for a single-entity fetch.
    pub fn get_user(&self, id: &str) -> (r: UserLookup)
        ensures
            self.user_cache_is_empty() ==> r is NeedFullList,
            self.user_hit(id@) ==> (r matches UserLookup::Found(u) && u.id@ == id@ && u.name@
                == self.user_map()[id@]),
            !self.user_cache_is_empty() && !self.user_map().contains_key(id@) ==> r is NeedInfo,
    {
        if self.users.len() == 0 {
            return UserLookup::NeedFullList;
        }
        let ghost full = user_map_of(self.users@);
        proof {
            assert(self.users@.take(self.users@.len() as int) =~= self.users@);
        }
        let mut i: usize = self.users.len();
        loop
            invariant
                i <= self.users@.len(),
                self.users@.len() > 0,
                full == user_map_of(self.users@),
                full.contains_key(id@) <==> user_map_of(self.users@.take(i as int)).contains_key(
                    id@,
                ),
                user_map_of(self.users@.take(i as int)).contains_key(id@) ==> user_map_of(
                    self.users@.take(i as int),
                )[id@] == full[id@],
            decreases i,
        {
            if i == 0 {
                assert(self.users@.take(0) =~= Seq::<User>::empty());
                return UserLookup::NeedInfo;
            }
            let k = i - 1;
            proof {
                assert(self.users@.take(k as int + 1).drop_last() =~= self.users@.take(k as int));
                assert(self.users@.take(k as int + 1).last() == self.users@[k as int]);
                assert(user_map_of(self.users@.take(k as int + 1)) == user_map_of(
                    self.users@.take(k as int),
                ).insert(self.users@[k as int].id@, self.users@[k as int].name@));
            }
            if str_eq(self.users[k].id.as_str(), id) {
                let found = User {
                    id: String::from_str(id),
                    name: self.users[k].name.clone(),
                };
                return UserLookup::Found(found);
            }
            i = k;
        }
    }

    /// Cache-first room lookup: a hit returns the cached identity; a miss
    /// on an empty cache calls for the bulk directory fetch; a miss on a
    /// populated cache calls for a single-entity fetch.
    pub fn get_channel(&self, id: &str) -> (r: ChannelLookup)
        ensures
            self.channel_cache_is_empty() ==> r is NeedFullList,
            self.channel_hit(id@) ==> (r matches ChannelLookup::Found(c) && c.id@ == id@
                && c.name@ == self.channel_map()[id@]),
            !self.channel_cache_is_empty() && !self.channel_map().contains_key(id@)
                ==> r is NeedInfo,
    {
        if self.channels.len() == 0 {
            return ChannelLookup::NeedFullList;
        }
        let ghost full = channel_map_of(self.channels@);
        proof {
            assert(self.channels@.take(self.channels@.len() as int) =~= self.channels@);
        }
        let mut i: usize = self.channels.len();
        loop
            invariant
                i <= self.channels@.len(),
                self.channels@.len() > 0,
                full == channel_map_of(self.channels@),
                full.contains_key(id@) <==> channel_map_of(
                    self.channels@.take(i as int),
                ).contains_key(id@),
                channel_map_of(self.channels@.take(i as int)).contains_key(id@)
                    ==> channel_map_of(self.channels@.take(i as int))[id@] == full[id@],
            decreases i,
        {
            if i == 0 {
                assert(self.channels@.take(0) =~= Seq::<Channel>::empty());
                return ChannelLookup::NeedInfo;
            }
            let k = i - 1;
            proof {
                assert(self.channels@.take(k as int + 1).drop_last() =~= self.channels@.take(
                    k as int,
                ));
                assert(self.channels@.take(k as int + 1).last() == self.channels@[k as int]);
                assert(channel_map_of(self.channels@.take(k as int + 1)) == channel_map_of(
                    self.channels@.take(k as int),
                ).insert(self.channels@[k as int].id@, self.channels@[k as int].name@));
            }
            if str_eq(self.channels[k].id.as_str(), id) {
                let found = Channel {
                    id: String::from_str(id),
                    name: self.channels[k].name.clone(),
                };
                return ChannelLookup::Found(found);
            }
            i = k;
        }
    }
}

/// What translating a raw realtime event needs next: the translated
/// message, or the fetch that would fill the missing cache entry, room
/// first.
pub enum Translation {
    /// Both identities resolved.
    Done(Message),
    /// The room cache is empty: fetch the whole room directory.
    NeedChannelList,
    /// The room cache lacks this room: fetch this one room.
    NeedChannelInfo,
    /// The user cache is empty: fetch the whole user directory.
    NeedUserList,
    /// The user cache lacks this sender: fetch this one user.
    NeedUserInfo,
}

impl Slack {
    /// Translates a raw realtime event by resolving its room and then its
    /// sender against the caches; a missing entry is reported as the fetch
    /// that would fill it.
    pub fn raw_message_to_message(&self, m: &RawMessage) -> (r: Translation)
        ensures
            self.channel_cache_is_empty() ==> r is NeedChannelList,
            !self.channel_cache_is_empty() && !self.channel_map().contains_key(m.channel@)
                ==> r is NeedChannelInfo,
            self.channel_hit(m.channel@) && self.user_cache_is_empty() ==> r is NeedUserList,
            self.channel_hit(m.channel@) && !self.user_cache_is_empty()
                && !self.user_map().contains_key(m.user@) ==> r is NeedUserInfo,
            self.channel_hit(m.channel@) && self.user_hit(m.user@) ==> (r matches
                Translation::Done(msg) && msg.channel.id@ == m.channel@ && msg.channel.name@
                == self.channel_map()[m.channel@] && msg.user.id@ == m.user@ && msg.user.name@
                == self.user_map()[m.user@] && msg.text@ == m.text@),
    {
        let channel = match self.get_channel(m.channel.as_str()) {
            ChannelLookup::NeedFullList => {
                return Translation::NeedChannelList;
            },
            ChannelLookup::NeedInfo => {
                return Translation::NeedChannelInfo;
            },
            ChannelLookup::Found(c) => c,
        };
        let user = match self.get_user(m.user.as_str()) {
            UserLookup::NeedFullList => {
                return Translation::NeedUserList;
            },
            UserLookup::NeedInfo => {
                return Translation::NeedUserInfo;
            },
            UserLookup::Found(u) => u,
        };
        Translation::Done(Message { channel, user, text: m.text.clone() })
    }
}

/// One frame read from the realtime socket, as the transport hands it in.
pub enum RtmFrame {
    /// A keep-alive ping with its payload.
    Ping(Vec<u8>),
    /// A frame that decoded to an event.
    Event(RawMessage),
    /// A frame that did not decode to the event schema.
    Malformed,
    /// The transport reported an error or a clean close.
    Closed,
}

/// What the realtime stream does with one frame.
pub enum RtmAction {
    /// Answer the ping in place with a pong carrying the same payload.
    Pong(Vec<u8>),
    /// Surface the event.
    Deliver(RawMessage),
    /// Drop the frame and read on.
    Skip,
    /// End the stream.
    End,
}

/// One step of the realtime stream: a ping is answered in place and never
/// surfaced, a decoded event is surfaced, an undecodable frame is dropped,
/// and a closed transport ends the stream.
pub fn rtm_step(f: RtmFrame) -> (r: RtmAction)
    ensures
        f matches RtmFrame::Ping(p) ==> (r matches RtmAction::Pong(q) && q@ == p@),
        f matches RtmFrame::Event(m) ==> (r matches RtmAction::Deliver(d) && d == m),
        f is Malformed ==> r is Skip,
        f is Closed ==> r is End,
{
    match f {
        RtmFrame::Ping(p) => RtmAction::Pong(p),
        RtmFrame::Event(m) => RtmAction::Deliver(m),
        RtmFrame::Malformed => RtmAction::Skip,
        RtmFrame::Closed => RtmAction::End,
    }
}

/// A bulk install makes an id resolvable exactly when the directory held
/// it or the cache already did.
pub proof fn lemma_installed_users_keys(
    m: Map<Seq<char>, Seq<char>>,
    users: Seq<User>,
    id: Seq<char>,
)
    ensures
        installed_users(m, users).contains_key(id) <==> (m.contains_key(id) || exists|j: int|
            0 <= j < users.len() && users[j].id@ == id),
    decreases users.len(),
{
    if users.len() == 0 {
    } else {
        lemma_installed_users_keys(m, users.drop_last(), id);
        if users.last().id@ == id {
            assert(users[users.len() - 1].id@ == id);
        } else {
            if exists|j: int| 0 <= j < users.len() && users[j].id@ == id {
                let j = choose|j: int| 0 <= j < users.len() && users[j].id@ == id;
                assert(users.drop_last()[j] == users[j]);
            }
        }
    }
}

/// Law (cache idempotence): resolving an id from an empty cache takes one
/// bulk install, after which the id is resolvable exactly when the fetched
/// directory held it; when it is not, one single-entity insert makes it
/// so.  Either way the cache then maps the id, so a second resolution of
/// the same id is a pure cache hit and calls for no further fetch.
pub proof fn lemma_cache_idempotent(members: Seq<User>, fetched: User, id: Seq<char>)
    requires
        fetched.id@ == id,
    ensures
        installed_users(Map::empty(), members).contains_key(id) <==> (exists|j: int|
            0 <= j < members.len() && members[j].id@ == id),
        installed_users(Map::empty(), members).insert(fetched.id@, fetched.name@).contains_key(
            id,
        ),
        installed_users(Map::empty(), members).insert(fetched.id@, fetched.name@)[id]
            == fetched.name@,
{
    lemma_installed_users_keys(Map::empty(), members, id);
}

} // verus!
