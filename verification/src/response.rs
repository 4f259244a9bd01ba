//! The REST service's response envelopes.  Every response carries an `ok`
//! flag; `ok: false` is an application-level error whatever the transport
//! said, so each envelope's extractor yields its payload exactly when the
//! service said ok.  The I/O shell decodes the wire form into these types.

use vstd::prelude::*;

use crate::slack::{ApiError, Channel, RawMessage, User};

verus! {

/// Response of the realtime session start call.
pub struct RTMConnect {
    pub ok: bool,
    pub url: String,
}

impl RTMConnect {
    /// The realtime session URL, owed exactly when the service said ok.
    pub fn session_url(self) -> (r: Result<String, ApiError>)
        ensures
            self.ok ==> r == Ok::<String, ApiError>(self.url),
            !self.ok ==> r == Err::<String, ApiError>(ApiError::NotOk),
    {
        if self.ok {
            Ok(self.url)
        } else {
            Err(ApiError::NotOk)
        }
    }
}

/// Response of the bulk user directory call.
pub struct UsersList {
    pub ok: bool,
    pub members: Vec<User>,
}

impl UsersList {
    /// The directory members, owed exactly when the service said ok.
    pub fn into_members(self) -> (r: Result<Vec<User>, ApiError>)
        ensures
            self.ok ==> r == Ok::<Vec<User>, ApiError>(self.members),
            !self.ok ==> r == Err::<Vec<User>, ApiError>(ApiError::NotOk),
    {
        if self.ok {
            Ok(self.members)
        } else {
            Err(ApiError::NotOk)
        }
    }
}

/// Response of the single-user directory call.
pub struct UsersInfo {
    pub ok: bool,
    pub user: User,
}

impl UsersInfo {
    /// The resolved user, owed exactly when the service said ok.
    pub fn into_user(self) -> (r: Result<User, ApiError>)
        ensures
            self.ok ==> r == Ok::<User, ApiError>(self.user),
            !self.ok ==> r == Err::<User, ApiError>(ApiError::NotOk),
    {
        if self.ok {
            Ok(self.user)
        } else {
            Err(ApiError::NotOk)
        }
    }
}

/// Response of the bulk room directory call.
pub struct ChannelsList {
    pub ok: bool,
    pub channels: Vec<Channel>,
}

impl ChannelsList {
    /// The directory rooms, owed exactly when the service said ok.
    pub fn into_channels(self) -> (r: Result<Vec<Channel>, ApiError>)
        ensures
            self.ok ==> r == Ok::<Vec<Channel>, ApiError>(self.channels),
            !self.ok ==> r == Err::<Vec<Channel>, ApiError>(ApiError::NotOk),
    {
        if self.ok {
            Ok(self.channels)
        } else {
            Err(ApiError::NotOk)
        }
    }
}

/// Response of the single-room directory call.
pub struct ChannelsInfo {
    pub ok: bool,
    pub channel: Channel,
}

impl ChannelsInfo {
    /// The resolved room, owed exactly when the service said ok.
    pub fn into_channel(self) -> (r: Result<Channel, ApiError>)
        ensures
            self.ok ==> r == Ok::<Channel, ApiError>(self.channel),
            !self.ok ==> r == Err::<Channel, ApiError>(ApiError::NotOk),
    {
        if self.ok {
            Ok(self.channel)
        } else {
            Err(ApiError::NotOk)
        }
    }
}

/// Response of the message post call: an acknowledgment carrying the
/// service's timestamp and an echo of the posted content.
pub struct ChatPostMessage {
    pub ok: bool,
    pub ts: String,
    pub channel: String,
    pub message: RawMessage,
}

impl ChatPostMessage {
    /// The acknowledgment timestamp, owed exactly when the service said ok.
    pub fn into_ack(self) -> (r: Result<String, ApiError>)
        ensures
            self.ok ==> r == Ok::<String, ApiError>(self.ts),
            !self.ok ==> r == Err::<String, ApiError>(ApiError::NotOk),
    {
        if self.ok {
            Ok(self.ts)
        } else {
            Err(ApiError::NotOk)
        }
    }
}

} // verus!
