//! Static bridge configuration: one connection and one bridged room per
//! protocol.  The I/O shell fills this in from a configuration file before
//! the bridge starts.

use vstd::prelude::*;

verus! {

/// The whole bridge configuration.
pub struct Config {
    pub irc: IRCConfig,
    pub slack: SlackConfig,
}

/// Connection and room settings for the line protocol.
pub struct IRCConfig {
    pub server: String,
    pub nickname: String,
    pub channel: String,
}

/// Credential and room settings for the REST+realtime protocol.
pub struct SlackConfig {
    pub token: String,
    pub channel: String,
}

} // verus!
