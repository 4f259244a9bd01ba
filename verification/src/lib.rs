//! Relay engine for a two-way chat bridge.
//!
//! One side speaks a line-oriented protocol over a plain socket; the other
//! speaks a REST API plus a realtime socket.  This crate holds the verified
//! core: line framing and parsing, keep-alive handling, request building,
//! response checking, the identity caches, and the per-direction relay
//! logic.  The I/O shell around it (sockets, HTTP, threads) hands lines and
//! decoded responses in and carries framed lines and request URIs out.

pub mod bridge;
pub mod config;
pub mod irc;
pub mod response;
pub mod slack;
pub mod text;
