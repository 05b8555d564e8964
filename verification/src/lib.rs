//! A streaming chat-completion client library.
//!
//! The crate resolves configuration with a fixed precedence (environment
//! over persisted settings over placeholder defaults), constructs a
//! provider handle from validated settings, builds the vendor HTTP request
//! (URL, headers, JSON body), and decodes a server-sent-event response
//! body into an ordered sequence of text deltas.  All of that logic is
//! verified; the network call itself is made by a thin unverified shell
//! around this library.

pub mod azure;
pub mod config;
pub mod provider;
pub mod sse;
