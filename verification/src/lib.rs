//! Core of a small multiplayer relay: a length-prefixed wire codec, a
//! relay-side peer registry with broadcast fan-out, and the client facade
//! that the presentation layer drives.

pub mod chan;
pub mod client;
pub mod codec;
pub mod message;
pub mod pump;
pub mod registry;
