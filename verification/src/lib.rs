//! The core of a small key-value server that speaks a length-prefixed
//! request and reply protocol: `PING`, `ECHO`, `GET` and `SET` with an
//! optional time to live.
//!
//! - [`wire`] decodes a request, an array of bulk strings, and encodes the
//!   replies.
//! - [`framing`] writes the request frame out and shows that the decoder
//!   reads it back.
//! - [`store`] holds the values, each with the time at which it expires.
//! - [`command`] carries a decoded request out and says what is answered.
//! - [`session`] decides what a connection does after each read.
//! - [`clock`] reads the time.
//! - [`laws`] states what holds of store and dispatcher for all requests.
//!
//! Every function that reads the clock has a sibling whose name ends in
//! `_at` and which takes the time as an argument.

pub mod clock;
pub mod command;
pub mod framing;
pub mod laws;
pub mod session;
pub mod store;
pub mod wire;
