//! A media sink that fans live compressed video out to browser peers.
//!
//! The crate holds the decisions of the sink: how an upstream format is
//! classified, which outbound track belongs to which input pad, what happens
//! to every inbound buffer, how a signalling exchange proceeds, which TCP port
//! is taken, and how the element moves between its idle and its ready state.
//! Each of them is a function with a contract that Verus proves.

pub mod codec;
pub mod error;
pub mod forward;
pub mod http;
pub mod peers;
pub mod port;
pub mod signal;
pub mod sink;
pub mod text;
pub mod tracks;
