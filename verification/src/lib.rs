//! A client core for a tags-prefixed, line-oriented chat protocol carried over
//! a message transport: the login sequence, the keepalive cadence and the
//! classification of incoming lines, each with a machine-checked contract.

pub mod config;
pub mod socket;
pub mod text;
pub mod util;
pub mod websocket;
