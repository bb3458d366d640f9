//! Relays channel point redemptions to a game server over RCON.

pub mod catalog;
pub mod config;
pub mod distribute;
pub mod extra;
pub mod flow;
pub mod handling;
pub mod json;
pub mod pubsub;
pub mod rcon;
pub mod reader;
pub mod redeem;
pub mod relay;
pub mod service;
pub mod session;
pub mod text;
pub mod twitch;
pub mod util;
pub mod watch;
