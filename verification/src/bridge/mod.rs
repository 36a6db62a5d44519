//! The loopback companion bridge for Roblox Studio: wire types, local
//! authentication and pairing, and the per-session command and event broker.
pub mod model;
pub mod auth;
pub mod broker;
pub mod pairing;
pub mod service;
