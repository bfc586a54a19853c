//! A relay for remote input: controllers drive the keyboard and mouse of
//! targets through a server that registers connections, pairs a controller
//! with a named target into a session, forwards input events, and tears
//! sessions down on disconnect, on request, or when they have been idle for
//! too long.

pub mod auth;
pub mod commander;
pub mod config;
pub mod error;
pub mod guarantees;
pub mod hid;
pub mod ident;
pub mod protocol;
pub mod registry;
pub mod server;
pub mod session;
pub mod time;
