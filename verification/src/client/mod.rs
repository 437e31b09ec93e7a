//! The client side of a connection to a remote okena: how it connects, pairs,
//! reconnects, and what it does with each message.

pub mod connection;
pub mod remote;
pub mod session;
pub mod types;
