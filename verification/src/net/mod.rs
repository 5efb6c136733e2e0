//! Talking to a library server.

pub mod addr;
pub mod client;
pub mod protocol;
pub mod credentials;
pub mod identity;
pub mod server;
pub mod session;
pub mod discovery;
pub mod laws;
