//! The game client's side of the connection.
pub mod backoff;
pub mod client;
pub mod settings;
pub mod types;
