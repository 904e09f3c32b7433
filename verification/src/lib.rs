//! Chat for FFOIE: the wire types, the chat server's rules and the game client's chat logic.
pub mod chat;
pub mod clock;
pub mod colors;
pub mod config;
pub mod health;
pub mod network;
pub mod nickname;
pub mod panel;
pub mod protocol;
pub mod random;
pub mod rate_limit;
pub mod ring;
pub mod state;
pub mod text;
pub mod ws;
