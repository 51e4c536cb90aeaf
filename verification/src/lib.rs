//! Verified core of SLP Chat: the wire protocol, the chat log model, the
//! session state machine and the small parsers and formatters that the
//! desktop client relies on.

pub mod text;
pub mod digits;
pub mod protocol;
pub mod theme;
pub mod peer_map;
pub mod clock;
pub mod chat;
pub mod profile;
pub mod paths;
pub mod session;
pub mod connect;
pub mod voice;
pub mod overlay;
pub mod config;
pub mod avatar;
