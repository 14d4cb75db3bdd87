//! A zero-configuration encrypted LAN chat mesh: peers, channels, private
//! groups, file transfers and the terminal user interface model.

pub mod crypto;
pub mod text;
pub mod rounding;
pub mod types;
pub mod events;
pub mod state;
pub mod mesh;
pub mod wire;
pub mod discovery;
pub mod transfer;
pub mod nickname;
pub mod platform;
pub mod tui;
