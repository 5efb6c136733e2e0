//! The player: its state and everything it decides.

pub mod flow;
pub mod state;
pub mod deal;
pub mod playback;
pub mod advance;
pub mod staging;
pub mod browse;
pub mod cursor;
pub mod columns;
pub mod playlists;
pub mod tabs;
pub mod scan;
pub mod context;
pub mod prefs;
pub mod search;
pub mod remote;
pub mod handle;
pub mod dispatch;
pub mod resume;
pub mod laws;
pub mod order_laws;
pub mod use_laws;
pub mod action_laws;
pub mod event_laws;
pub mod view_laws;
