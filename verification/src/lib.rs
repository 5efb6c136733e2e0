//! The core of a terminal music player.
//!
//! Every decision the player takes stands here as a function from plain values
//! to plain values: what a key press means, which track follows which, what a
//! search result list shows, how a message is framed.

pub mod text;
pub mod number;
pub mod split;
pub mod util;
pub mod path;
pub mod time;
pub mod layout;
pub mod model;
pub mod order;
pub mod library;
pub mod soulseek;
pub mod soulseek_laws;
pub mod soulseek_session;
pub mod search_laws;
pub mod audio;
pub mod settings;
pub mod show_laws;
pub mod tree;
pub mod tree_laws;
pub mod net;
pub mod action;
pub mod help;
pub mod menus;
pub mod overlay;
pub mod keys;
pub mod storage;
pub mod path_codec;
pub mod replaygain;
pub mod app;
pub mod input;
pub mod input_laws;
pub mod screen;
pub mod ui;
pub mod page;
pub mod panel;
pub mod drop;
pub mod base64;
pub mod kitty;
pub mod cover;
pub mod file_laws;
