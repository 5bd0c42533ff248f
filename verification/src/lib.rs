use vstd::prelude::*;

pub mod autoreplace;
pub mod autostart;
pub mod capslock;
pub mod commands;
pub mod config;
pub mod engine;
pub mod exclusions;
pub mod key_remap;
pub mod keyboard_hook;
pub mod keys;
pub mod libretranslate_server;
pub mod protocol;
pub mod sbd;
pub mod sidecar;
pub mod state;
pub mod text;
pub mod toast;
pub mod translate;
pub mod translator;
pub mod tray;

verus! {

} // verus!
