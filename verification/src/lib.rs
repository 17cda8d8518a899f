//! Verified core logic of the xfce-rs desktop: window-manager geometry and
//! policy, window placement, error accounting, file and string helpers,
//! menu building, application search and panel settings.

pub mod frame;
pub mod placement;
pub mod error;
pub mod wm;
pub mod text;
pub mod utils;
pub mod menu;
pub mod audio;
pub mod panel;
pub mod appfinder;
pub mod ipc;
pub mod launcher;
pub mod mixer;
pub mod hotkey;
pub mod config;
