//! The panel: its configuration file, its settings and the settings dialog,
//! the small plugins whose state is plain data, the window buttons, and the
//! dock properties of the panel window.

pub mod config;
pub mod settings;
pub mod plugins;
pub mod tasklist;
pub mod dock;
