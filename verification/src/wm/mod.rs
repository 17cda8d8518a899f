//! Window-manager core: client records, geometry rules, stacking and focus
//! policy, and the state that ties them together.

pub mod client;

pub mod geometry;
pub mod state;
pub mod focus;
pub mod ops;
pub mod settings;
pub mod hints;
pub mod layout;
pub mod pointer;
pub mod props;
pub mod manage;
pub mod draw;
pub mod overlay;
pub mod ping;
