//! The panel configuration file's content.

use vstd::prelude::*;

verus! {

/// Screen edge of the panel in the configuration file.
#[derive(Debug, Clone, Copy, PartialEq, Eq, Structural)]
pub enum PanelPosition {
    Top,
    Bottom,
}

/// The panel configuration: where it is, how high, and which plugins it runs.
#[derive(Debug, Clone)]
pub struct PanelConfig {
    pub position: PanelPosition,
    pub height: u32,
    pub plugins: Vec<String>,
}

impl PanelConfig {
    /// The configuration written when none exists: a 48 pixel bottom panel
    /// with the clock.
    pub fn default_config() -> (r: Self)
        ensures
            r.position == PanelPosition::Bottom,
            r.height == 48,
            r.plugins@.len() == 1,
            r.plugins@[0]@ == "clock"@,
    {
        let mut plugins: Vec<String> = Vec::new();
        plugins.push(String::from_str("clock"));
        PanelConfig { position: PanelPosition::Bottom, height: 48, plugins }
    }
}

impl Default for PanelConfig {
    fn default() -> (r: Self)
        ensures
            r.position == PanelPosition::Bottom,
            r.height == 48,
            r.plugins@.len() == 1,
            r.plugins@[0]@ == "clock"@,
    {
        PanelConfig::default_config()
    }
}

} // verus!
