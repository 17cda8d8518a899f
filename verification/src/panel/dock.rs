//! How the panel's window is found among the X clients by its name, and
//! the properties that make it a dock on every workspace.

use vstd::prelude::*;
use crate::text::{chars_of, same_chars};

verus! {

/// A client window with the names it gives: `_NET_WM_NAME` (UTF-8) and
/// `WM_NAME`, each when present, non-empty and valid UTF-8.
pub struct NamedWindow {
    pub id: u32,
    pub net_name: Option<String>,
    pub wm_name: Option<String>,
}

pub open spec fn opt_text(o: Option<String>) -> Option<Seq<char>> {
    match o {
        Some(s) => Some(s@),
        None => None,
    }
}

/// Whether a window bears the name `name`, by either of its names.
pub open spec fn spec_window_named(w: NamedWindow, name: Seq<char>) -> bool {
    opt_text(w.net_name) == Some(name) || opt_text(w.wm_name) == Some(name)
}

fn is_text(o: &Option<String>, name: &Vec<char>) -> (r: bool)
    ensures
        r == (opt_text(*o) == Some(name@)),
{
    match o {
        Some(s) => same_chars(&chars_of(s.as_str()), name),
        None => false,
    }
}

impl NamedWindow {
    /// Whether the window bears the name `name`.
    pub fn is_named(&self, name: &str) -> (r: bool)
        ensures
            r == spec_window_named(*self, name@),
    {
        let n = chars_of(name);
        is_text(&self.net_name, &n) || is_text(&self.wm_name, &n)
    }
}

/// The first window of the client list that bears the name `name`.
pub fn find_named_window(windows: &Vec<NamedWindow>, name: &str) -> (r: Option<u32>)
    ensures
        match r {
            Some(id) => exists|i: int|
                0 <= i < windows@.len() && spec_window_named(windows@[i], name@) && windows@[i].id == id && forall|j: int|
                    0 <= j < i ==> !spec_window_named(#[trigger] windows@[j], name@),
            None => forall|i: int| 0 <= i < windows@.len() ==> !spec_window_named(#[trigger] windows@[i], name@),
        },
{
    let mut i: usize = 0;
    while i < windows.len()
        invariant
            i <= windows@.len(),
            forall|j: int| 0 <= j < i ==> !spec_window_named(#[trigger] windows@[j], name@),
        decreases windows.len() - i,
    {
        if windows[i].is_named(name) {
            return Some(windows[i].id);
        }
        i += 1;
    }
    None
}

/// The atoms of a dock window's type and state.
#[derive(Debug, Clone, Copy)]
pub struct DockAtoms {
    pub window_type_dock: u32,
    pub state_skip_taskbar: u32,
    pub state_skip_pager: u32,
    pub state_sticky: u32,
}

/// The window type and the window state the panel's window is given: a
/// dock, left out of taskbars and pagers, on every workspace.
pub fn dock_properties(a: &DockAtoms) -> (r: (Vec<u32>, Vec<u32>))
    ensures
        r.0@ == seq![a.window_type_dock],
        r.1@ == seq![a.state_skip_taskbar, a.state_skip_pager, a.state_sticky],
{
    (vec![a.window_type_dock], vec![a.state_skip_taskbar, a.state_skip_pager, a.state_sticky])
}

} // verus!
