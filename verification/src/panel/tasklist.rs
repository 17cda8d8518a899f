//! The window buttons plugin: which windows get a button, what a window's
//! properties say of it, how a minimized window is brought back, and what
//! the plugin shows.

use vstd::prelude::*;
use vstd::string::StringSliceAdditionalSpecFns;
use crate::panel::plugins::WindowInfo;
use crate::utils::StringUtils;
use vstd::utf8::{encode_utf8, decode_utf8};

verus! {

/// The atoms the window buttons read in a window's state and type.
#[derive(Debug, Clone, Copy)]
pub struct TaskAtoms {
    pub state_hidden: u32,
    pub state_skip_taskbar: u32,
    pub type_desktop: u32,
    pub type_dock: u32,
}

/// The name of a window: the first of the name properties (read in the
/// order `_NET_WM_NAME`, `UTF8_STRING`, `WM_NAME`) that is present,
/// non-empty and valid UTF-8, else `Unnamed`.
pub open spec fn spec_window_name(names: Seq<Option<Seq<char>>>) -> Seq<char>
    decreases names.len(),
{
    if names.len() == 0 {
        "Unnamed"@
    } else {
        match names[0] {
            Some(n) => n,
            None => spec_window_name(names.drop_first()),
        }
    }
}

pub open spec fn name_views(v: Seq<Option<String>>) -> Seq<Option<Seq<char>>> {
    v.map_values(
        |o: Option<String>|
            match o {
                Some(s) => Some(s@),
                None => None,
            },
    )
}

/// Whether a window lists itself as skipped by taskbars, as a desktop or
/// as a dock: such windows get no button.
pub open spec fn spec_listed(w: WindowInfo) -> bool {
    !w.skip_taskbar && !w.is_desktop && !w.is_dock
}

fn window_name(names: &Vec<Option<String>>) -> (r: String)
    ensures
        r@ == spec_window_name(name_views(names@)),
{
    let ghost nv = name_views(names@);
    let mut i: usize = 0;
    proof {
        assert(nv.skip(0) == nv);
    }
    while i < names.len()
        invariant
            i <= names@.len(),
            nv == name_views(names@),
            spec_window_name(nv) == spec_window_name(nv.skip(i as int)),
        decreases names.len() - i,
    {
        proof {
            assert(nv.skip(i as int)[0] == nv[i as int]);
            assert(nv.skip(i as int).drop_first() == nv.skip(i + 1));
        }
        match &names[i] {
            Some(n) => {
                return n.clone();
            },
            None => {},
        }
        i += 1;
    }
    proof {
        assert(nv.skip(i as int).len() == 0);
    }
    String::from_str("Unnamed")
}

fn holds(v: &Vec<u32>, x: u32) -> (r: bool)
    ensures
        r == v@.contains(x),
{
    let mut i: usize = 0;
    while i < v.len()
        invariant
            i <= v@.len(),
            forall|k: int| 0 <= k < i ==> v@[k] != x,
        decreases v.len() - i,
    {
        if v[i] == x {
            return true;
        }
        i += 1;
    }
    false
}

impl WindowInfo {
    /// What a window's properties say of it: its name, whether its state
    /// holds the hidden and skip-taskbar atoms, whether its types hold the
    /// desktop and dock atoms, and whether it is the active window.
    pub fn from_properties(
        window: u32,
        names: &Vec<Option<String>>,
        states: &Vec<u32>,
        types: &Vec<u32>,
        active: Option<u32>,
        atoms: &TaskAtoms,
    ) -> (r: WindowInfo)
        ensures
            r.window_id == window,
            r.name@ == spec_window_name(name_views(names@)),
            r.is_active == (active == Some(window)),
            r.is_minimized == states@.contains(atoms.state_hidden),
            r.skip_taskbar == states@.contains(atoms.state_skip_taskbar),
            r.is_desktop == types@.contains(atoms.type_desktop),
            r.is_dock == types@.contains(atoms.type_dock),
    {
        WindowInfo {
            window_id: window,
            name: window_name(names),
            is_active: match active {
                Some(a) => a == window,
                None => false,
            },
            is_minimized: holds(states, atoms.state_hidden),
            skip_taskbar: holds(states, atoms.state_skip_taskbar),
            is_desktop: holds(types, atoms.type_desktop),
            is_dock: holds(types, atoms.type_dock),
        }
    }

    /// Whether the window gets a button.
    pub fn is_listed(&self) -> (r: bool)
        ensures
            r == spec_listed(*self),
    {
        !self.skip_taskbar && !self.is_desktop && !self.is_dock
    }

    /// The text of the window's button: the name, or its first 27 bytes
    /// and `...` when it is longer than 30 bytes (which must then cut at a
    /// character boundary).
    pub fn button_label(&self) -> (r: String)
        requires
            encode_utf8(self.name@).len() > 30 ==> vstd::utf8::is_char_boundary(encode_utf8(self.name@), 27),
        ensures
            encode_utf8(self.name@).len() <= 30 ==> r@ == self.name@,
            encode_utf8(self.name@).len() > 30 ==> r@ == decode_utf8(encode_utf8(self.name@).subrange(0, 27)) + "..."@,
    {
        let s = self.name.as_str();
        let byte_len = s.as_bytes().len();
        proof {
            assert(s.spec_bytes() == encode_utf8(self.name@));
            assert(byte_len == encode_utf8(self.name@).len());
        }
        StringUtils::truncate(s, 30)
    }

    /// How the window's button is drawn.
    pub fn button_tone(&self) -> (r: ButtonTone)
        ensures
            r == (if self.is_active {
                ButtonTone::Accent
            } else if self.is_minimized {
                ButtonTone::Dimmed
            } else {
                ButtonTone::Normal
            }),
    {
        if self.is_active {
            ButtonTone::Accent
        } else if self.is_minimized {
            ButtonTone::Dimmed
        } else {
            ButtonTone::Normal
        }
    }
}

/// The colour of a window button's text: the accent for the active
/// window, dimmed for a minimized one.
#[derive(Debug, Clone, Copy, PartialEq, Eq, Structural)]
pub enum ButtonTone {
    Accent,
    Dimmed,
    Normal,
}

/// The windows that get a button, in the order of the client list.
pub fn listed_windows(infos: Vec<WindowInfo>) -> (r: Vec<WindowInfo>)
    ensures
        r@ == infos@.filter(|w: WindowInfo| spec_listed(w)),
{
    let ghost keep = |w: WindowInfo| spec_listed(w);
    let mut r: Vec<WindowInfo> = Vec::new();
    let mut i: usize = 0;
    while i < infos.len()
        invariant
            i <= infos@.len(),
            keep == (|w: WindowInfo| spec_listed(w)),
            r@ == infos@.take(i as int).filter(keep),
        decreases infos.len() - i,
    {
        let w = &infos[i];
        proof {
            assert(infos@.take(i + 1) == infos@.take(i as int).push(*w));
            infos@.take(i as int).lemma_filter_push(*w, keep);
        }
        if w.is_listed() {
            r.push(w.copied());
        }
        i += 1;
    }
    proof {
        assert(infos@.take(infos@.len() as int) == infos@);
    }
    r
}

/// The state to write back when a window is brought up from the taskbar:
/// its state without the hidden atom, when the hidden atom is there;
/// nothing to write otherwise.
pub fn states_without_hidden(states: &Vec<u32>, hidden: u32) -> (r: Option<Vec<u32>>)
    ensures
        match r {
            Some(s) => states@.contains(hidden) && s@ == states@.filter(|a: u32| a != hidden),
            None => !states@.contains(hidden),
        },
{
    if !holds(states, hidden) {
        return None;
    }
    let ghost keep = |a: u32| a != hidden;
    let mut r: Vec<u32> = Vec::new();
    let mut i: usize = 0;
    while i < states.len()
        invariant
            i <= states@.len(),
            keep == (|a: u32| a != hidden),
            r@ == states@.take(i as int).filter(keep),
        decreases states.len() - i,
    {
        proof {
            assert(states@.take(i + 1) == states@.take(i as int).push(states@[i as int]));
            states@.take(i as int).lemma_filter_push(states@[i as int], keep);
        }
        if states[i] != hidden {
            r.push(states[i]);
        }
        i += 1;
    }
    proof {
        assert(states@.take(states@.len() as int) == states@);
    }
    Some(r)
}

/// What the window buttons plugin shows.
pub enum TaskDisplay {
    /// The last error, in place of the buttons.
    Error(String),
    NoWindows,
    /// One button per window, in order.
    Buttons,
}

/// The window buttons plugin: the windows it shows, the last error, and
/// whether it could reach the X server.
pub struct Tasklist {
    pub windows: Vec<WindowInfo>,
    pub error: Option<String>,
    pub tracker_ready: bool,
}

pub open spec fn opt_text(o: Option<String>) -> Option<Seq<char>> {
    match o {
        Some(s) => Some(s@),
        None => None,
    }
}

impl Tasklist {
    /// The plugin with no windows yet; `tracker_ready` tells whether the X
    /// server could be reached.
    pub fn new(tracker_ready: bool) -> (r: Self)
        ensures
            r.windows@.len() == 0,
            r.error.is_none(),
            r.tracker_ready == tracker_ready,
    {
        Tasklist { windows: Vec::new(), error: None, tracker_ready }
    }

    /// The window title.
    pub fn title(&self) -> (r: String)
        ensures
            r@ == "Window Buttons"@,
    {
        String::from_str("Window Buttons")
    }

    /// A refresh without a connection to the X server.
    pub fn refresh_without_tracker(&mut self)
        ensures
            final(self).windows@ == old(self).windows@,
            final(self).tracker_ready == old(self).tracker_ready,
            opt_text(final(self).error) == Some("Window tracker not initialized"@),
    {
        self.error = Some(String::from_str("Window tracker not initialized"));
    }

    /// The outcome of reading the listed windows: they replace the shown
    /// ones and clear the error, or the error is shown.
    pub fn windows_read(&mut self, outcome: Result<Vec<WindowInfo>, String>)
        ensures
            final(self).tracker_ready == old(self).tracker_ready,
            match outcome {
                Ok(ws) => final(self).windows@ == ws@ && final(self).error.is_none(),
                Err(e) => {
                    &&& final(self).windows@ == old(self).windows@
                    &&& opt_text(final(self).error) == Some("Failed to get windows: "@ + e@)
                },
            },
    {
        match outcome {
            Ok(ws) => {
                self.windows = ws;
                self.error = None;
            },
            Err(e) => {
                let mut m = String::from_str("Failed to get windows: ");
                m.append(e.as_str());
                self.error = Some(m);
            },
        }
    }

    /// The outcome of asking for a window to be activated; gives whether
    /// the windows are to be read again shortly (after a success).
    pub fn activation_done(&mut self, outcome: Result<(), String>) -> (again: bool)
        ensures
            final(self).windows@ == old(self).windows@,
            final(self).tracker_ready == old(self).tracker_ready,
            match outcome {
                Ok(()) => again && opt_text(final(self).error) == opt_text(old(self).error),
                Err(e) => !again && opt_text(final(self).error) == Some("Failed to activate window: "@ + e@),
            },
    {
        match outcome {
            Ok(()) => true,
            Err(e) => {
                let mut m = String::from_str("Failed to activate window: ");
                m.append(e.as_str());
                self.error = Some(m);
                false
            },
        }
    }

    /// An error reported to the plugin.
    pub fn report(&mut self, msg: String)
        ensures
            final(self).windows@ == old(self).windows@,
            final(self).tracker_ready == old(self).tracker_ready,
            opt_text(final(self).error) == Some(msg@),
    {
        self.error = Some(msg);
    }

    /// What the plugin shows: the error when there is one, else a note
    /// when there are no windows, else the buttons.
    pub fn display(&self) -> (r: TaskDisplay)
        ensures
            match self.error {
                Some(e) => r matches TaskDisplay::Error(m) && m@ == e@,
                None => if self.windows@.len() == 0 {
                    r is NoWindows
                } else {
                    r is Buttons
                },
            },
    {
        match &self.error {
            Some(e) => TaskDisplay::Error(e.clone()),
            None => if self.windows.len() == 0 {
                TaskDisplay::NoWindows
            } else {
                TaskDisplay::Buttons
            },
        }
    }
}

} // verus!
