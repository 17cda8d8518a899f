//! Window operations that change a client's state: maximize, fullscreen,
//! minimize, EWMH `_NET_WM_STATE` requests and the state list published for
//! each window.

use vstd::prelude::*;
use crate::frame::{BORDER_WIDTH, TITLE_HEIGHT};
use crate::wm::client::{Client, ClientState, ClientHints, Geometry, ALL_WORKSPACES, LAYER_BELOW, LAYER_NORMAL, LAYER_ONTOP};
use crate::wm::focus::lemma_same_windows;
use crate::wm::geometry::ConfigurePlan;
use crate::wm::state::WindowManager;

verus! {

/// New geometry for a frame and the client inside it.
#[derive(Debug, Clone, Copy, PartialEq, Eq, Structural)]
pub struct WindowConfig {
    pub frame_x: i16,
    pub frame_y: i16,
    pub frame_width: u32,
    pub frame_height: u32,
    pub client_width: u32,
    pub client_height: u32,
}

/// `a - b` clamped at zero.
pub open spec fn sat_sub_u32(a: int, b: int) -> int {
    if a - b < 0 { 0 } else { a - b }
}

/// Maximize toggle of one client within the work area (x, y, w, h): a
/// maximized client with a saved geometry goes back to it, a maximized one
/// without stays, and any other one fills the work area and saves its
/// geometry. Gives the new record and the frame and client geometry to apply.
pub open spec fn spec_toggle_maximize(c: Client, wa: (i16, i16, u16, u16)) -> (Client, Option<WindowConfig>) {
    if c.state.is_maximized {
        match c.hints.saved_geometry {
            Some(g) => (
                Client { state: ClientState { is_maximized: false, ..c.state }, x: g.x, y: g.y, width: g.width, height: g.height, ..c },
                Some(WindowConfig {
                    frame_x: g.x,
                    frame_y: g.y,
                    frame_width: (g.width + 2 * BORDER_WIDTH) as u32,
                    frame_height: (g.height + TITLE_HEIGHT + 2 * BORDER_WIDTH) as u32,
                    client_width: g.width as u32,
                    client_height: g.height as u32,
                }),
            ),
            None => (c, None),
        }
    } else {
        let cw = sat_sub_u32(wa.2 as int, 2 * BORDER_WIDTH);
        let ch = sat_sub_u32(wa.3 as int, TITLE_HEIGHT + 2 * BORDER_WIDTH);
        (
            Client {
                state: ClientState { is_maximized: true, ..c.state },
                hints: ClientHints { saved_geometry: Some(Geometry { x: c.x, y: c.y, width: c.width, height: c.height }), ..c.hints },
                x: wa.0,
                y: wa.1,
                width: cw as u16,
                height: ch as u16,
                ..c
            },
            Some(WindowConfig {
                frame_x: wa.0,
                frame_y: wa.1,
                frame_width: wa.2 as u32,
                frame_height: wa.3 as u32,
                client_width: cw as u32,
                client_height: ch as u32,
            }),
        )
    }
}

/// Fullscreen toggle of one client on a `sw` x `sh` screen, like
/// `spec_toggle_maximize` with the whole screen for the work area and no
/// decorations around the client.
pub open spec fn spec_toggle_fullscreen(c: Client, sw: u16, sh: u16) -> (Client, Option<WindowConfig>) {
    if c.state.is_fullscreen {
        match c.hints.saved_geometry {
            Some(g) => (
                Client { state: ClientState { is_fullscreen: false, ..c.state }, x: g.x, y: g.y, width: g.width, height: g.height, ..c },
                Some(WindowConfig {
                    frame_x: g.x,
                    frame_y: g.y,
                    frame_width: (g.width + 2 * BORDER_WIDTH) as u32,
                    frame_height: (g.height + TITLE_HEIGHT + 2 * BORDER_WIDTH) as u32,
                    client_width: g.width as u32,
                    client_height: g.height as u32,
                }),
            ),
            None => (c, None),
        }
    } else {
        (
            Client {
                state: ClientState { is_fullscreen: true, ..c.state },
                hints: ClientHints { saved_geometry: Some(Geometry { x: c.x, y: c.y, width: c.width, height: c.height }), ..c.hints },
                x: 0,
                y: 0,
                width: sw,
                height: sh,
                ..c
            },
            Some(WindowConfig {
                frame_x: 0,
                frame_y: 0,
                frame_width: sw as u32,
                frame_height: sh as u32,
                client_width: sw as u32,
                client_height: sh as u32,
            }),
        )
    }
}

/// The value an EWMH `_NET_WM_STATE` action gives a flag: 0 removes, 1 adds,
/// 2 toggles, anything else keeps it.
#[verifier::opaque]
pub open spec fn spec_next_flag(action: u32, cur: bool) -> bool {
    if action == 0 {
        false
    } else if action == 1 {
        true
    } else if action == 2 {
        !cur
    } else {
        cur
    }
}

/// The value an EWMH `_NET_WM_STATE` action gives a flag.
pub fn next_flag(action: u32, cur: bool) -> (r: bool)
    ensures
        r == spec_next_flag(action, cur),
{
    reveal(spec_next_flag);
    match action {
        0 => false,
        1 => true,
        2 => !cur,
        _ => cur,
    }
}

/// The atoms of the EWMH window states, as interned on the X server.
#[derive(Debug, Clone, Copy, PartialEq, Eq, Structural)]
pub struct StateAtoms {
    pub maximized_vert: u32,
    pub maximized_horz: u32,
    pub fullscreen: u32,
    pub hidden: u32,
    pub focused: u32,
    pub demands_attention: u32,
    pub skip_taskbar: u32,
    pub skip_pager: u32,
    pub shaded: u32,
    pub above: u32,
    pub below: u32,
    pub modal: u32,
    pub sticky: u32,
}

/// `s` with `x` appended when `b` holds.
pub open spec fn seq_push_if(s: Seq<u32>, b: bool, x: u32) -> Seq<u32> {
    if b { s.push(x) } else { s }
}

/// The `_NET_WM_STATE` list published for a client, in a fixed order.
pub open spec fn spec_state_list(c: Client, focused: bool, a: StateAtoms) -> Seq<u32> {
    let s0 = seq_push_if(seq_push_if(Seq::empty(), c.state.is_maximized, a.maximized_vert), c.state.is_maximized, a.maximized_horz);
    let s1 = seq_push_if(seq_push_if(seq_push_if(s0, c.state.is_fullscreen, a.fullscreen), c.state.is_minimized, a.hidden), focused, a.focused);
    let s2 = seq_push_if(seq_push_if(s1, c.state.demands_attention, a.demands_attention), c.state.skip_taskbar, a.skip_taskbar);
    let s3 = seq_push_if(seq_push_if(s2, c.state.skip_pager, a.skip_pager), c.state.is_shaded, a.shaded);
    seq_push_if(seq_push_if(s3, c.state.is_above, a.above), c.state.is_below, a.below)
}

/// Whether `_NET_WM_STATE` request for `atom` asks for a fullscreen or
/// maximize toggle, given the current flags.
#[derive(Debug, Clone, Copy, PartialEq, Eq, Structural)]
pub struct StateRequest {
    pub toggle_fullscreen: bool,
    pub toggle_maximize: bool,
}

/// The client after a `_NET_WM_STATE` request (action, atom); fullscreen and
/// maximize changes are not applied here but reported.
pub open spec fn spec_apply_state(c: Client, action: u32, atom: u32, a: StateAtoms, workspace: u32) -> (Client, StateRequest) {
    let none = StateRequest { toggle_fullscreen: false, toggle_maximize: false };
    if atom == a.fullscreen {
        (c, StateRequest { toggle_fullscreen: spec_next_flag(action, c.state.is_fullscreen) != c.state.is_fullscreen, toggle_maximize: false })
    } else if atom == a.maximized_vert || atom == a.maximized_horz {
        (c, StateRequest { toggle_fullscreen: false, toggle_maximize: spec_next_flag(action, c.state.is_maximized) != c.state.is_maximized })
    } else {
        let st = spec_set_flag(c.state, action, spec_state_flag(atom, a));
        if atom == a.sticky {
            (Client { state: st, workspace: if st.is_sticky { ALL_WORKSPACES } else { workspace }, ..c }, none)
        } else {
            (Client { state: st, ..c }, none)
        }
    }
}

/// Maximizing a window and toggling it back restores its geometry.
pub proof fn lemma_maximize_round_trip(c: Client, wa1: (i16, i16, u16, u16), wa2: (i16, i16, u16, u16))
    requires
        !c.state.is_maximized,
    ensures
        ({
            let c1 = spec_toggle_maximize(c, wa1).0;
            let c2 = spec_toggle_maximize(c1, wa2).0;
            &&& c1.state.is_maximized
            &&& !c2.state.is_maximized
            &&& c2.x == c.x && c2.y == c.y && c2.width == c.width && c2.height == c.height
        }),
{
}

/// Going fullscreen and toggling back restores the window's geometry.
pub proof fn lemma_fullscreen_round_trip(c: Client, sw: u16, sh: u16)
    requires
        !c.state.is_fullscreen,
    ensures
        ({
            let c1 = spec_toggle_fullscreen(c, sw, sh).0;
            let c2 = spec_toggle_fullscreen(c1, sw, sh).0;
            &&& c1.state.is_fullscreen
            &&& !c2.state.is_fullscreen
            &&& c2.x == c.x && c2.y == c.y && c2.width == c.width && c2.height == c.height
        }),
{
}

/// The `_NET_WM_STATE` atom list for a client.
pub fn state_list(c: &Client, focused: bool, a: &StateAtoms) -> (r: Vec<u32>)
    ensures
        r@ == spec_state_list(*c, focused, *a),
{
    let mut states: Vec<u32> = Vec::new();
    push_if(&mut states, c.state.is_maximized, a.maximized_vert);
    push_if(&mut states, c.state.is_maximized, a.maximized_horz);
    push_if(&mut states, c.state.is_fullscreen, a.fullscreen);
    push_if(&mut states, c.state.is_minimized, a.hidden);
    push_if(&mut states, focused, a.focused);
    push_if(&mut states, c.state.demands_attention, a.demands_attention);
    push_if(&mut states, c.state.skip_taskbar, a.skip_taskbar);
    push_if(&mut states, c.state.skip_pager, a.skip_pager);
    push_if(&mut states, c.state.is_shaded, a.shaded);
    push_if(&mut states, c.state.is_above, a.above);
    push_if(&mut states, c.state.is_below, a.below);
    states
}

/// Appends `x` when `b` holds.
fn push_if(v: &mut Vec<u32>, b: bool, x: u32)
    ensures
        final(v)@ == seq_push_if(old(v)@, b, x),
{
    if b {
        v.push(x);
    }
}


impl Client {
    /// Toggles maximization within the work area `wa`, giving the frame and
    /// client geometry to apply.
    pub fn toggle_maximize(&mut self, wa: (i16, i16, u16, u16)) -> (r: Option<WindowConfig>)
        ensures
            *final(self) == spec_toggle_maximize(*old(self), wa).0,
            r == spec_toggle_maximize(*old(self), wa).1,
    {
        if self.state.is_maximized {
            match self.hints.saved_geometry {
                Some(g) => {
                    self.state = ClientState { is_maximized: false, ..self.state };
                    self.x = g.x;
                    self.y = g.y;
                    self.width = g.width;
                    self.height = g.height;
                    Some(WindowConfig {
                        frame_x: g.x,
                        frame_y: g.y,
                        frame_width: g.width as u32 + (2 * BORDER_WIDTH) as u32,
                        frame_height: g.height as u32 + TITLE_HEIGHT as u32 + (2 * BORDER_WIDTH) as u32,
                        client_width: g.width as u32,
                        client_height: g.height as u32,
                    })
                },
                None => None,
            }
        } else {
            let saved = Geometry { x: self.x, y: self.y, width: self.width, height: self.height };
            let cw: u32 = (wa.2 as u32).saturating_sub((2 * BORDER_WIDTH) as u32);
            let ch: u32 = (wa.3 as u32).saturating_sub((TITLE_HEIGHT + 2 * BORDER_WIDTH) as u32);
            self.state = ClientState { is_maximized: true, ..self.state };
            self.hints.saved_geometry = Some(saved);
            self.x = wa.0;
            self.y = wa.1;
            self.width = cw as u16;
            self.height = ch as u16;
            Some(WindowConfig {
                frame_x: wa.0,
                frame_y: wa.1,
                frame_width: wa.2 as u32,
                frame_height: wa.3 as u32,
                client_width: cw,
                client_height: ch,
            })
        }
    }

    /// Toggles fullscreen on a `sw` x `sh` screen, giving the frame and
    /// client geometry to apply.
    pub fn toggle_fullscreen(&mut self, sw: u16, sh: u16) -> (r: Option<WindowConfig>)
        ensures
            *final(self) == spec_toggle_fullscreen(*old(self), sw, sh).0,
            r == spec_toggle_fullscreen(*old(self), sw, sh).1,
    {
        if self.state.is_fullscreen {
            match self.hints.saved_geometry {
                Some(g) => {
                    self.state = ClientState { is_fullscreen: false, ..self.state };
                    self.x = g.x;
                    self.y = g.y;
                    self.width = g.width;
                    self.height = g.height;
                    Some(WindowConfig {
                        frame_x: g.x,
                        frame_y: g.y,
                        frame_width: g.width as u32 + (2 * BORDER_WIDTH) as u32,
                        frame_height: g.height as u32 + TITLE_HEIGHT as u32 + (2 * BORDER_WIDTH) as u32,
                        client_width: g.width as u32,
                        client_height: g.height as u32,
                    })
                },
                None => None,
            }
        } else {
            let saved = Geometry { x: self.x, y: self.y, width: self.width, height: self.height };
            self.state = ClientState { is_fullscreen: true, ..self.state };
            self.hints.saved_geometry = Some(saved);
            self.x = 0;
            self.y = 0;
            self.width = sw;
            self.height = sh;
            Some(WindowConfig {
                frame_x: 0,
                frame_y: 0,
                frame_width: sw as u32,
                frame_height: sh as u32,
                client_width: sw as u32,
                client_height: sh as u32,
            })
        }
    }

    /// Applies one atom of a `_NET_WM_STATE` request (action, atom); a
    /// fullscreen or maximize change is reported, not applied. A window made
    /// sticky goes to every workspace, one made unsticky to `workspace`.
    pub fn apply_state(&mut self, action: u32, atom: u32, a: &StateAtoms, workspace: u32) -> (r: StateRequest)
        ensures
            (*final(self), r) == spec_apply_state(*old(self), action, atom, *a, workspace),
    {
        let none = StateRequest { toggle_fullscreen: false, toggle_maximize: false };
        if atom == a.fullscreen {
            let f = self.state.is_fullscreen;
            StateRequest { toggle_fullscreen: next_flag(action, f) != f, toggle_maximize: false }
        } else if atom == a.maximized_vert || atom == a.maximized_horz {
            let m = self.state.is_maximized;
            StateRequest { toggle_fullscreen: false, toggle_maximize: next_flag(action, m) != m }
        } else {
            let flag = state_flag(atom, a);
            self.state = set_flag(self.state, action, flag);
            if atom == a.sticky {
                self.workspace = if self.state.is_sticky { ALL_WORKSPACES } else { workspace };
            }
            none
        }
    }
}

/// The window-state flags a `_NET_WM_STATE` atom can name, besides
/// fullscreen and maximize.
#[derive(Debug, Clone, Copy, PartialEq, Eq, Structural)]
pub enum StateFlag {
    Modal,
    DemandsAttention,
    Sticky,
    SkipTaskbar,
    SkipPager,
    Shaded,
    Above,
    Below,
    Other,
}

/// Which flag `atom` names (the first match in this order).
pub open spec fn spec_state_flag(atom: u32, a: StateAtoms) -> StateFlag {
    if atom == a.modal {
        StateFlag::Modal
    } else if atom == a.demands_attention {
        StateFlag::DemandsAttention
    } else if atom == a.sticky {
        StateFlag::Sticky
    } else if atom == a.skip_taskbar {
        StateFlag::SkipTaskbar
    } else if atom == a.skip_pager {
        StateFlag::SkipPager
    } else if atom == a.shaded {
        StateFlag::Shaded
    } else if atom == a.above {
        StateFlag::Above
    } else if atom == a.below {
        StateFlag::Below
    } else {
        StateFlag::Other
    }
}

/// Which flag `atom` names.
pub fn state_flag(atom: u32, a: &StateAtoms) -> (r: StateFlag)
    ensures
        r == spec_state_flag(atom, *a),
{
    if atom == a.modal {
        StateFlag::Modal
    } else if atom == a.demands_attention {
        StateFlag::DemandsAttention
    } else if atom == a.sticky {
        StateFlag::Sticky
    } else if atom == a.skip_taskbar {
        StateFlag::SkipTaskbar
    } else if atom == a.skip_pager {
        StateFlag::SkipPager
    } else if atom == a.shaded {
        StateFlag::Shaded
    } else if atom == a.above {
        StateFlag::Above
    } else if atom == a.below {
        StateFlag::Below
    } else {
        StateFlag::Other
    }
}

/// The flags after an EWMH action on one flag. Raising "above" clears
/// "below" and the reverse; either sets the stacking layer.
pub open spec fn spec_set_flag(st: ClientState, action: u32, flag: StateFlag) -> ClientState {
    match flag {
        StateFlag::Modal => ClientState { is_modal: spec_next_flag(action, st.is_modal), ..st },
        StateFlag::DemandsAttention => ClientState { demands_attention: spec_next_flag(action, st.demands_attention), ..st },
        StateFlag::Sticky => ClientState { is_sticky: spec_next_flag(action, st.is_sticky), ..st },
        StateFlag::SkipTaskbar => ClientState { skip_taskbar: spec_next_flag(action, st.skip_taskbar), ..st },
        StateFlag::SkipPager => ClientState { skip_pager: spec_next_flag(action, st.skip_pager), ..st },
        StateFlag::Shaded => ClientState { is_shaded: spec_next_flag(action, st.is_shaded), ..st },
        StateFlag::Above => if spec_next_flag(action, st.is_above) {
            ClientState { is_above: true, is_below: false, layer: LAYER_ONTOP, ..st }
        } else {
            ClientState { is_above: false, layer: LAYER_NORMAL, ..st }
        },
        StateFlag::Below => if spec_next_flag(action, st.is_below) {
            ClientState { is_below: true, is_above: false, layer: LAYER_BELOW, ..st }
        } else {
            ClientState { is_below: false, layer: LAYER_NORMAL, ..st }
        },
        StateFlag::Other => st,
    }
}

/// The flags after an EWMH action on one flag.
pub fn set_flag(st: ClientState, action: u32, flag: StateFlag) -> (r: ClientState)
    ensures
        r == spec_set_flag(st, action, flag),
{
    match flag {
        StateFlag::Modal => {
            let f = next_flag(action, st.is_modal);
            ClientState { is_modal: f, ..st }
        },
        StateFlag::DemandsAttention => {
            let f = next_flag(action, st.demands_attention);
            ClientState { demands_attention: f, ..st }
        },
        StateFlag::Sticky => {
            let f = next_flag(action, st.is_sticky);
            ClientState { is_sticky: f, ..st }
        },
        StateFlag::SkipTaskbar => {
            let f = next_flag(action, st.skip_taskbar);
            ClientState { skip_taskbar: f, ..st }
        },
        StateFlag::SkipPager => {
            let f = next_flag(action, st.skip_pager);
            ClientState { skip_pager: f, ..st }
        },
        StateFlag::Shaded => {
            let f = next_flag(action, st.is_shaded);
            ClientState { is_shaded: f, ..st }
        },
        StateFlag::Above => {
            if next_flag(action, st.is_above) {
                ClientState { is_above: true, is_below: false, layer: LAYER_ONTOP, ..st }
            } else {
                ClientState { is_above: false, layer: LAYER_NORMAL, ..st }
            }
        },
        StateFlag::Below => {
            if next_flag(action, st.is_below) {
                ClientState { is_below: true, is_above: false, layer: LAYER_BELOW, ..st }
            } else {
                ClientState { is_below: false, layer: LAYER_NORMAL, ..st }
            }
        },
        StateFlag::Other => st,
    }
}

/// The client after a configure plan: the frame origin and the size that
/// the plan changes are taken over.
pub open spec fn spec_configured(c: Client, p: ConfigurePlan) -> Client {
    Client {
        x: if p.set_x { p.frame_x } else { c.x },
        y: if p.set_y { p.frame_y } else { c.y },
        width: if p.set_width { p.width } else { c.width },
        height: if p.set_height { p.height } else { c.height },
        ..c
    }
}

impl WindowManager {

    /// Records what a configure plan changes of the client at `i`: its frame
    /// origin and its size.
    pub fn apply_configure_plan(&mut self, i: usize, plan: &ConfigurePlan)
        requires
            old(self).wf(),
            i < old(self).clients@.len(),
        ensures
            final(self).wf(),
            final(self).clients@ == old(self).clients@.update(i as int, spec_configured(old(self).clients@[i as int], *plan)),
            final(self).mru_stack@ == old(self).mru_stack@,
            final(self).focused_window == old(self).focused_window,
            final(self).drag_state == old(self).drag_state,
            final(self).current_workspace == old(self).current_workspace,
    {
        if plan.set_x {
            self.clients[i].x = plan.frame_x;
        }
        if plan.set_y {
            self.clients[i].y = plan.frame_y;
        }
        if plan.set_width {
            self.clients[i].width = plan.width;
        }
        if plan.set_height {
            self.clients[i].height = plan.height;
        }
        proof {
            assert(self.clients@ =~= old(self).clients@.update(i as int, spec_configured(old(self).clients@[i as int], *plan)));
            lemma_same_windows(old(self), self);
        }
    }

    /// Toggles maximization of the framed window `w` within the work area
    /// `wa`, giving the geometry to apply; nothing happens to unknown or
    /// unframed windows.
    #[verifier::rlimit(80)]
    #[verifier::spinoff_prover]
    pub fn toggle_maximize(&mut self, w: u32, wa: (i16, i16, u16, u16)) -> (r: Option<WindowConfig>)
        requires
            old(self).wf(),
        ensures
            final(self).wf(),
            final(self).last_click_time == old(self).last_click_time,
            final(self).last_click_window == old(self).last_click_window,
            final(self).screen_width == old(self).screen_width,
            final(self).screen_height == old(self).screen_height,
            final(self).mru_stack@ == old(self).mru_stack@,
            final(self).focused_window == old(self).focused_window,
            final(self).current_workspace == old(self).current_workspace,
            final(self).drag_state == old(self).drag_state,
            !(old(self).has_client(w) && old(self).client_of(w).frame.is_some()) ==> r is None && final(self).clients@
                == old(self).clients@,
            old(self).has_client(w) && old(self).client_of(w).frame.is_some() ==> {
                let (c2, cfg) = spec_toggle_maximize(old(self).client_of(w), wa);
                &&& r == cfg
                &&& final(self).clients@ == old(self).clients@.update(old(self).client_index(w), c2)
            },
    {
        let i = match self.find_client(w) {
            Some(i) => i,
            None => {
                return None;
            },
        };
        proof {
            self.lemma_client_of(i as int);
        }
        if self.clients[i].frame.is_none() {
            return None;
        }
        let r = self.clients[i].toggle_maximize(wa);
        proof {
            lemma_same_windows(old(self), self);
        }
        r
    }

    /// Toggles fullscreen of the framed window `w` on the screen, giving the
    /// geometry to apply; nothing happens to unknown or unframed windows.
    #[verifier::rlimit(80)]
    #[verifier::spinoff_prover]
    pub fn toggle_fullscreen(&mut self, w: u32) -> (r: Option<WindowConfig>)
        requires
            old(self).wf(),
        ensures
            final(self).wf(),
            final(self).mru_stack@ == old(self).mru_stack@,
            final(self).focused_window == old(self).focused_window,
            final(self).current_workspace == old(self).current_workspace,
            final(self).drag_state == old(self).drag_state,
            !(old(self).has_client(w) && old(self).client_of(w).frame.is_some()) ==> r is None && final(self).clients@
                == old(self).clients@,
            old(self).has_client(w) && old(self).client_of(w).frame.is_some() ==> {
                let (c2, cfg) = spec_toggle_fullscreen(old(self).client_of(w), old(self).screen_width, old(self).screen_height);
                &&& r == cfg
                &&& final(self).clients@ == old(self).clients@.update(old(self).client_index(w), c2)
            },
    {
        let i = match self.find_client(w) {
            Some(i) => i,
            None => {
                return None;
            },
        };
        proof {
            self.lemma_client_of(i as int);
        }
        if self.clients[i].frame.is_none() {
            return None;
        }
        let (sw, sh) = (self.screen_width, self.screen_height);
        let r = self.clients[i].toggle_fullscreen(sw, sh);
        proof {
            lemma_same_windows(old(self), self);
        }
        r
    }

    #[verifier::rlimit(80)]
    #[verifier::spinoff_prover]
    fn set_minimized(&mut self, i: usize, m: bool)
        requires
            old(self).wf(),
            i < old(self).clients@.len(),
        ensures
            final(self).wf(),
            final(self).clients@ == old(self).clients@.update(i as int, Client { state: ClientState { is_minimized: m, ..old(self).clients@[i as int].state }, ..old(self).clients@[i as int] }),
            final(self).mru_stack@ == old(self).mru_stack@,
            final(self).focused_window == old(self).focused_window,
    {
        self.clients[i].state.is_minimized = m;
        proof {
            lemma_same_windows(old(self), self);
        }
    }

    /// Toggles minimization of the framed window `w`, giving its new state;
    /// nothing happens to unknown or unframed windows.
    #[verifier::rlimit(80)]
    #[verifier::spinoff_prover]
    pub fn toggle_minimize(&mut self, w: u32) -> (r: Option<bool>)
        requires
            old(self).wf(),
        ensures
            final(self).wf(),
            final(self).mru_stack@ == old(self).mru_stack@,
            final(self).focused_window == old(self).focused_window,
            !(old(self).has_client(w) && old(self).client_of(w).frame.is_some()) ==> r is None && final(self).clients@
                == old(self).clients@,
            old(self).has_client(w) && old(self).client_of(w).frame.is_some() ==> {
                let c = old(self).client_of(w);
                &&& r == Some(!c.state.is_minimized)
                &&& final(self).clients@ == old(self).clients@.update(
                    old(self).client_index(w),
                    Client { state: ClientState { is_minimized: !c.state.is_minimized, ..c.state }, ..c },
                )
            },
    {
        let i = match self.find_client(w) {
            Some(i) => i,
            None => {
                return None;
            },
        };
        proof {
            self.lemma_client_of(i as int);
        }
        if self.clients[i].frame.is_none() {
            return None;
        }
        let m = !self.clients[i].state.is_minimized;
        self.set_minimized(i, m);
        Some(m)
    }

    /// The `_NET_WM_STATE` atom list to publish for `w`, if it is managed.
    #[verifier::rlimit(80)]
    #[verifier::spinoff_prover]
    pub fn net_wm_state_atoms(&self, w: u32, a: &StateAtoms) -> (r: Option<Vec<u32>>)
        requires
            self.wf(),
        ensures
            !self.has_client(w) ==> r is None,
            self.has_client(w) ==> (r matches Some(v) && v@ == spec_state_list(
                self.client_of(w),
                self.focused_window == Some(w),
                *a,
            )),
    {
        let i = match self.find_client(w) {
            Some(i) => i,
            None => {
                return None;
            },
        };
        proof {
            self.lemma_client_of(i as int);
        }
        Some(state_list(&self.clients[i], self.focused_window == Some(w), a))
    }

    /// Applies one atom of a `_NET_WM_STATE` client message (action, atom)
    /// to `w`; a fullscreen or maximize change is reported for the caller to
    /// carry out. Unknown windows are left alone.
    #[verifier::rlimit(80)]
    #[verifier::spinoff_prover]
    pub fn apply_state_request(&mut self, w: u32, action: u32, atom: u32, a: &StateAtoms) -> (r: StateRequest)
        requires
            old(self).wf(),
        ensures
            final(self).wf(),
            final(self).mru_stack@ == old(self).mru_stack@,
            final(self).focused_window == old(self).focused_window,
            final(self).current_workspace == old(self).current_workspace,
            !old(self).has_client(w) ==> final(self).clients@ == old(self).clients@ && r == (StateRequest {
                toggle_fullscreen: false,
                toggle_maximize: false,
            }),
            old(self).has_client(w) ==> {
                let (c2, req) = spec_apply_state(old(self).client_of(w), action, atom, *a, old(self).current_workspace);
                &&& r == req
                &&& final(self).clients@ == old(self).clients@.update(old(self).client_index(w), c2)
            },
    {
        let none = StateRequest { toggle_fullscreen: false, toggle_maximize: false };
        let i = match self.find_client(w) {
            Some(i) => i,
            None => {
                return none;
            },
        };
        proof {
            self.lemma_client_of(i as int);
        }
        let ws = self.current_workspace;
        let r = self.clients[i].apply_state(action, atom, a, ws);
        proof {
            lemma_same_windows(old(self), self);
        }
        r
    }
}

} // verus!
