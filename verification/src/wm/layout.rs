//! The work area left free by panels, placement of new windows in it,
//! snapping to halves of it, and workspace switching.

use vstd::prelude::*;
use crate::placement::{cascade_fits, cascade_placement, spec_cascade_fits, spec_cascade_placement};
use crate::wm::client::{Client, ClientState, ClientHints, Geometry, ALL_WORKSPACES, spec_on_workspace};
use crate::wm::focus::lemma_same_windows;
use crate::wm::geometry::{fits_i16, snap_geometry, spec_snap_geometry, SnapZone};
use crate::wm::ops::{spec_toggle_maximize, WindowConfig};
use crate::wm::state::WindowManager;

verus! {

pub open spec fn max_int(a: int, b: int) -> int {
    if a >= b { a } else { b }
}

/// The largest value of field `k` (left, right, top, bottom) among the
/// struts of `cs` that have at least four values, read as `i32`; never
/// below 0.
pub open spec fn strut_margin(cs: Seq<Client>, k: int) -> int
    decreases cs.len(),
{
    if cs.len() == 0 {
        0
    } else {
        let m = strut_margin(cs.drop_last(), k);
        match cs.last().hints.strut {
            Some(s) => if s@.len() >= 4 {
                max_int(m, (s@[k] as i32) as int)
            } else {
                m
            },
            None => m,
        }
    }
}

/// The work area (x, y, width, height) of a `sw` x `sh` screen: the screen
/// without the largest strut on each side, at least 1 x 1.
pub open spec fn spec_workarea(cs: Seq<Client>, sw: u16, sh: u16) -> (i16, i16, u16, u16) {
    let l = strut_margin(cs, 0);
    let r = strut_margin(cs, 1);
    let t = strut_margin(cs, 2);
    let b = strut_margin(cs, 3);
    (l as i16, t as i16, max_int(sw - l - r, 1) as u16, max_int(sh - t - b, 1) as u16)
}

/// The frame origins of the clients on workspace `ws` (sticky ones not
/// counted).
pub open spec fn workspace_origins(cs: Seq<Client>, ws: u32) -> Seq<(i16, i16)> {
    cs.filter(|c: Client| c.workspace == ws).map_values(|c: Client| (c.x, c.y))
}

/// Where a new `w` x `h` window goes: the cascade slot of the work area of
/// the current workspace, shifted to the work area. None when the cascade
/// finds no place within the X coordinate range, or when the shifted
/// position does not fit that range.
pub open spec fn spec_place_window(m: WindowManager, w: u16, h: u16) -> Option<(i16, i16)> {
    let (wx, wy, ww, wh) = spec_workarea(m.clients@, m.screen_width, m.screen_height);
    let o = workspace_origins(m.clients@, m.current_workspace);
    if !spec_cascade_fits(ww, wh, w, h, o) {
        None
    } else {
        let (x, y) = spec_cascade_placement(ww, wh, w, h, o);
        if fits_i16(x + wx) && fits_i16(y + wy) {
            Some(((x + wx) as i16, (y + wy) as i16))
        } else {
            None
        }
    }
}

/// What a switch to another workspace does to the frames: which to map
/// (with their clients) and which to unmap, and which window to focus.
#[derive(Debug, Clone)]
pub struct WorkspaceSwitch {
    /// (frame, client) of the windows of the new workspace.
    pub map: Vec<(u32, u32)>,
    /// Frames of the windows of other workspaces.
    pub unmap: Vec<u32>,
    /// The most recently used window shown on the new workspace.
    pub focus: Option<u32>,
}

pub open spec fn switch_maps(cs: Seq<Client>, ws: u32) -> Seq<(u32, u32)> {
    cs.filter(|c: Client| c.workspace != ALL_WORKSPACES && c.frame.is_some() && c.workspace == ws).map_values(
        |c: Client| (c.frame.unwrap(), c.window),
    )
}

pub open spec fn switch_unmaps(cs: Seq<Client>, ws: u32) -> Seq<u32> {
    cs.filter(|c: Client| c.workspace != ALL_WORKSPACES && c.frame.is_some() && c.workspace != ws).map_values(
        |c: Client| c.frame.unwrap(),
    )
}

/// What snapping a window comes to.
#[derive(Debug, Clone, Copy, PartialEq, Eq, Structural)]
pub enum SnapOutcome {
    /// Nothing changes.
    Unchanged,
    /// The top edge toggles maximization; the geometry to apply, if any.
    Maximize(Option<WindowConfig>),
    /// The frame and client take this geometry.
    Snapped { frame: u32, config: WindowConfig },
}

/// The client snapped to geometry `g`: its geometry is saved first unless
/// it is maximized or fullscreen, and it is no longer maximized.
pub open spec fn spec_snapped(c: Client, x: i16, y: i16, cw: u16, ch: u16) -> Client {
    let saved = if !c.state.is_maximized && !c.state.is_fullscreen {
        Some(Geometry { x: c.x, y: c.y, width: c.width, height: c.height })
    } else {
        c.hints.saved_geometry
    };
    Client {
        x: x,
        y: y,
        width: cw,
        height: ch,
        state: ClientState { is_maximized: false, ..c.state },
        hints: ClientHints { saved_geometry: saved, ..c.hints },
        ..c
    }
}

impl Client {
    /// Moves the client to (x, y) with the client size (cw, ch) after a
    /// snap.
    pub fn snap_to(&mut self, x: i16, y: i16, cw: u16, ch: u16)
        ensures
            *final(self) == spec_snapped(*old(self), x, y, cw, ch),
    {
        if !self.state.is_maximized && !self.state.is_fullscreen {
            self.hints.saved_geometry = Some(Geometry { x: self.x, y: self.y, width: self.width, height: self.height });
        }
        self.x = x;
        self.y = y;
        self.width = cw;
        self.height = ch;
        self.state = ClientState { is_maximized: false, ..self.state };
    }
}

impl WindowManager {
    /// The work area: the screen without the space panels reserve.
    pub fn calculate_workarea(&self) -> (r: (i16, i16, u16, u16))
        ensures
            r == spec_workarea(self.clients@, self.screen_width, self.screen_height),
    {
        let mut m: [i64; 4] = [0, 0, 0, 0];
        let mut i: usize = 0;
        while i < self.clients.len()
            invariant
                i <= self.clients@.len(),
                forall|k: int| 0 <= k < 4 ==> m@[k] == strut_margin(self.clients@.take(i as int), k),
                forall|k: int| 0 <= k < 4 ==> 0 <= #[trigger] m@[k] <= i32::MAX,
            decreases self.clients.len() - i,
        {
            proof {
                assert(self.clients@.take(i + 1).drop_last() == self.clients@.take(i as int));
                assert(self.clients@.take(i + 1).last() == self.clients@[i as int]);
            }
            if let Some(s) = &self.clients[i].hints.strut {
                if s.len() >= 4 {
                    let mut k: usize = 0;
                    let ghost before = m@;
                    while k < 4
                        invariant
                            k <= 4,
                            s@.len() >= 4,
                            m@.len() == 4,
                            forall|j: int| 0 <= j < k ==> m@[j] == max_int(before[j] as int, (s@[j] as i32) as int),
                            forall|j: int| k <= j < 4 ==> m@[j] == before[j],
                            forall|j: int| 0 <= j < 4 ==> 0 <= #[trigger] before[j] <= i32::MAX,
                        decreases 4 - k,
                    {
                        let v: i64 = (s[k] as i32) as i64;
                        if v > m[k] {
                            m[k] = v;
                        }
                        k += 1;
                    }
                }
            }
            i += 1;
        }
        proof {
            assert(self.clients@.take(self.clients@.len() as int) == self.clients@);
        }
        let sw = self.screen_width as i64;
        let sh = self.screen_height as i64;
        let w: i64 = if sw - m[0] - m[1] >= 1 { sw - m[0] - m[1] } else { 1 };
        let h: i64 = if sh - m[2] - m[3] >= 1 { sh - m[2] - m[3] } else { 1 };
        (m[0] as i16, m[2] as i16, w as u16, h as u16)
    }

    /// Where a new `width` x `height` window goes when it did not ask for a
    /// position; none when the cascade finds no place or the position does
    /// not fit the X range.
    pub fn place_window(&self, width: u16, height: u16) -> (r: Option<(i16, i16)>)
        ensures
            r == spec_place_window(*self, width, height),
    {
        let (wx, wy, ww, wh) = self.calculate_workarea();
        let ghost f = |c: Client| c.workspace == self.current_workspace;
        let ghost g = |c: Client| (c.x, c.y);
        let mut origins: Vec<(i16, i16)> = Vec::new();
        let mut i: usize = 0;
        while i < self.clients.len()
            invariant
                i <= self.clients@.len(),
                f == (|c: Client| c.workspace == self.current_workspace),
                g == (|c: Client| (c.x, c.y)),
                origins@ == self.clients@.take(i as int).filter(f).map_values(g),
            decreases self.clients.len() - i,
        {
            let c = &self.clients[i];
            proof {
                assert(self.clients@.take(i + 1) == self.clients@.take(i as int).push(*c));
                self.clients@.take(i as int).lemma_filter_push(*c, f);
            }
            if c.workspace == self.current_workspace {
                let ghost before = origins@;
                origins.push((c.x, c.y));
                proof {
                    assert(self.clients@.take(i as int).filter(f).push(*c).map_values(g) =~= before.push((c.x, c.y)));
                }
            }
            i += 1;
        }
        proof {
            assert(self.clients@.take(self.clients@.len() as int) == self.clients@);
        }
        if !cascade_fits(ww, wh, width, height, origins.as_slice()) {
            return None;
        }
        let (x, y) = cascade_placement(ww, wh, width, height, origins.as_slice());
        let px: i32 = x as i32 + wx as i32;
        let py: i32 = y as i32 + wy as i32;
        if px < -32768 || px > 32767 || py < -32768 || py > 32767 {
            return None;
        }
        Some((px as i16, py as i16))
    }

    /// Switches to workspace `workspace`, giving the frames to map and to
    /// unmap and the window to focus; nothing happens for the current one.
    pub fn switch_workspace(&mut self, workspace: u32) -> (r: Option<WorkspaceSwitch>)
        requires
            old(self).wf(),
        ensures
            final(self).wf(),
            final(self).clients@ == old(self).clients@,
            final(self).mru_stack@ == old(self).mru_stack@,
            final(self).focused_window == old(self).focused_window,
            workspace == old(self).current_workspace ==> r is None && final(self).current_workspace == workspace,
            workspace != old(self).current_workspace ==> final(self).current_workspace == workspace && (r matches Some(
                s,
            ) && {
                &&& s.map@ == switch_maps(old(self).clients@, workspace)
                &&& s.unmap@ == switch_unmaps(old(self).clients@, workspace)
                &&& s.focus == old(self).first_on_workspace(workspace)
            }),
    {
        if workspace == self.current_workspace {
            return None;
        }
        reveal(WindowManager::wf);
        let focus = self.first_on_workspace_exec(workspace);
        let (map, unmap) = switch_lists(&self.clients, workspace);
        self.current_workspace = workspace;
        proof {
            lemma_same_windows(old(self), self);
        }
        Some(WorkspaceSwitch { map, unmap, focus })
    }

    /// The most recently used managed window shown on `ws`.
    pub open spec fn first_on_workspace(&self, ws: u32) -> Option<u32> {
        if exists|k: int| 0 <= k < self.mru_stack@.len() && self.on_ws_at(k, ws) {
            Some(self.mru_stack@[choose_first(self, ws)])
        } else {
            None
        }
    }

    pub open spec fn on_ws_at(&self, k: int, ws: u32) -> bool {
        self.has_client(self.mru_stack@[k]) && spec_on_workspace(self.client_of(self.mru_stack@[k]), ws)
    }

    /// The most recently used managed window shown on `ws`.
    pub fn first_on_workspace_exec(&self, ws: u32) -> (r: Option<u32>)
        requires
            self.wf(),
        ensures
            r == self.first_on_workspace(ws),
    {
        let mut k: usize = 0;
        while k < self.mru_stack.len()
            invariant
                self.wf(),
                k <= self.mru_stack@.len(),
                forall|j: int| 0 <= j < k ==> !self.on_ws_at(j, ws),
            decreases self.mru_stack.len() - k,
        {
            let w = self.mru_stack[k];
            match self.find_client(w) {
                Some(i) => {
                    proof {
                        self.lemma_client_of(i as int);
                    }
                    if self.clients[i].on_workspace(ws) {
                        proof {
                            assert(self.on_ws_at(k as int, ws));
                            lemma_choose_first(self, ws, k as int);
                        }
                        return Some(w);
                    }
                },
                None => {},
            }
            k += 1;
        }
        None
    }

    /// Snaps `w` into `zone` of the work area: the top edge toggles
    /// maximization, the left and right edges give the window that half of
    /// the work area.
    pub fn apply_snap(&mut self, w: u32, zone: SnapZone) -> (r: SnapOutcome)
        requires
            old(self).wf(),
            zone == SnapZone::Right ==> {
                let wa = spec_workarea(old(self).clients@, old(self).screen_width, old(self).screen_height);
                fits_i16(wa.0 + ((wa.2 / 2) as i16))
            },
        ensures
            final(self).wf(),
            final(self).mru_stack@ == old(self).mru_stack@,
            final(self).focused_window == old(self).focused_window,
            ({
                let wa = spec_workarea(old(self).clients@, old(self).screen_width, old(self).screen_height);
                let framed = old(self).has_client(w) && old(self).client_of(w).frame.is_some();
                &&& (zone == SnapZone::Top && framed) ==> ({
                    let (c2, cfg) = spec_toggle_maximize(old(self).client_of(w), wa);
                    r == SnapOutcome::Maximize(cfg) && final(self).clients@ == old(self).clients@.update(
                        old(self).client_index(w),
                        c2,
                    )
                })
                &&& (zone == SnapZone::NoZone || !framed) ==> (zone == SnapZone::Top ==> r == SnapOutcome::Maximize(None))
                    && (zone != SnapZone::Top ==> r == SnapOutcome::Unchanged) && final(self).clients@ == old(self).clients@
                &&& ((zone == SnapZone::Left || zone == SnapZone::Right) && framed) ==> ({
                    let g = spec_snap_geometry(zone, wa.0, wa.1, wa.2, wa.3).unwrap();
                    let c = old(self).client_of(w);
                    &&& r == (SnapOutcome::Snapped {
                        frame: c.frame.unwrap(),
                        config: WindowConfig {
                            frame_x: g.frame_x,
                            frame_y: g.frame_y,
                            frame_width: g.frame_width as u32,
                            frame_height: g.frame_height as u32,
                            client_width: g.client_width as u32,
                            client_height: g.client_height as u32,
                        },
                    })
                    &&& final(self).clients@ == old(self).clients@.update(
                        old(self).client_index(w),
                        spec_snapped(c, g.frame_x, g.frame_y, g.client_width, g.client_height),
                    )
                })
            }),
    {
        let wa = self.calculate_workarea();
        if zone == SnapZone::Top {
            return SnapOutcome::Maximize(self.toggle_maximize(w, wa));
        }
        let g = match snap_geometry(zone, wa.0, wa.1, wa.2, wa.3) {
            Some(g) => g,
            None => {
                return SnapOutcome::Unchanged;
            },
        };
        let i = match self.find_client(w) {
            Some(i) => i,
            None => {
                return SnapOutcome::Unchanged;
            },
        };
        proof {
            self.lemma_client_of(i as int);
        }
        let frame = match self.clients[i].frame {
            Some(f) => f,
            None => {
                return SnapOutcome::Unchanged;
            },
        };
        self.clients[i].snap_to(g.frame_x, g.frame_y, g.client_width, g.client_height);
        proof {
            lemma_same_windows(old(self), self);
        }
        SnapOutcome::Snapped {
            frame,
            config: WindowConfig {
                frame_x: g.frame_x,
                frame_y: g.frame_y,
                frame_width: g.frame_width as u32,
                frame_height: g.frame_height as u32,
                client_width: g.client_width as u32,
                client_height: g.client_height as u32,
            },
        }
    }
}

/// The frames to map and to unmap for a switch to workspace `ws`.
fn switch_lists(clients: &Vec<Client>, workspace: u32) -> (r: (Vec<(u32, u32)>, Vec<u32>))
    ensures
        r.0@ == switch_maps(clients@, workspace),
        r.1@ == switch_unmaps(clients@, workspace),
{
    let ghost fm = |c: Client| c.workspace != ALL_WORKSPACES && c.frame.is_some() && c.workspace == workspace;
    let ghost gm = |c: Client| (c.frame.unwrap(), c.window);
    let ghost fu = |c: Client| c.workspace != ALL_WORKSPACES && c.frame.is_some() && c.workspace != workspace;
    let ghost gu = |c: Client| c.frame.unwrap();
    let mut map: Vec<(u32, u32)> = Vec::new();
    let mut unmap: Vec<u32> = Vec::new();
    let mut i: usize = 0;
    while i < clients.len()
        invariant
            i <= clients@.len(),
            fm == (|c: Client| c.workspace != ALL_WORKSPACES && c.frame.is_some() && c.workspace == workspace),
            gm == (|c: Client| (c.frame.unwrap(), c.window)),
            fu == (|c: Client| c.workspace != ALL_WORKSPACES && c.frame.is_some() && c.workspace != workspace),
            gu == (|c: Client| c.frame.unwrap()),
            map@ == clients@.take(i as int).filter(fm).map_values(gm),
            unmap@ == clients@.take(i as int).filter(fu).map_values(gu),
        decreases clients.len() - i,
    {
        let c = &clients[i];
        proof {
            assert(clients@.take(i + 1) == clients@.take(i as int).push(*c));
            clients@.take(i as int).lemma_filter_push(*c, fm);
            clients@.take(i as int).lemma_filter_push(*c, fu);
        }
        if c.workspace != ALL_WORKSPACES {
            if let Some(frame) = c.frame {
                if c.workspace == workspace {
                    let ghost before = map@;
                    map.push((frame, c.window));
                    proof {
                        assert(clients@.take(i as int).filter(fm).push(*c).map_values(gm) =~= before.push((frame, c.window)));
                    }
                } else {
                    let ghost before = unmap@;
                    unmap.push(frame);
                    proof {
                        assert(clients@.take(i as int).filter(fu).push(*c).map_values(gu) =~= before.push(frame));
                    }
                }
            }
        }
        i += 1;
    }
    proof {
        assert(clients@.take(clients@.len() as int) == clients@);
    }
    (map, unmap)
}

/// The position in the MRU list of the first window shown on `ws`.
pub open spec fn choose_first(m: &WindowManager, ws: u32) -> int {
    choose|k: int| 0 <= k < m.mru_stack@.len() && m.on_ws_at(k, ws) && forall|j: int| 0 <= j < k ==> !m.on_ws_at(j, ws)
}

proof fn lemma_choose_first(m: &WindowManager, ws: u32, k: int)
    requires
        0 <= k < m.mru_stack@.len(),
        m.on_ws_at(k, ws),
        forall|j: int| 0 <= j < k ==> !m.on_ws_at(j, ws),
    ensures
        choose_first(m, ws) == k,
        m.first_on_workspace(ws) == Some(m.mru_stack@[k]),
{
    let c = choose_first(m, ws);
    assert(0 <= c < m.mru_stack@.len() && m.on_ws_at(c, ws) && forall|j: int| 0 <= j < c ==> !m.on_ws_at(j, ws));
    if c < k {
        assert(!m.on_ws_at(c, ws));
    }
    if c > k {
        assert(!m.on_ws_at(k, ws));
    }
}

/// The `i`-th frame mapped by a switch to `ws` is that of a window placed
/// on `ws` (not on every workspace), which it shows.
pub open spec fn mapped_for_client(cs: Seq<Client>, ws: u32, i: int) -> bool {
    exists|k: int|
        0 <= k < cs.len() && (#[trigger] cs[k]).workspace == ws && cs[k].workspace != ALL_WORKSPACES && cs[k].frame
            == Some(switch_maps(cs, ws)[i].0) && cs[k].window == switch_maps(cs, ws)[i].1
}

/// The `i`-th frame unmapped by a switch to `ws` is that of a window
/// placed on another workspace (not on every workspace).
pub open spec fn unmapped_for_client(cs: Seq<Client>, ws: u32, i: int) -> bool {
    exists|k: int|
        0 <= k < cs.len() && (#[trigger] cs[k]).workspace != ws && cs[k].workspace != ALL_WORKSPACES && cs[k].frame
            == Some(switch_unmaps(cs, ws)[i])
}

/// Switching to workspace `ws` shows exactly the windows placed on it and
/// hides exactly those placed on another one: each framed window that is
/// not on every workspace has its frame mapped when it is on `ws` and
/// unmapped otherwise, and every frame mapped or unmapped is that of such
/// a window; windows on every workspace are left alone.
pub proof fn lemma_switch_shows_only_target(cs: Seq<Client>, ws: u32)
    ensures
        forall|k: int|
            0 <= k < cs.len() && cs[k].workspace != ALL_WORKSPACES && cs[k].frame.is_some() ==> {
                &&& (cs[k].workspace == ws ==> switch_maps(cs, ws).contains((cs[k].frame.unwrap(), cs[k].window)))
                &&& (cs[k].workspace != ws ==> switch_unmaps(cs, ws).contains(cs[k].frame.unwrap()))
            },
        forall|i: int| 0 <= i < switch_maps(cs, ws).len() ==> #[trigger] mapped_for_client(cs, ws, i),
        forall|i: int| 0 <= i < switch_unmaps(cs, ws).len() ==> #[trigger] unmapped_for_client(cs, ws, i),
{
    let fm = |c: Client| c.workspace != ALL_WORKSPACES && c.frame.is_some() && c.workspace == ws;
    let gm = |c: Client| (c.frame.unwrap(), c.window);
    let fu = |c: Client| c.workspace != ALL_WORKSPACES && c.frame.is_some() && c.workspace != ws;
    let gu = |c: Client| c.frame.unwrap();
    let m = switch_maps(cs, ws);
    let u = switch_unmaps(cs, ws);
    assert(m == cs.filter(fm).map_values(gm));
    assert(u == cs.filter(fu).map_values(gu));
    assert forall|k: int|
        0 <= k < cs.len() && cs[k].workspace != ALL_WORKSPACES && cs[k].frame.is_some() implies {
            &&& (cs[k].workspace == ws ==> m.contains((cs[k].frame.unwrap(), cs[k].window)))
            &&& (cs[k].workspace != ws ==> u.contains(cs[k].frame.unwrap()))
        } by {
        if cs[k].workspace == ws {
            cs.lemma_filter_contains(fm, k);
            let j = choose|j: int| 0 <= j < cs.filter(fm).len() && cs.filter(fm)[j] == cs[k];
            assert(m[j] == gm(cs[k]));
        } else {
            cs.lemma_filter_contains(fu, k);
            let j = choose|j: int| 0 <= j < cs.filter(fu).len() && cs.filter(fu)[j] == cs[k];
            assert(u[j] == gu(cs[k]));
        }
    }
    assert forall|i: int| 0 <= i < m.len() implies #[trigger] mapped_for_client(cs, ws, i) by {
        let c = cs.filter(fm)[i];
        cs.lemma_filter_pred(fm, i);
        assert(cs.filter(fm).contains(c));
        cs.lemma_filter_contains_rev(fm, c);
        let k = choose|k: int| 0 <= k < cs.len() && cs[k] == c;
        assert(m[i] == gm(c));
    }
    assert forall|i: int| 0 <= i < u.len() implies #[trigger] unmapped_for_client(cs, ws, i) by {
        let c = cs.filter(fu)[i];
        cs.lemma_filter_pred(fu, i);
        assert(cs.filter(fu).contains(c));
        cs.lemma_filter_contains_rev(fu, c);
        let k = choose|k: int| 0 <= k < cs.len() && cs[k] == c;
        assert(u[i] == gu(c));
    }
}

} // verus!
