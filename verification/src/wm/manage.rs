//! Taking a new window under management: from what its properties say to
//! the frame to create around it and the record to keep.

use vstd::prelude::*;
use crate::frame::{FrameGeometry, BORDER_WIDTH, TITLE_HEIGHT};
use crate::placement::{cascade_fits, cascade_placement, center_window, spec_cascade_fits, spec_cascade_placement, spec_center_window};
use crate::wm::client::{Client, ClientHints, ClientState, FrameExtents, SyncState, ALL_WORKSPACES, GRAVITY_NORTH_WEST};
use crate::wm::geometry::{fits_i16, gravity_offset, gravity_offsets, gravity_extents, gravitate_ok, spec_gravitate};
use crate::wm::hints::{
    initial_state, new_decoration, new_layer, parse_frame_extents, parse_motif_hints, parse_size_hints, parse_wm_hints,
    spec_initial_state, spec_motif_hints, spec_new_decoration, spec_new_layer, spec_size_hints, spec_window_kind,
    spec_wm_hints, value_or, window_kind, InitialState, TypeAtoms, WindowKind,
};
use crate::wm::layout::spec_place_window;
use crate::wm::ops::StateAtoms;
use crate::wm::state::WindowManager;

verus! {

/// What the properties of a window about to be managed say, as read from
/// the server.
#[derive(Debug, Clone)]
pub struct ManageInput {
    pub window: u32,
    pub name: String,
    /// `_NET_WM_DESKTOP`, when set.
    pub desktop: Option<u32>,
    /// Geometry the window asked for.
    pub x: i16,
    pub y: i16,
    pub width: u16,
    pub height: u16,
    /// `_NET_WM_WINDOW_TYPE` atoms.
    pub window_types: Vec<u32>,
    /// `_NET_WM_STATE` atoms.
    pub states: Vec<u32>,
    pub transient_for: Option<u32>,
    /// `WM_HINTS` values.
    pub wm_hints: Vec<u32>,
    pub client_leader: Option<u32>,
    pub user_time_window: Option<u32>,
    pub startup_id: Option<String>,
    /// `_NET_WM_USER_TIME` of the user-time window, or of the window.
    pub user_time: u32,
    pub pid: u32,
    /// `_GTK_FRAME_EXTENTS` values.
    pub frame_extents: Vec<u32>,
    /// Whether `_GTK_FRAME_EXTENTS` is set: the window draws its own frame.
    pub has_csd_hint: bool,
    /// `WM_NORMAL_HINTS` values.
    pub size_hints: Vec<u32>,
    /// `_MOTIF_WM_HINTS` values.
    pub motif_hints: Vec<u32>,
    pub sync_counter: Option<u32>,
    pub is_shaped: bool,
    pub opacity: u32,
}

/// The frame to create for a new window and the record to keep of it.
#[derive(Debug)]
pub struct ManagePlan {
    /// The record, without its frame window yet.
    pub client: Client,
    pub frame: FrameGeometry,
    /// X border width of the frame window.
    pub frame_border_width: u16,
    /// Whether clicks on the client are grabbed for click-to-focus.
    pub grab_buttons: bool,
    /// Whether the frame goes below all windows (desktops) or above.
    pub stack_below: bool,
    /// Whether the frame and client are mapped now.
    pub map: bool,
    /// `_NET_FRAME_EXTENTS` to publish: left, right, top, bottom.
    pub extents: FrameExtents,
    /// The window gravity the client window is given once it sits in its
    /// frame, so that resizing the frame does not move it a second time.
    pub client_win_gravity: i32,
}

/// The frame origins of all managed windows.
pub open spec fn all_origins(cs: Seq<Client>) -> Seq<(i16, i16)> {
    cs.map_values(|c: Client| (c.x, c.y))
}

/// Where a frame goes for a window asking for (x, y) with size w x h: a
/// window at the origin (not a dock or desktop) is placed by cascade; one
/// at a screen corner (not a dock, desktop, splash or menu) is centered
/// when a dialog or utility and cascaded over the whole screen otherwise;
/// any other has its requested client position moved by its gravity to
/// the frame's origin. None where positions leave the X coordinate range.
pub open spec fn spec_frame_origin(
    m: WindowManager,
    inp: ManageInput,
    k: WindowKind,
    deco: (u16, u16),
    gravity: i32,
) -> Option<(i16, i16)> {
    let nodock = !k.is_dock && !k.is_desktop;
    let first = if inp.x == 0 && inp.y == 0 && nodock {
        spec_place_window(m, inp.width, inp.height)
    } else {
        Some((inp.x, inp.y))
    };
    match first {
        None => None,
        Some(p) => {
            let (x1, y1) = p;
            if x1 == 0 && y1 == 0 && nodock {
                spec_place_window(m, inp.width, inp.height)
            } else if (x1 <= 1 || y1 <= 1) && nodock && !k.is_splash && !k.is_menu {
                if k.is_dialog || inp.transient_for.is_some() || k.is_utility {
                    Some(spec_center_window(m.screen_width, m.screen_height, inp.width, inp.height))
                } else if spec_cascade_fits(m.screen_width, m.screen_height, inp.width, inp.height, all_origins(m.clients@)) {
                    Some(spec_cascade_placement(m.screen_width, m.screen_height, inp.width, inp.height, all_origins(m.clients@)))
                } else {
                    None
                }
            } else {
                let (b, t) = deco;
                if gravitate_ok(gravity, 1, b, t, x1, y1) {
                    let (tx, ty) = spec_gravitate(gravity, 1, b, t, x1, y1);
                    if fits_i16(tx - b) && fits_i16(ty - (t + b)) {
                        Some(((tx - b) as i16, (ty - (t + b)) as i16))
                    } else {
                        None
                    }
                } else {
                    None
                }
            }
        },
    }
}

/// The workspace of a new window: the one it names, or the current one;
/// a sticky window is on all.
pub open spec fn spec_new_workspace(m: WindowManager, inp: ManageInput, s: InitialState) -> u32 {
    if s.is_sticky {
        ALL_WORKSPACES
    } else {
        match inp.desktop {
            Some(d) => d,
            None => m.current_workspace,
        }
    }
}

/// The record kept of a new window at frame origin (x, y) with client size
/// w x h.
pub open spec fn spec_new_client(
    m: WindowManager,
    inp: ManageInput,
    ta: TypeAtoms,
    sa: StateAtoms,
    x: i16,
    y: i16,
    w: u16,
    h: u16,
) -> Client {
    let k = spec_window_kind(inp.window_types@, ta);
    let s = spec_initial_state(inp.states@, sa);
    let (group_leader, accepts_input, is_urgent) = spec_wm_hints(inp.wm_hints@);
    let fe = inp.frame_extents@;
    Client {
        window: inp.window,
        frame: None,
        picture: None,
        content_picture: None,
        damage: None,
        x: x,
        y: y,
        width: w,
        height: h,
        name: inp.name,
        workspace: spec_new_workspace(m, inp, s),
        window_type: inp.window_types,
        startup_id: inp.startup_id,
        pid: inp.pid,
        state: ClientState {
            visible: false,
            is_maximized: s.is_maximized,
            is_minimized: false,
            is_fullscreen: s.is_fullscreen,
            is_sticky: s.is_sticky,
            is_modal: s.is_modal,
            is_desktop: k.is_desktop,
            is_dock: k.is_dock,
            is_csd: inp.has_csd_hint,
            accepts_input: accepts_input,
            is_urgent: is_urgent,
            is_shaped: inp.is_shaped,
            demands_attention: s.demands_attention,
            skip_taskbar: s.skip_taskbar,
            skip_pager: s.skip_pager,
            is_shaded: s.is_shaded,
            is_above: s.is_above,
            is_below: s.is_below,
            layer: spec_new_layer(k, s),
        },
        hints: ClientHints {
            saved_geometry: None,
            strut: None,
            transient_for: inp.transient_for,
            group_leader: group_leader,
            client_leader: inp.client_leader,
            user_time: inp.user_time,
            user_time_window: inp.user_time_window,
            frame_extents: FrameExtents {
                left: value_or(fe, 0, 0),
                right: value_or(fe, 1, 0),
                top: value_or(fe, 2, 0),
                bottom: value_or(fe, 3, 0),
            },
            gravity: spec_size_hints(inp.size_hints@).0,
            opacity: inp.opacity,
        },
        sync: SyncState { counter: inp.sync_counter, next_value: 0, waiting: false, alarm: None },
    }
}


impl WindowManager {
    /// Where the frame of a new window goes (see `spec_frame_origin`).
    pub fn frame_origin(&self, inp: &ManageInput, k: &WindowKind, deco: (u16, u16), gravity: i32) -> (r: Option<(i16, i16)>)
        requires
            deco.0 <= BORDER_WIDTH,
            deco.1 <= TITLE_HEIGHT,
        ensures
            r == spec_frame_origin(*self, *inp, *k, deco, gravity),
    {
        let nodock = !k.is_dock && !k.is_desktop;
        let first = if inp.x == 0 && inp.y == 0 && nodock {
            self.place_window(inp.width, inp.height)
        } else {
            Some((inp.x, inp.y))
        };
        let (x1, y1) = match first {
            None => {
                return None;
            },
            Some(p) => p,
        };
        if x1 == 0 && y1 == 0 && nodock {
            return self.place_window(inp.width, inp.height);
        }
        if (x1 <= 1 || y1 <= 1) && nodock && !k.is_splash && !k.is_menu {
            if k.is_dialog || inp.transient_for.is_some() || k.is_utility {
                return Some(center_window(self.screen_width, self.screen_height, inp.width, inp.height));
            }
            let mut origins: Vec<(i16, i16)> = Vec::new();
            let mut i: usize = 0;
            while i < self.clients.len()
                invariant
                    i <= self.clients@.len(),
                    origins@ == all_origins(self.clients@.take(i as int)),
                decreases self.clients.len() - i,
            {
                let c = &self.clients[i];
                let ghost before = origins@;
                origins.push((c.x, c.y));
                proof {
                    assert(self.clients@.take(i + 1) == self.clients@.take(i as int).push(*c));
                    assert(all_origins(self.clients@.take(i + 1)) =~= before.push((c.x, c.y)));
                }
                i += 1;
            }
            proof {
                assert(self.clients@.take(self.clients@.len() as int) == self.clients@);
            }
            if !cascade_fits(self.screen_width, self.screen_height, inp.width, inp.height, origins.as_slice()) {
                return None;
            }
            return Some(cascade_placement(self.screen_width, self.screen_height, inp.width, inp.height, origins.as_slice()));
        }
        let (b, t) = deco;
        let (dx, dy) = gravity_offsets(gravity, b, t);
        let tx: i32 = x1 as i32 + dx;
        let ty: i32 = y1 as i32 + dy;
        if tx < -32768 || tx > 32767 || ty < -32768 || ty > 32767 {
            return None;
        }
        let fx: i32 = tx - b as i32;
        let fy: i32 = ty - (t + b) as i32;
        if fx < -32768 || fx > 32767 || fy < -32768 || fy > 32767 {
            return None;
        }
        Some((fx as i16, fy as i16))
    }

    /// Plans the management of a new window: its record, the frame around
    /// it, how the frame is stacked, whether it is shown now, and the frame
    /// extents to publish, which are the decoration the frame adds. None
    /// where the geometry leaves the X coordinate range.
    pub fn plan_manage(&self, inp: ManageInput, ta: &TypeAtoms, sa: &StateAtoms) -> (r: Option<ManagePlan>)
        ensures
            ({
                let k = spec_window_kind(inp.window_types@, *ta);
                let s = spec_initial_state(inp.states@, *sa);
                let deco = spec_new_decoration(k, s, spec_motif_hints(inp.motif_hints@), inp.has_csd_hint);
                let gravity = spec_size_hints(inp.size_hints@).0;
                match spec_frame_origin(*self, inp, k, deco, gravity) {
                    None => r is None,
                    Some(o) => {
                        let (fx, fy, fw, fh) = if k.is_desktop {
                            (0i16, 0i16, self.screen_width, self.screen_height)
                        } else {
                            (o.0, o.1, inp.width, inp.height)
                        };
                        let (b, t) = deco;
                        if fw + 2 * b > u16::MAX || fh + t + 2 * b > u16::MAX {
                            r is None
                        } else {
                            r matches Some(p) && {
                                let c = spec_new_client(*self, inp, *ta, *sa, fx, fy, fw, fh);
                                &&& p.client == c
                                &&& p.frame == (FrameGeometry {
                                    x: fx,
                                    y: fy,
                                    width: (fw + 2 * b) as u16,
                                    height: (fh + t + 2 * b) as u16,
                                    client_x: b as i16,
                                    client_y: (t + b) as i16,
                                })
                                &&& p.frame_border_width == (if k.is_dock { 0u16 } else { 1u16 })
                                &&& p.grab_buttons == (!k.is_dock && !k.is_desktop)
                                &&& p.stack_below == k.is_desktop
                                &&& p.map == (c.workspace == self.current_workspace || c.workspace == ALL_WORKSPACES)
                                &&& p.client_win_gravity == GRAVITY_NORTH_WEST
                                &&& p.extents == (FrameExtents {
                                    left: b as u32,
                                    right: b as u32,
                                    top: (t + b) as u32,
                                    bottom: b as u32,
                                })
                            }
                        }
                    },
                }
            }),
    {
        let k = window_kind(inp.window_types.as_slice(), ta);
        let s = initial_state(inp.states.as_slice(), sa);
        let motif = parse_motif_hints(inp.motif_hints.as_slice());
        let deco = new_decoration(&k, &s, motif, inp.has_csd_hint);
        let (gravity, _min_w, _min_h, _max_w, _max_h) = parse_size_hints(inp.size_hints.as_slice());
        let o = match self.frame_origin(&inp, &k, deco, gravity) {
            Some(o) => o,
            None => {
                return None;
            },
        };
        let (fx, fy, fw, fh) = if k.is_desktop {
            (0i16, 0i16, self.screen_width, self.screen_height)
        } else {
            (o.0, o.1, inp.width, inp.height)
        };
        let (b, t) = deco;
        if fw as u32 + 2 * b as u32 > 0xFFFF || fh as u32 + t as u32 + 2 * b as u32 > 0xFFFF {
            return None;
        }
        let frame = FrameGeometry {
            x: fx,
            y: fy,
            width: fw + 2 * b,
            height: fh + t + 2 * b,
            client_x: b as i16,
            client_y: (t + b) as i16,
        };
        let (group_leader, accepts_input, is_urgent) = parse_wm_hints(inp.wm_hints.as_slice());
        let (el, er, et, eb) = parse_frame_extents(inp.frame_extents.as_slice());
        let layer = new_layer(&k, &s);
        let workspace = if s.is_sticky {
            ALL_WORKSPACES
        } else {
            match inp.desktop {
                Some(d) => d,
                None => self.current_workspace,
            }
        };
        let map = workspace == self.current_workspace || workspace == ALL_WORKSPACES;
        let ghost inp0 = inp;
        let client = Client {
            window: inp.window,
            frame: None,
            picture: None,
            content_picture: None,
            damage: None,
            x: fx,
            y: fy,
            width: fw,
            height: fh,
            name: inp.name,
            workspace,
            window_type: inp.window_types,
            startup_id: inp.startup_id,
            pid: inp.pid,
            state: ClientState {
                visible: false,
                is_maximized: s.is_maximized,
                is_minimized: false,
                is_fullscreen: s.is_fullscreen,
                is_sticky: s.is_sticky,
                is_modal: s.is_modal,
                is_desktop: k.is_desktop,
                is_dock: k.is_dock,
                is_csd: inp.has_csd_hint,
                accepts_input,
                is_urgent,
                is_shaped: inp.is_shaped,
                demands_attention: s.demands_attention,
                skip_taskbar: s.skip_taskbar,
                skip_pager: s.skip_pager,
                is_shaded: s.is_shaded,
                is_above: s.is_above,
                is_below: s.is_below,
                layer,
            },
            hints: ClientHints {
                saved_geometry: None,
                strut: None,
                transient_for: inp.transient_for,
                group_leader,
                client_leader: inp.client_leader,
                user_time: inp.user_time,
                user_time_window: inp.user_time_window,
                frame_extents: FrameExtents { left: el, right: er, top: et, bottom: eb },
                gravity,
                opacity: inp.opacity,
            },
            sync: SyncState { counter: inp.sync_counter, next_value: 0, waiting: false, alarm: None },
        };
        Some(
            ManagePlan {
                client,
                frame,
                frame_border_width: if k.is_dock { 0 } else { 1 },
                grab_buttons: !k.is_dock && !k.is_desktop,
                stack_below: k.is_desktop,
                map,
                extents: FrameExtents { left: b as u32, right: b as u32, top: (t + b) as u32, bottom: b as u32 },
                client_win_gravity: GRAVITY_NORTH_WEST,
            },
        )
    }
}

} // verus!
