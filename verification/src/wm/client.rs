//! The record the window manager keeps for each managed window.

use vstd::prelude::*;
use crate::frame::{BORDER_WIDTH, TITLE_HEIGHT};

verus! {

/// Stacking layer of desktop windows.
pub const LAYER_DESKTOP: u16 = 0;
/// Stacking layer of windows kept below others.
pub const LAYER_BELOW: u16 = 2;
/// Stacking layer of ordinary windows.
pub const LAYER_NORMAL: u16 = 4;
/// Stacking layer of windows kept above others.
pub const LAYER_ONTOP: u16 = 6;
/// Stacking layer of docks and panels.
pub const LAYER_DOCK: u16 = 8;
/// Stacking layer of fullscreen windows.
pub const LAYER_FULLSCREEN: u16 = 10;
/// Stacking layer of notifications.
pub const LAYER_NOTIFICATION: u16 = 14;

/// Workspace number meaning "shown on every workspace".
pub const ALL_WORKSPACES: u32 = 0xFFFF_FFFF;

/// Gravity code of ICCCM NorthWestGravity.
pub const GRAVITY_NORTH_WEST: i32 = 1;

/// A saved frame origin and client size.
#[derive(Debug, Clone, Copy, PartialEq, Eq, Structural)]
pub struct Geometry {
    pub x: i16,
    pub y: i16,
    pub width: u16,
    pub height: u16,
}

/// Extents a client reserves around itself for decorations it draws: left,
/// right, top, bottom.
#[derive(Debug, Clone, Copy, PartialEq, Eq, Structural)]
pub struct FrameExtents {
    pub left: u32,
    pub right: u32,
    pub top: u32,
    pub bottom: u32,
}

/// Window-manager state flags of a client and its stacking layer.
#[derive(Debug, Clone, Copy, PartialEq, Eq, Structural)]
pub struct ClientState {
    pub visible: bool,
    pub is_maximized: bool,
    pub is_minimized: bool,
    pub is_fullscreen: bool,
    pub is_sticky: bool,
    pub is_modal: bool,
    pub is_desktop: bool,
    pub is_dock: bool,
    /// The client draws its own decorations.
    pub is_csd: bool,
    pub accepts_input: bool,
    pub is_urgent: bool,
    pub is_shaped: bool,
    pub demands_attention: bool,
    pub skip_taskbar: bool,
    pub skip_pager: bool,
    pub is_shaded: bool,
    pub is_above: bool,
    pub is_below: bool,
    pub layer: u16,
}

/// ICCCM/EWMH hints read from a client's properties, and the geometry it
/// had before being maximized or made fullscreen.
#[derive(Debug, Clone)]
pub struct ClientHints {
    pub saved_geometry: Option<Geometry>,
    pub strut: Option<Vec<u32>>,
    pub transient_for: Option<u32>,
    pub group_leader: Option<u32>,
    pub client_leader: Option<u32>,
    pub user_time: u32,
    pub user_time_window: Option<u32>,
    pub frame_extents: FrameExtents,
    pub gravity: i32,
    pub opacity: u32,
}

/// XSync counter protocol state of a client.
#[derive(Debug, Clone, Copy, PartialEq, Eq, Structural)]
pub struct SyncState {
    pub counter: Option<u32>,
    pub next_value: u64,
    pub waiting: bool,
    pub alarm: Option<u32>,
}

/// A managed window: its identifiers, geometry of the frame origin and of
/// the client area, and the EWMH/ICCCM state read from its properties.
#[derive(Debug, Clone)]
pub struct Client {
    /// The window ID of the application window.
    pub window: u32,
    /// The window ID of the frame decorations (if any).
    pub frame: Option<u32>,
    /// The Render Picture for the frame decorations.
    pub picture: Option<u32>,
    /// The Render Picture for the client content.
    pub content_picture: Option<u32>,
    pub damage: Option<u32>,
    /// Frame origin.
    pub x: i16,
    pub y: i16,
    /// Client area size.
    pub width: u16,
    pub height: u16,
    pub name: String,
    /// Workspace number; `ALL_WORKSPACES` means every workspace.
    pub workspace: u32,
    pub window_type: Vec<u32>,
    pub startup_id: Option<String>,
    pub pid: u32,
    pub state: ClientState,
    pub hints: ClientHints,
    pub sync: SyncState,
}

/// Border and title height drawn around a client; desktops, docks and
/// fullscreen windows are undecorated.
pub open spec fn spec_decoration(c: Client) -> (u16, u16) {
    if c.state.is_desktop || c.state.is_dock || c.state.is_fullscreen {
        (0, 0)
    } else {
        (BORDER_WIDTH, TITLE_HEIGHT)
    }
}

/// As `spec_decoration`, but windows that draw their own decorations are
/// undecorated too.
pub open spec fn spec_decoration_csd(c: Client) -> (u16, u16) {
    if c.state.is_desktop || c.state.is_dock || c.state.is_fullscreen || c.state.is_csd {
        (0, 0)
    } else {
        (BORDER_WIDTH, TITLE_HEIGHT)
    }
}

/// Whether a client is shown on the given workspace.
pub open spec fn spec_on_workspace(c: Client, workspace: u32) -> bool {
    c.workspace == workspace || c.workspace == ALL_WORKSPACES
}

impl Client {
    /// A fresh, undecorated record for `window` at (x, y) with the given size.
    pub fn new(window: u32, x: i16, y: i16, width: u16, height: u16) -> (r: Self)
        ensures
            r.window == window,
            r.x == x,
            r.y == y,
            r.width == width,
            r.height == height,
            r.frame.is_none(),
            r.picture.is_none(),
            r.content_picture.is_none(),
            r.damage.is_none(),
            r.name@ == "Unnamed"@,
            r.workspace == 0,
            r.window_type@.len() == 0,
            r.startup_id.is_none(),
            r.pid == 0,
            r.state == (ClientState {
                visible: false,
                is_maximized: false,
                is_minimized: false,
                is_fullscreen: false,
                is_sticky: false,
                is_modal: false,
                is_desktop: false,
                is_dock: false,
                is_csd: false,
                accepts_input: true,
                is_urgent: false,
                is_shaped: false,
                demands_attention: false,
                skip_taskbar: false,
                skip_pager: false,
                is_shaded: false,
                is_above: false,
                is_below: false,
                layer: LAYER_NORMAL,
            }),
            r.hints.saved_geometry.is_none(),
            r.hints.strut.is_none(),
            r.hints.transient_for.is_none() && r.hints.group_leader.is_none() && r.hints.client_leader.is_none(),
            r.hints.user_time == 0,
            r.hints.user_time_window.is_none(),
            r.hints.frame_extents == (FrameExtents { left: 0, right: 0, top: 0, bottom: 0 }),
            r.hints.gravity == GRAVITY_NORTH_WEST,
            r.hints.opacity == 0xFFFF_FFFF,
            r.sync == (SyncState { counter: None, next_value: 0, waiting: false, alarm: None }),
    {
        let name = String::from_str("Unnamed");
        proof {
            reveal_strlit("Unnamed");
        }
        Client {
            window,
            frame: None,
            picture: None,
            content_picture: None,
            damage: None,
            x,
            y,
            width,
            height,
            name,
            workspace: 0,
            window_type: Vec::new(),
            startup_id: None,
            pid: 0,
            state: ClientState {
                visible: false,
                is_maximized: false,
                is_minimized: false,
                is_fullscreen: false,
                is_sticky: false,
                is_modal: false,
                is_desktop: false,
                is_dock: false,
                is_csd: false,
                accepts_input: true,
                is_urgent: false,
                is_shaped: false,
                demands_attention: false,
                skip_taskbar: false,
                skip_pager: false,
                is_shaded: false,
                is_above: false,
                is_below: false,
                layer: LAYER_NORMAL,
            },
            hints: ClientHints {
                saved_geometry: None,
                strut: None,
                transient_for: None,
                group_leader: None,
                client_leader: None,
                user_time: 0,
                user_time_window: None,
                frame_extents: FrameExtents { left: 0, right: 0, top: 0, bottom: 0 },
                gravity: GRAVITY_NORTH_WEST,
                opacity: 0xFFFF_FFFF,
            },
            sync: SyncState { counter: None, next_value: 0, waiting: false, alarm: None },
        }
    }

    /// Border and title height of this client's frame.
    pub fn decoration(&self) -> (r: (u16, u16))
        ensures
            r == spec_decoration(*self),
    {
        if self.state.is_desktop || self.state.is_dock || self.state.is_fullscreen {
            (0, 0)
        } else {
            (BORDER_WIDTH, TITLE_HEIGHT)
        }
    }

    /// Border and title height of this client's frame, counting client-side
    /// decorations as none.
    pub fn decoration_csd(&self) -> (r: (u16, u16))
        ensures
            r == spec_decoration_csd(*self),
    {
        if self.state.is_desktop || self.state.is_dock || self.state.is_fullscreen || self.state.is_csd {
            (0, 0)
        } else {
            (BORDER_WIDTH, TITLE_HEIGHT)
        }
    }

    /// Whether the client is shown on `workspace`.
    pub fn on_workspace(&self, workspace: u32) -> (r: bool)
        ensures
            r == spec_on_workspace(*self, workspace),
    {
        self.workspace == workspace || self.workspace == ALL_WORKSPACES
    }
}

} // verus!
