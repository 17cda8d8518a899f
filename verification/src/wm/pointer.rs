//! Pointer handling: clicks on frames and clients, interactive moves and
//! resizes, and the XSync requests that pace a resize.

use vstd::prelude::*;
use crate::frame::FramePart;
use crate::wm::client::{Client, SyncState, spec_decoration};
use crate::wm::focus::lemma_same_windows;
use crate::wm::geometry::{
    fits_i16, is_double_click, resize_dims, snap_zone_for_pointer, spec_is_double_click, spec_resize_dims, spec_snap_zone,
    SnapZone,
};
use crate::wm::layout::spec_workarea;
use crate::wm::ops::{spec_toggle_maximize, WindowConfig};
use crate::wm::state::{DragState, WindowManager};

verus! {

/// An XSync counter value split into its low and high 32 bits.
#[derive(Debug, Clone, Copy, PartialEq, Eq, Structural)]
pub struct SyncValue {
    pub lo: u32,
    pub hi: u32,
}

/// The client after asking it for an XSync update: when it has a counter,
/// is not already being waited for and its counter value can grow, the
/// value grows by one and the wait starts; the request carries the value's
/// low and high 32 bits.
pub open spec fn spec_sync_request(c: Client) -> (Client, Option<SyncValue>) {
    if c.sync.waiting || c.sync.counter.is_none() || c.sync.next_value == u64::MAX {
        (c, None)
    } else {
        let n = (c.sync.next_value + 1) as u64;
        (
            Client { sync: SyncState { next_value: n, waiting: true, ..c.sync }, ..c },
            Some(SyncValue { lo: (n % 0x1_0000_0000) as u32, hi: (n / 0x1_0000_0000) as u32 }),
        )
    }
}

/// The client resized to `w` x `h` during an interactive resize.
pub open spec fn spec_resized(c: Client, w: u16, h: u16) -> Client {
    Client { width: w, height: h, ..c }
}

impl Client {
    /// Asks for an XSync update of the client, as `spec_sync_request` says.
    pub fn sync_request(&mut self) -> (r: Option<SyncValue>)
        ensures
            (*final(self), r) == spec_sync_request(*old(self)),
    {
        if self.sync.waiting || self.sync.counter.is_none() || self.sync.next_value == u64::MAX {
            return None;
        }
        let n = self.sync.next_value + 1;
        self.sync = SyncState { next_value: n, waiting: true, ..self.sync };
        Some(SyncValue { lo: (n % 0x1_0000_0000) as u32, hi: (n / 0x1_0000_0000) as u32 })
    }

    pub fn resize_to(&mut self, w: u16, h: u16)
        ensures
            *final(self) == spec_resized(*old(self), w, h),
    {
        self.width = w;
        self.height = h;
    }

    pub fn move_to(&mut self, x: i16, y: i16)
        ensures
            *final(self) == (Client { x: x, y: y, ..*old(self) }),
    {
        self.x = x;
        self.y = y;
    }
}

/// What a pointer motion during a drag asks of the X server.
#[derive(Debug, Clone, Copy, PartialEq, Eq, Structural)]
pub enum DragEffect {
    Nothing,
    /// Move the frame (when the window is managed and framed) to (x, y).
    Move { window: u32, frame: Option<u32>, x: i16, y: i16 },
    /// Resize the frame and the client; send the XSync request, if any.
    Resize {
        window: u32,
        frame: Option<u32>,
        client_width: u16,
        client_height: u16,
        frame_width: u32,
        frame_height: u32,
        border: u16,
        title: u16,
        sync: Option<SyncValue>,
    },
}

/// The pointer positions at which a drag step stays within the X
/// coordinate range.
pub open spec fn drag_ok(d: DragState, sw: u16, sh: u16, root_x: i16, root_y: i16) -> bool {
    match d {
        DragState::Moving { start_pointer_x, start_pointer_y, start_frame_x, start_frame_y, .. } => {
            &&& fits_i16(root_x - start_pointer_x)
            &&& fits_i16(root_y - start_pointer_y)
            &&& fits_i16(start_frame_x + (root_x - start_pointer_x))
            &&& fits_i16(start_frame_y + (root_y - start_pointer_y))
            &&& (sw as i16) > i16::MIN
            &&& (sh as i16) > i16::MIN
        },
        DragState::Resizing { start_pointer_x, start_pointer_y, start_width, start_height, .. } => {
            &&& fits_i16(root_x - start_pointer_x)
            &&& fits_i16(root_y - start_pointer_y)
            &&& fits_i16((start_width as i16) + (root_x - start_pointer_x))
            &&& fits_i16((start_height as i16) + (root_y - start_pointer_y))
        },
        DragState::Idle => true,
    }
}

/// The pointer shape shown over a part of a frame.
#[derive(Debug, Clone, Copy, PartialEq, Eq, Structural)]
pub enum CursorShape {
    Normal,
    Move,
    ResizeNorthWest,
    ResizeNorthEast,
    ResizeSouthWest,
    ResizeSouthEast,
    ResizeNorth,
    ResizeSouth,
    ResizeEast,
    ResizeWest,
    Hand,
}

/// The pointer shape over `part`: a resize arrow on the borders and
/// corners, a hand on the close button, the move cross on the title bar,
/// the normal arrow elsewhere.
pub open spec fn spec_cursor_for_part(part: FramePart) -> CursorShape {
    match part {
        FramePart::CornerTopLeft => CursorShape::ResizeNorthWest,
        FramePart::CornerTopRight => CursorShape::ResizeNorthEast,
        FramePart::CornerBottomLeft => CursorShape::ResizeSouthWest,
        FramePart::CornerBottomRight => CursorShape::ResizeSouthEast,
        FramePart::LeftBorder => CursorShape::ResizeWest,
        FramePart::RightBorder => CursorShape::ResizeEast,
        FramePart::TopBorder => CursorShape::ResizeNorth,
        FramePart::BottomBorder => CursorShape::ResizeSouth,
        FramePart::CloseButton => CursorShape::Hand,
        FramePart::TitleBar => CursorShape::Move,
        _ => CursorShape::Normal,
    }
}

/// The pointer shape over `part`.
pub fn cursor_for_part(part: FramePart) -> (r: CursorShape)
    ensures
        r == spec_cursor_for_part(part),
{
    match part {
        FramePart::CornerTopLeft => CursorShape::ResizeNorthWest,
        FramePart::CornerTopRight => CursorShape::ResizeNorthEast,
        FramePart::CornerBottomLeft => CursorShape::ResizeSouthWest,
        FramePart::CornerBottomRight => CursorShape::ResizeSouthEast,
        FramePart::LeftBorder => CursorShape::ResizeWest,
        FramePart::RightBorder => CursorShape::ResizeEast,
        FramePart::TopBorder => CursorShape::ResizeNorth,
        FramePart::BottomBorder => CursorShape::ResizeSouth,
        FramePart::CloseButton => CursorShape::Hand,
        FramePart::TitleBar => CursorShape::Move,
        _ => CursorShape::Normal,
    }
}

impl CursorShape {
    /// The name of the shape in a cursor theme.
    pub fn theme_name(&self) -> (r: String)
        ensures
            r@ == (match *self {
                CursorShape::Normal => "left_ptr"@,
                CursorShape::Move => "fleur"@,
                CursorShape::ResizeNorthWest => "top_left_corner"@,
                CursorShape::ResizeNorthEast => "top_right_corner"@,
                CursorShape::ResizeSouthWest => "bottom_left_corner"@,
                CursorShape::ResizeSouthEast => "bottom_right_corner"@,
                CursorShape::ResizeNorth => "top_side"@,
                CursorShape::ResizeSouth => "bottom_side"@,
                CursorShape::ResizeEast => "right_side"@,
                CursorShape::ResizeWest => "left_side"@,
                CursorShape::Hand => "hand2"@,
            }),
    {
        match self {
            CursorShape::Normal => String::from_str("left_ptr"),
            CursorShape::Move => String::from_str("fleur"),
            CursorShape::ResizeNorthWest => String::from_str("top_left_corner"),
            CursorShape::ResizeNorthEast => String::from_str("top_right_corner"),
            CursorShape::ResizeSouthWest => String::from_str("bottom_left_corner"),
            CursorShape::ResizeSouthEast => String::from_str("bottom_right_corner"),
            CursorShape::ResizeNorth => String::from_str("top_side"),
            CursorShape::ResizeSouth => String::from_str("bottom_side"),
            CursorShape::ResizeEast => String::from_str("right_side"),
            CursorShape::ResizeWest => String::from_str("left_side"),
            CursorShape::Hand => String::from_str("hand2"),
        }
    }
}

/// Whether following the pointer to (`root_x`, `root_y`) stays within the
/// X coordinate range for drag `d` on a `sw` x `sh` screen.
pub fn drag_in_range(d: &DragState, sw: u16, sh: u16, root_x: i16, root_y: i16) -> (r: bool)
    ensures
        r == drag_ok(*d, sw, sh, root_x, root_y),
{
    let lo: i32 = -32768;
    let hi: i32 = 32767;
    let fits = |v: i32| -> (b: bool)
        ensures
            b == (lo <= v <= hi),
        { lo <= v && v <= hi };
    match d {
        DragState::Moving { start_pointer_x, start_pointer_y, start_frame_x, start_frame_y, .. } => {
            let dx: i32 = root_x as i32 - *start_pointer_x as i32;
            let dy: i32 = root_y as i32 - *start_pointer_y as i32;
            fits(dx) && fits(dy) && fits(*start_frame_x as i32 + dx) && fits(*start_frame_y as i32 + dy) && (sw as i16)
                > i16::MIN && (sh as i16) > i16::MIN
        },
        DragState::Resizing { start_pointer_x, start_pointer_y, start_width, start_height, .. } => {
            let dx: i32 = root_x as i32 - *start_pointer_x as i32;
            let dy: i32 = root_y as i32 - *start_pointer_y as i32;
            fits(dx) && fits(dy) && fits((*start_width as i16) as i32 + dx) && fits((*start_height as i16) as i32 + dy)
        },
        DragState::Idle => true,
    }
}

/// The window a button press on `ev` concerns: a managed window clicked in
/// its client area (when framed), or the window of a clicked frame.
#[derive(Debug, Clone, Copy, PartialEq, Eq, Structural)]
pub struct PressTarget {
    pub window: u32,
    pub frame: u32,
    /// Whether the press went to the client rather than its frame.
    pub client_click: bool,
}

/// What a left click on a frame part leads to, after the pointer was
/// grabbed.
#[derive(Debug, Clone, Copy, PartialEq, Eq, Structural)]
pub enum PressAction {
    /// A move starts.
    StartMove,
    /// A resize from the bottom-right corner starts.
    StartResize,
    /// A double click on the title bar; the maximize toggle's geometry when
    /// double clicks maximize. The grab ends.
    DoubleClick { maximized: Option<WindowConfig> },
    /// The window is asked to close. The grab ends.
    Close,
    /// Nothing; the grab ends.
    Other,
}

impl WindowManager {
    /// The window a button press on `ev` concerns.
    pub fn press_target(&self, ev: u32) -> (r: Option<PressTarget>)
        requires
            self.wf(),
        ensures
            self.has_client(ev) ==> r == (match self.client_of(ev).frame {
                Some(f) => Some(PressTarget { window: ev, frame: f, client_click: true }),
                None => None,
            }),
            !self.has_client(ev) ==> (r is None <==> forall|j: int|
                0 <= j < self.clients@.len() ==> self.clients@[j].frame != Some(ev)),
            !self.has_client(ev) ==> (r matches Some(t) ==> !t.client_click && t.frame == ev && exists|j: int|
                0 <= j < self.clients@.len() && self.clients@[j].frame == Some(ev) && self.clients@[j].window == t.window),
    {
        match self.find_client(ev) {
            Some(i) => {
                proof {
                    self.lemma_client_of(i as int);
                }
                match self.clients[i].frame {
                    Some(f) => Some(PressTarget { window: ev, frame: f, client_click: true }),
                    None => None,
                }
            },
            None => match self.find_client_by_frame(ev) {
                Some(c) => Some(PressTarget { window: c.window, frame: ev, client_click: false }),
                None => None,
            },
        }
    }

    /// Handles a left click at (root_x, root_y) on frame part `part` of `w`
    /// at server time `time`, the frame having the geometry `geom` (x, y,
    /// width, height): a click on the title bar starts a move, or on the
    /// second click of a double click toggles maximization when double
    /// clicks maximize; the bottom-right corner starts a resize; the close
    /// button closes. A click that does not complete a double click is
    /// remembered.
    pub fn frame_click(
        &mut self,
        w: u32,
        part: FramePart,
        time: u32,
        root_x: i16,
        root_y: i16,
        geom: (i16, i16, u16, u16),
    ) -> (r: PressAction)
        requires
            old(self).wf(),
        ensures
            final(self).wf(),
            final(self).mru_stack@ == old(self).mru_stack@,
            final(self).focused_window == old(self).focused_window,
            ({
                let dbl = spec_is_double_click(w, time, old(self).last_click_window, old(self).last_click_time);
                &&& dbl ==> final(self).last_click_time == old(self).last_click_time && final(self).last_click_window
                    == old(self).last_click_window
                &&& !dbl ==> final(self).last_click_time == time && final(self).last_click_window == w
                &&& part == FramePart::TitleBar && !dbl ==> r == PressAction::StartMove && final(self).drag_state == (
                DragState::Moving {
                    window: w,
                    start_pointer_x: root_x,
                    start_pointer_y: root_y,
                    start_frame_x: geom.0,
                    start_frame_y: geom.1,
                    snap: SnapZone::NoZone,
                }) && final(self).clients@ == old(self).clients@
                &&& part == FramePart::TitleBar && dbl && !old(self).double_click_maximizes ==> r == (PressAction::DoubleClick {
                    maximized: None,
                }) && final(self).drag_state == DragState::Idle && final(self).clients@ == old(self).clients@
                &&& part == FramePart::TitleBar && dbl && old(self).double_click_maximizes ==> final(self).drag_state
                    == DragState::Idle && ({
                    let wa = spec_workarea(old(self).clients@, old(self).screen_width, old(self).screen_height);
                    if old(self).has_client(w) && old(self).client_of(w).frame.is_some() {
                        let (c2, cfg) = spec_toggle_maximize(old(self).client_of(w), wa);
                        r == (PressAction::DoubleClick { maximized: cfg }) && final(self).clients@ == old(
                            self,
                        ).clients@.update(old(self).client_index(w), c2)
                    } else {
                        r == (PressAction::DoubleClick { maximized: None }) && final(self).clients@ == old(self).clients@
                    }
                })
                &&& part == FramePart::CornerBottomRight ==> r == PressAction::StartResize && final(self).drag_state == (
                DragState::Resizing {
                    window: w,
                    start_pointer_x: root_x,
                    start_pointer_y: root_y,
                    start_width: geom.2,
                    start_height: geom.3,
                }) && final(self).clients@ == old(self).clients@
                &&& part == FramePart::CloseButton ==> r == PressAction::Close && final(self).drag_state == old(
                    self,
                ).drag_state && final(self).clients@ == old(self).clients@
                &&& part != FramePart::TitleBar && part != FramePart::CornerBottomRight && part != FramePart::CloseButton
                    ==> r == PressAction::Other && final(self).drag_state == old(self).drag_state && final(self).clients@
                    == old(self).clients@
            }),
    {
        let dbl = is_double_click(w, time, self.last_click_window, self.last_click_time);
        if !dbl {
            self.last_click_time = time;
            self.last_click_window = w;
        }
        proof {
            lemma_same_windows(old(self), self);
        }
        match part {
            FramePart::TitleBar => {
                if dbl {
                    self.drag_state = DragState::Idle;
                    proof {
                        lemma_same_windows(old(self), self);
                    }
                    let mut maximized = None;
                    if self.double_click_maximizes {
                        let wa = self.calculate_workarea();
                        maximized = self.toggle_maximize(w, wa);
                    }
                    PressAction::DoubleClick { maximized }
                } else {
                    self.drag_state =
                        DragState::Moving {
                            window: w,
                            start_pointer_x: root_x,
                            start_pointer_y: root_y,
                            start_frame_x: geom.0,
                            start_frame_y: geom.1,
                            snap: SnapZone::NoZone,
                        };
                    proof {
                        lemma_same_windows(old(self), self);
                    }
                    PressAction::StartMove
                }
            },
            FramePart::CornerBottomRight => {
                self.drag_state =
                    DragState::Resizing {
                        window: w,
                        start_pointer_x: root_x,
                        start_pointer_y: root_y,
                        start_width: geom.2,
                        start_height: geom.3,
                    };
                proof {
                    lemma_same_windows(old(self), self);
                }
                PressAction::StartResize
            },
            FramePart::CloseButton => PressAction::Close,
            _ => PressAction::Other,
        }
    }

    /// Ends a drag on release of button `button`: for the left button, a
    /// move that reached a snap zone asks for that snap, and any drag ends
    /// (the pointer grab with it). Gives whether a drag ended and the snap.
    pub fn button_release(&mut self, button: u8) -> (r: (bool, Option<(u32, SnapZone)>))
        ensures
            final(self).clients@ == old(self).clients@,
            final(self).mru_stack@ == old(self).mru_stack@,
            final(self).focused_window == old(self).focused_window,
            final(self).current_workspace == old(self).current_workspace,
            (button == 1 && old(self).drag_state != DragState::Idle) ==> final(self).drag_state == DragState::Idle
                && r.0 && r.1 == (match old(self).drag_state {
                DragState::Moving { window, snap, .. } => if snap != SnapZone::NoZone {
                    Some((window, snap))
                } else {
                    None
                },
                _ => None,
            }),
            !(button == 1 && old(self).drag_state != DragState::Idle) ==> final(self).drag_state == old(
                self,
            ).drag_state && r == (false, None::<(u32, SnapZone)>),
    {
        if button != 1 {
            return (false, None);
        }
        let snap = match self.drag_state {
            DragState::Moving { window, snap, .. } => if snap != SnapZone::NoZone {
                Some((window, snap))
            } else {
                None
            },
            DragState::Resizing { .. } => None,
            DragState::Idle => {
                return (false, None);
            },
        };
        self.drag_state = DragState::Idle;
        (true, snap)
    }

    /// Follows the pointer at (root_x, root_y) during a drag: a move takes
    /// the frame along and notes the snap zone under the pointer; a resize
    /// gives the client the dragged size (at least 100 x 50) and asks it
    /// for an XSync update, but waits while an update it was asked for is
    /// still outstanding: then nothing is resized.
    pub fn drag_motion(&mut self, root_x: i16, root_y: i16) -> (r: DragEffect)
        requires
            old(self).wf(),
            drag_ok(old(self).drag_state, old(self).screen_width, old(self).screen_height, root_x, root_y),
        ensures
            final(self).wf(),
            final(self).mru_stack@ == old(self).mru_stack@,
            final(self).focused_window == old(self).focused_window,
            final(self).current_workspace == old(self).current_workspace,
            match old(self).drag_state {
                DragState::Idle => r == DragEffect::Nothing && *final(self) == *old(self),
                DragState::Moving { window, start_pointer_x, start_pointer_y, start_frame_x, start_frame_y, snap } => {
                    let nx = (start_frame_x + (root_x - start_pointer_x)) as i16;
                    let ny = (start_frame_y + (root_y - start_pointer_y)) as i16;
                    let ns = spec_snap_zone(
                        root_x,
                        root_y,
                        old(self).screen_width as i16,
                        old(self).screen_height as i16,
                    );
                    &&& final(self).drag_state == (DragState::Moving {
                        window,
                        start_pointer_x,
                        start_pointer_y,
                        start_frame_x,
                        start_frame_y,
                        snap: ns,
                    })
                    &&& old(self).has_client(window) ==> {
                        let c = old(self).client_of(window);
                        &&& r == (DragEffect::Move { window, frame: c.frame, x: nx, y: ny })
                        &&& final(self).clients@ == old(self).clients@.update(
                            old(self).client_index(window),
                            Client { x: nx, y: ny, ..c },
                        )
                    }
                    &&& !old(self).has_client(window) ==> r == (DragEffect::Move { window, frame: None, x: nx, y: ny })
                        && final(self).clients@ == old(self).clients@
                },
                DragState::Resizing { window, start_pointer_x, start_pointer_y, start_width, start_height } => {
                    let (nw, nh) = spec_resize_dims(
                        start_width,
                        start_height,
                        (root_x - start_pointer_x) as i16,
                        (root_y - start_pointer_y) as i16,
                    );
                    &&& final(self).drag_state == old(self).drag_state
                    &&& old(self).has_client(window) && old(self).client_of(window).sync.counter.is_some()
                        && old(self).client_of(window).sync.waiting ==> r == DragEffect::Nothing
                        && final(self).clients@ == old(self).clients@
                    &&& old(self).has_client(window) && !(old(self).client_of(window).sync.counter.is_some()
                        && old(self).client_of(window).sync.waiting) ==> {
                        let c = old(self).client_of(window);
                        let (b, t) = spec_decoration(c);
                        let (c2, sync) = spec_sync_request(spec_resized(c, nw, nh));
                        &&& r == (DragEffect::Resize {
                            window,
                            frame: c.frame,
                            client_width: nw,
                            client_height: nh,
                            frame_width: (nw + 2 * b) as u32,
                            frame_height: (nh + t + 2 * b) as u32,
                            border: b,
                            title: t,
                            sync,
                        })
                        &&& final(self).clients@ == old(self).clients@.update(old(self).client_index(window), c2)
                    }
                    &&& !old(self).has_client(window) ==> r == DragEffect::Nothing && final(self).clients@ == old(
                        self,
                    ).clients@
                },
            },
    {
        match self.drag_state {
            DragState::Idle => DragEffect::Nothing,
            DragState::Moving { window, start_pointer_x, start_pointer_y, start_frame_x, start_frame_y, snap } => {
                let dx: i16 = root_x - start_pointer_x;
                let dy: i16 = root_y - start_pointer_y;
                let ns = snap_zone_for_pointer(root_x, root_y, self.screen_width as i16, self.screen_height as i16);
                let nx: i16 = start_frame_x + dx;
                let ny: i16 = start_frame_y + dy;
                self.drag_state =
                    DragState::Moving {
                        window,
                        start_pointer_x,
                        start_pointer_y,
                        start_frame_x,
                        start_frame_y,
                        snap: ns,
                    };
                proof {
                    lemma_same_windows(old(self), self);
                }
                match self.find_client(window) {
                    Some(i) => {
                        proof {
                            self.lemma_client_of(i as int);
                        }
                        let frame = self.clients[i].frame;
                        self.clients[i].move_to(nx, ny);
                        proof {
                            lemma_same_windows(old(self), self);
                        }
                        DragEffect::Move { window, frame, x: nx, y: ny }
                    },
                    None => {
                        proof {
                            lemma_same_windows(old(self), self);
                        }
                        DragEffect::Move { window, frame: None, x: nx, y: ny }
                    },
                }
            },
            DragState::Resizing { window, start_pointer_x, start_pointer_y, start_width, start_height } => {
                let dx: i16 = root_x - start_pointer_x;
                let dy: i16 = root_y - start_pointer_y;
                let (nw, nh) = resize_dims(start_width, start_height, dx, dy);
                match self.find_client(window) {
                    Some(i) => {
                        proof {
                            self.lemma_client_of(i as int);
                        }
                        if self.clients[i].sync.counter.is_some() && self.clients[i].sync.waiting {
                            return DragEffect::Nothing;
                        }
                        let frame = self.clients[i].frame;
                        let (b, t) = self.clients[i].decoration();
                        self.clients[i].resize_to(nw, nh);
                        let sync = self.clients[i].sync_request();
                        proof {
                            lemma_same_windows(old(self), self);
                        }
                        DragEffect::Resize {
                            window,
                            frame,
                            client_width: nw,
                            client_height: nh,
                            frame_width: nw as u32 + 2 * b as u32,
                            frame_height: nh as u32 + t as u32 + 2 * b as u32,
                            border: b,
                            title: t,
                            sync,
                        }
                    },
                    None => DragEffect::Nothing,
                }
            },
        }
    }

    /// Records the XSync alarm created for the managed window `w`; whether
    /// `w` is managed.
    pub fn attach_sync_alarm(&mut self, w: u32, alarm: u32) -> (r: bool)
        requires
            old(self).wf(),
        ensures
            final(self).wf(),
            r == old(self).has_client(w),
            final(self).mru_stack@ == old(self).mru_stack@,
            final(self).focused_window == old(self).focused_window,
            final(self).drag_state == old(self).drag_state,
            final(self).current_workspace == old(self).current_workspace,
            !old(self).has_client(w) ==> final(self).clients@ == old(self).clients@,
            old(self).has_client(w) ==> {
                let c = old(self).client_of(w);
                final(self).clients@ == old(self).clients@.update(
                    old(self).client_index(w),
                    Client { sync: SyncState { alarm: Some(alarm), ..c.sync }, ..c },
                )
            },
    {
        match self.find_client(w) {
            Some(i) => {
                proof {
                    self.lemma_client_of(i as int);
                }
                let s = self.clients[i].sync;
                self.clients[i].sync = SyncState { alarm: Some(alarm), ..s };
                proof {
                    lemma_same_windows(old(self), self);
                }
                true
            },
            None => false,
        }
    }

    /// Starts moving the managed window `w` on a client's request, from the
    /// pointer at (`pointer_x`, `pointer_y`) and the frame at (`frame_x`,
    /// `frame_y`); nothing happens for another window.
    pub fn begin_move(&mut self, w: u32, pointer_x: i16, pointer_y: i16, frame_x: i16, frame_y: i16) -> (r: bool)
        ensures
            r == old(self).has_client(w),
            r ==> final(self).drag_state == (DragState::Moving {
                window: w,
                start_pointer_x: pointer_x,
                start_pointer_y: pointer_y,
                start_frame_x: frame_x,
                start_frame_y: frame_y,
                snap: SnapZone::NoZone,
            }),
            !r ==> final(self).drag_state == old(self).drag_state,
            final(self).clients@ == old(self).clients@,
            final(self).mru_stack@ == old(self).mru_stack@,
            final(self).focused_window == old(self).focused_window,
            final(self).current_workspace == old(self).current_workspace,
    {
        if self.find_client(w).is_none() {
            return false;
        }
        self.drag_state = DragState::Moving {
            window: w,
            start_pointer_x: pointer_x,
            start_pointer_y: pointer_y,
            start_frame_x: frame_x,
            start_frame_y: frame_y,
            snap: SnapZone::NoZone,
        };
        true
    }

    /// Asks the managed window `w` for an XSync update.
    pub fn xsync_request(&mut self, w: u32) -> (r: Option<SyncValue>)
        requires
            old(self).wf(),
        ensures
            final(self).wf(),
            final(self).mru_stack@ == old(self).mru_stack@,
            final(self).focused_window == old(self).focused_window,
            final(self).drag_state == old(self).drag_state,
            !old(self).has_client(w) ==> r is None && final(self).clients@ == old(self).clients@,
            old(self).has_client(w) ==> {
                let (c2, req) = spec_sync_request(old(self).client_of(w));
                &&& r == req
                &&& final(self).clients@ == old(self).clients@.update(old(self).client_index(w), c2)
            },
    {
        match self.find_client(w) {
            Some(i) => {
                proof {
                    self.lemma_client_of(i as int);
                }
                let r = self.clients[i].sync_request();
                proof {
                    lemma_same_windows(old(self), self);
                }
                r
            },
            None => None,
        }
    }

    /// An XSync alarm fired: the first client waiting on it stops waiting.
    pub fn sync_alarm_fired(&mut self, alarm: u32) -> (r: Option<u32>)
        requires
            old(self).wf(),
        ensures
            final(self).wf(),
            final(self).mru_stack@ == old(self).mru_stack@,
            final(self).focused_window == old(self).focused_window,
            final(self).drag_state == old(self).drag_state,
            r is None ==> final(self).clients@ == old(self).clients@ && forall|j: int|
                0 <= j < old(self).clients@.len() ==> old(self).clients@[j].sync.alarm != Some(alarm),
            r matches Some(w) ==> exists|i: int|
                0 <= i < old(self).clients@.len() && old(self).clients@[i].window == w && old(self).clients@[i].sync.alarm
                    == Some(alarm) && (forall|j: int| 0 <= j < i ==> old(self).clients@[j].sync.alarm != Some(alarm))
                    && final(self).clients@ == old(self).clients@.update(
                    i,
                    Client {
                        sync: SyncState { waiting: false, ..old(self).clients@[i].sync },
                        ..old(self).clients@[i]
                    },
                ),
    {
        let mut i: usize = 0;
        while i < self.clients.len()
            invariant
                *self == *old(self),
                old(self).wf(),
                i <= self.clients@.len(),
                forall|j: int| 0 <= j < i ==> self.clients@[j].sync.alarm != Some(alarm),
            decreases self.clients.len() - i,
        {
            if self.clients[i].sync.alarm == Some(alarm) {
                let w = self.clients[i].window;
                let s = self.clients[i].sync;
                self.clients[i].sync = SyncState { waiting: false, ..s };
                proof {
                    lemma_same_windows(old(self), self);
                }
                return Some(w);
            }
            i += 1;
        }
        None
    }
}

} // verus!
