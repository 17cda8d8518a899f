//! Decoding of the ICCCM/EWMH/Motif properties a window carries, and the
//! classification of a new window: its initial state flags, decorations and
//! stacking layer.

use vstd::prelude::*;
use crate::frame::{BORDER_WIDTH, TITLE_HEIGHT};
use crate::wm::client::{
    LAYER_BELOW, LAYER_DESKTOP, LAYER_DOCK, LAYER_FULLSCREEN, LAYER_NORMAL, LAYER_NOTIFICATION, LAYER_ONTOP,
};
use crate::wm::ops::StateAtoms;

verus! {

/// `WM_HINTS` flag: the input field is set.
pub const INPUT_HINT: u32 = 1;
/// `WM_HINTS` flag: the window group field is set.
pub const WINDOW_GROUP_HINT: u32 = 64;
/// `WM_HINTS` flag: the window wants attention.
pub const URGENCY_HINT: u32 = 256;
/// `_MOTIF_WM_HINTS` flag: the decorations field is set.
pub const MWM_HINT_DECORATIONS: u32 = 2;
/// `WM_NORMAL_HINTS` flags: minimum size, maximum size, window gravity.
pub const P_MIN_SIZE: u32 = 16;
pub const P_MAX_SIZE: u32 = 32;
pub const P_WIN_GRAVITY: u32 = 256;

/// `v[i]`, or `d` past the end.
pub open spec fn value_or(v: Seq<u32>, i: int, d: u32) -> u32 {
    if 0 <= i < v.len() { v[i] } else { d }
}

fn get_or(v: &[u32], i: usize, d: u32) -> (r: u32)
    ensures
        r == value_or(v@, i as int, d),
{
    if i < v.len() { v[i] } else { d }
}

/// What `WM_HINTS` (32-bit values) says: the group leader, whether the
/// window takes input focus, and whether it is urgent. Without values the
/// window takes input and is neither grouped nor urgent.
pub open spec fn spec_wm_hints(v: Seq<u32>) -> (Option<u32>, bool, bool) {
    if v.len() == 0 {
        (None, true, false)
    } else {
        let flags = v[0];
        let input = value_or(v, 1, 1);
        let group = value_or(v, 8, 0);
        (
            if flags & WINDOW_GROUP_HINT != 0 { Some(group) } else { None },
            if flags & INPUT_HINT != 0 { input != 0 } else { true },
            flags & URGENCY_HINT != 0,
        )
    }
}

/// Decodes `WM_HINTS`.
pub fn parse_wm_hints(v: &[u32]) -> (r: (Option<u32>, bool, bool))
    ensures
        r == spec_wm_hints(v@),
{
    if v.len() == 0 {
        return (None, true, false);
    }
    let flags = v[0];
    let input = get_or(v, 1, 1);
    let group = get_or(v, 8, 0);
    (
        if flags & WINDOW_GROUP_HINT != 0 { Some(group) } else { None },
        if flags & INPUT_HINT != 0 { input != 0 } else { true },
        flags & URGENCY_HINT != 0,
    )
}

/// What `_MOTIF_WM_HINTS` says: whether the window wants a frame and a
/// title. Without at least three values, or without the decorations flag,
/// it wants both.
pub open spec fn spec_motif_hints(v: Seq<u32>) -> (bool, bool) {
    if v.len() >= 3 && v[0] & MWM_HINT_DECORATIONS != 0 {
        (v[2] != 0, v[2] != 0)
    } else {
        (true, true)
    }
}

/// Decodes `_MOTIF_WM_HINTS`.
pub fn parse_motif_hints(v: &[u32]) -> (r: (bool, bool))
    ensures
        r == spec_motif_hints(v@),
{
    if v.len() >= 3 && v[0] & MWM_HINT_DECORATIONS != 0 {
        (v[2] != 0, v[2] != 0)
    } else {
        (true, true)
    }
}

/// What `WM_NORMAL_HINTS` says: (gravity, min width, min height, max width,
/// max height), the sizes truncated to the X types. With fewer than 15
/// values it says NorthWest gravity and no limits.
pub open spec fn spec_size_hints(v: Seq<u32>) -> (i32, i16, i16, u16, u16) {
    if v.len() < 15 {
        (1, 0, 0, 0, 0)
    } else {
        let flags = v[0];
        (
            if flags & P_WIN_GRAVITY != 0 && v.len() >= 18 { v[17] as i32 } else { 1 },
            if flags & P_MIN_SIZE != 0 { v[5] as i16 } else { 0 },
            if flags & P_MIN_SIZE != 0 { v[6] as i16 } else { 0 },
            if flags & P_MAX_SIZE != 0 { v[7] as u16 } else { 0 },
            if flags & P_MAX_SIZE != 0 { v[8] as u16 } else { 0 },
        )
    }
}

/// Decodes `WM_NORMAL_HINTS`.
pub fn parse_size_hints(v: &[u32]) -> (r: (i32, i16, i16, u16, u16))
    ensures
        r == spec_size_hints(v@),
{
    if v.len() < 15 {
        return (1, 0, 0, 0, 0);
    }
    let flags = v[0];
    let gravity: i32 = if flags & P_WIN_GRAVITY != 0 && v.len() >= 18 { v[17] as i32 } else { 1 };
    let min_w: i16 = if flags & P_MIN_SIZE != 0 { v[5] as i16 } else { 0 };
    let min_h: i16 = if flags & P_MIN_SIZE != 0 { v[6] as i16 } else { 0 };
    let max_w: u16 = if flags & P_MAX_SIZE != 0 { v[7] as u16 } else { 0 };
    let max_h: u16 = if flags & P_MAX_SIZE != 0 { v[8] as u16 } else { 0 };
    (gravity, min_w, min_h, max_w, max_h)
}

/// The four frame extents of `_GTK_FRAME_EXTENTS` (left, right, top,
/// bottom), missing ones 0.
pub fn parse_frame_extents(v: &[u32]) -> (r: (u32, u32, u32, u32))
    ensures
        r == (value_or(v@, 0, 0), value_or(v@, 1, 0), value_or(v@, 2, 0), value_or(v@, 3, 0)),
{
    (get_or(v, 0, 0), get_or(v, 1, 0), get_or(v, 2, 0), get_or(v, 3, 0))
}

/// The window-state flags a new window announces in `_NET_WM_STATE`.
#[derive(Debug, Clone, Copy, PartialEq, Eq, Structural)]
pub struct InitialState {
    pub is_fullscreen: bool,
    pub is_maximized: bool,
    pub is_modal: bool,
    pub is_sticky: bool,
    pub demands_attention: bool,
    pub skip_taskbar: bool,
    pub skip_pager: bool,
    pub is_shaded: bool,
    pub is_above: bool,
    pub is_below: bool,
}

pub open spec fn no_state() -> InitialState {
    InitialState {
        is_fullscreen: false,
        is_maximized: false,
        is_modal: false,
        is_sticky: false,
        demands_attention: false,
        skip_taskbar: false,
        skip_pager: false,
        is_shaded: false,
        is_above: false,
        is_below: false,
    }
}

/// The flags after one atom of the list (the first matching name counts).
pub open spec fn state_with_atom(s: InitialState, atom: u32, a: StateAtoms) -> InitialState {
    if atom == a.fullscreen {
        InitialState { is_fullscreen: true, ..s }
    } else if atom == a.maximized_vert || atom == a.maximized_horz {
        InitialState { is_maximized: true, ..s }
    } else if atom == a.modal {
        InitialState { is_modal: true, ..s }
    } else if atom == a.sticky {
        InitialState { is_sticky: true, ..s }
    } else if atom == a.demands_attention {
        InitialState { demands_attention: true, ..s }
    } else if atom == a.skip_taskbar {
        InitialState { skip_taskbar: true, ..s }
    } else if atom == a.skip_pager {
        InitialState { skip_pager: true, ..s }
    } else if atom == a.shaded {
        InitialState { is_shaded: true, ..s }
    } else if atom == a.above {
        InitialState { is_above: true, ..s }
    } else if atom == a.below {
        InitialState { is_below: true, ..s }
    } else {
        s
    }
}

/// The flags set by the atoms of a `_NET_WM_STATE` list.
pub open spec fn spec_initial_state(atoms: Seq<u32>, a: StateAtoms) -> InitialState
    decreases atoms.len(),
{
    if atoms.len() == 0 {
        no_state()
    } else {
        state_with_atom(spec_initial_state(atoms.drop_last(), a), atoms.last(), a)
    }
}

fn with_atom(s: InitialState, atom: u32, a: &StateAtoms) -> (r: InitialState)
    ensures
        r == state_with_atom(s, atom, *a),
{
    if atom == a.fullscreen {
        return InitialState { is_fullscreen: true, ..s };
    }
    if atom == a.maximized_vert || atom == a.maximized_horz {
        return InitialState { is_maximized: true, ..s };
    }
    if atom == a.modal {
        return InitialState { is_modal: true, ..s };
    }
    if atom == a.sticky {
        return InitialState { is_sticky: true, ..s };
    }
    if atom == a.demands_attention {
        return InitialState { demands_attention: true, ..s };
    }
    if atom == a.skip_taskbar {
        return InitialState { skip_taskbar: true, ..s };
    }
    if atom == a.skip_pager {
        return InitialState { skip_pager: true, ..s };
    }
    if atom == a.shaded {
        return InitialState { is_shaded: true, ..s };
    }
    if atom == a.above {
        return InitialState { is_above: true, ..s };
    }
    if atom == a.below {
        return InitialState { is_below: true, ..s };
    }
    s
}

/// The flags a new window announces in its `_NET_WM_STATE` list.
pub fn initial_state(atoms: &[u32], a: &StateAtoms) -> (r: InitialState)
    ensures
        r == spec_initial_state(atoms@, *a),
{
    let mut s = InitialState {
        is_fullscreen: false,
        is_maximized: false,
        is_modal: false,
        is_sticky: false,
        demands_attention: false,
        skip_taskbar: false,
        skip_pager: false,
        is_shaded: false,
        is_above: false,
        is_below: false,
    };
    let mut i: usize = 0;
    while i < atoms.len()
        invariant
            i <= atoms@.len(),
            s == spec_initial_state(atoms@.take(i as int), *a),
        decreases atoms.len() - i,
    {
        proof {
            assert(atoms@.take(i + 1).drop_last() == atoms@.take(i as int));
            assert(atoms@.take(i + 1).last() == atoms@[i as int]);
        }
        s = with_atom(s, atoms[i], a);
        i += 1;
    }
    proof {
        assert(atoms@.take(atoms@.len() as int) == atoms@);
    }
    s
}

/// The atoms of the EWMH window types, as interned on the X server.
#[derive(Debug, Clone, Copy, PartialEq, Eq, Structural)]
pub struct TypeAtoms {
    pub dock: u32,
    pub desktop: u32,
    pub dialog: u32,
    pub splash: u32,
    pub utility: u32,
    pub toolbar: u32,
    pub menu: u32,
    pub notification: u32,
}

/// What the window types of a new window say of it.
#[derive(Debug, Clone, Copy, PartialEq, Eq, Structural)]
pub struct WindowKind {
    pub is_dock: bool,
    pub is_desktop: bool,
    pub is_dialog: bool,
    pub is_splash: bool,
    pub is_utility: bool,
    pub is_toolbar: bool,
    pub is_menu: bool,
    pub is_notification: bool,
}

pub open spec fn spec_window_kind(types: Seq<u32>, t: TypeAtoms) -> WindowKind {
    WindowKind {
        is_dock: types.contains(t.dock),
        is_desktop: types.contains(t.desktop),
        is_dialog: types.contains(t.dialog),
        is_splash: types.contains(t.splash),
        is_utility: types.contains(t.utility),
        is_toolbar: types.contains(t.toolbar),
        is_menu: types.contains(t.menu),
        is_notification: types.contains(t.notification),
    }
}

fn has_atom(types: &[u32], x: u32) -> (r: bool)
    ensures
        r == types@.contains(x),
{
    let mut i: usize = 0;
    while i < types.len()
        invariant
            i <= types@.len(),
            forall|k: int| 0 <= k < i ==> types@[k] != x,
        decreases types.len() - i,
    {
        if types[i] == x {
            return true;
        }
        i += 1;
    }
    false
}

/// What the `_NET_WM_WINDOW_TYPE` list of a new window says of it.
pub fn window_kind(types: &[u32], t: &TypeAtoms) -> (r: WindowKind)
    ensures
        r == spec_window_kind(types@, *t),
{
    WindowKind {
        is_dock: has_atom(types, t.dock),
        is_desktop: has_atom(types, t.desktop),
        is_dialog: has_atom(types, t.dialog),
        is_splash: has_atom(types, t.splash),
        is_utility: has_atom(types, t.utility),
        is_toolbar: has_atom(types, t.toolbar),
        is_menu: has_atom(types, t.menu),
        is_notification: has_atom(types, t.notification),
    }
}

/// Border and title height of a new window's frame: none for fullscreen,
/// desktop, dock, splash and menu windows, for windows that refuse
/// decorations or draw their own; a border without title for toolbars,
/// utilities and windows that refuse a title; both otherwise.
pub open spec fn spec_new_decoration(
    k: WindowKind,
    s: InitialState,
    motif: (bool, bool),
    is_csd: bool,
) -> (u16, u16) {
    if s.is_fullscreen || k.is_desktop || k.is_dock || !motif.0 || is_csd || k.is_splash || k.is_menu {
        (0, 0)
    } else if !motif.1 || k.is_toolbar || k.is_utility {
        (BORDER_WIDTH, 0)
    } else {
        (BORDER_WIDTH, TITLE_HEIGHT)
    }
}

pub fn new_decoration(k: &WindowKind, s: &InitialState, motif: (bool, bool), is_csd: bool) -> (r: (u16, u16))
    ensures
        r == spec_new_decoration(*k, *s, motif, is_csd),
{
    if s.is_fullscreen || k.is_desktop || k.is_dock || !motif.0 || is_csd || k.is_splash || k.is_menu {
        (0, 0)
    } else if !motif.1 || k.is_toolbar || k.is_utility {
        (BORDER_WIDTH, 0)
    } else {
        (BORDER_WIDTH, TITLE_HEIGHT)
    }
}

/// Stacking layer of a new window: desktops lowest, then docks,
/// fullscreen, windows kept above, below, splash screens and menus (on
/// top), notifications, and ordinary windows.
pub open spec fn spec_new_layer(k: WindowKind, s: InitialState) -> u16 {
    if k.is_desktop {
        LAYER_DESKTOP
    } else if k.is_dock {
        LAYER_DOCK
    } else if s.is_fullscreen {
        LAYER_FULLSCREEN
    } else if s.is_above {
        LAYER_ONTOP
    } else if s.is_below {
        LAYER_BELOW
    } else if k.is_splash || k.is_menu {
        LAYER_ONTOP
    } else if k.is_notification {
        LAYER_NOTIFICATION
    } else {
        LAYER_NORMAL
    }
}

pub fn new_layer(k: &WindowKind, s: &InitialState) -> (r: u16)
    ensures
        r == spec_new_layer(*k, *s),
{
    if k.is_desktop {
        LAYER_DESKTOP
    } else if k.is_dock {
        LAYER_DOCK
    } else if s.is_fullscreen {
        LAYER_FULLSCREEN
    } else if s.is_above {
        LAYER_ONTOP
    } else if s.is_below {
        LAYER_BELOW
    } else if k.is_splash || k.is_menu {
        LAYER_ONTOP
    } else if k.is_notification {
        LAYER_NOTIFICATION
    } else {
        LAYER_NORMAL
    }
}

/// What a new window's frame adds. A window that does not ask for less
/// (not fullscreen, desktop, dock, splash, menu, toolbar or utility, no
/// client-side decorations, and Motif hints that allow decorations and a
/// title) gets a border and a title bar, whatever else it is: a dialog, a
/// notification or an ordinary window. Refusing decorations or drawing its
/// own removes both; toolbars, utilities and windows refusing a title keep
/// the border only. A title bar never comes without a border.
pub proof fn lemma_new_decoration(k: WindowKind, s: InitialState, motif: (bool, bool), is_csd: bool)
    ensures
        (!s.is_fullscreen && !k.is_desktop && !k.is_dock && !k.is_splash && !k.is_menu && !k.is_toolbar
            && !k.is_utility && motif == (true, true) && !is_csd) ==> spec_new_decoration(k, s, motif, is_csd) == (
            BORDER_WIDTH,
            TITLE_HEIGHT,
        ),
        (is_csd || !motif.0 || s.is_fullscreen || k.is_desktop || k.is_dock || k.is_splash || k.is_menu)
            ==> spec_new_decoration(k, s, motif, is_csd) == (0u16, 0u16),
        (!s.is_fullscreen && !k.is_desktop && !k.is_dock && !k.is_splash && !k.is_menu && motif.0 && !is_csd && (
        k.is_toolbar || k.is_utility || !motif.1)) ==> spec_new_decoration(k, s, motif, is_csd) == (BORDER_WIDTH, 0u16),
        spec_new_decoration(k, s, motif, is_csd).1 > 0 ==> spec_new_decoration(k, s, motif, is_csd).0 > 0,
        spec_new_decoration(WindowKind { is_dialog: true, ..k }, s, motif, is_csd) == spec_new_decoration(
            WindowKind { is_dialog: false, ..k },
            s,
            motif,
            is_csd,
        ),
{
}

} // verus!
