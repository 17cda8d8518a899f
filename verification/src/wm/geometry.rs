//! Geometry rules of the window manager: ICCCM gravity, configure-request
//! filtering, edge snapping, maximize and fullscreen geometry, interactive
//! resizing and double-click detection.

use vstd::prelude::*;
use crate::frame::{BORDER_WIDTH, TITLE_HEIGHT};
use crate::wm::client::{Client, spec_decoration_csd};

verus! {

/// Screen edge a window is dragged against.
#[derive(Debug, Clone, Copy, PartialEq, Eq, Structural)]
pub enum SnapZone {
    NoZone,
    Left,
    Right,
    Top,
}

/// Division by two rounding toward zero, as integer division does at run time.
pub open spec fn trunc_half(v: int) -> int {
    if v >= 0 {
        v / 2
    } else {
        -((-v) / 2)
    }
}

/// Offset (dx, dy) that ICCCM gravity `gravity` gives a client inside a frame
/// with equal left, right and bottom borders `fl` and top extent `ft`.
pub open spec fn gravity_offset(gravity: i32, fl: int, ft: int) -> (int, int) {
    let fr = fl;
    let fb = fl;
    if gravity == 5 {
        (trunc_half(fl - fr + 1), trunc_half(ft - fb + 1))
    } else if gravity == 2 {
        (trunc_half(fl - fr + 1), ft)
    } else if gravity == 8 {
        (trunc_half(fl - fr + 1), -fb)
    } else if gravity == 6 {
        (-fr, trunc_half(ft - fb + 1))
    } else if gravity == 4 {
        (fl, trunc_half(ft - fb + 1))
    } else if gravity == 1 {
        (fl, ft)
    } else if gravity == 3 {
        (-fr, ft)
    } else if gravity == 7 {
        (fl, -fb)
    } else if gravity == 9 {
        (-fr, -fb)
    } else {
        (0, 0)
    }
}

/// The left border and the top extent that gravity works with.
pub open spec fn gravity_extents(border: u16, title: u16) -> (int, int) {
    ((border as i16) as int, ((title + border) as i16) as int)
}

pub open spec fn fits_i16(v: int) -> bool {
    i16::MIN <= v <= i16::MAX
}

/// The inputs for which applying gravity stays within `i16` everywhere.
pub open spec fn gravitate_ok(gravity: i32, mode: i32, border: u16, title: u16, x: i16, y: i16) -> bool {
    let (fl, ft) = gravity_extents(border, title);
    let (dx, dy) = gravity_offset(gravity, fl, ft);
    let m = (mode as i16) as int;
    &&& title + border <= u16::MAX
    &&& fl > i16::MIN
    &&& fits_i16(ft - fl + 1)
    &&& fits_i16(-fl)
    &&& fits_i16(dx * m)
    &&& fits_i16(dy * m)
    &&& fits_i16(x + dx * m)
    &&& fits_i16(y + dy * m)
}

/// The point (x, y) moved by the gravity offset, scaled by `mode`.
pub open spec fn spec_gravitate(gravity: i32, mode: i32, border: u16, title: u16, x: i16, y: i16) -> (i16, i16) {
    let (fl, ft) = gravity_extents(border, title);
    let (dx, dy) = gravity_offset(gravity, fl, ft);
    let m = (mode as i16) as int;
    ((x + dx * m) as i16, (y + dy * m) as i16)
}

fn half_toward_zero(v: i32) -> (r: i32)
    requires
        v > i32::MIN,
    ensures
        r == trunc_half(v as int),
{
    if v >= 0 {
        v / 2
    } else {
        -((0 - v) / 2)
    }
}

/// Moves (x, y) by the offset that ICCCM gravity gives a client inside a
/// frame with the given border and title; `mode` 1 goes from client to
/// frame reference, -1 back.
pub fn gravitate(gravity: i32, mode: i32, border: u16, title: u16, x: &mut i16, y: &mut i16)
    requires
        gravitate_ok(gravity, mode, border, title, *old(x), *old(y)),
    ensures
        (*final(x), *final(y)) == spec_gravitate(gravity, mode, border, title, *old(x), *old(y)),
{
    let fl: i32 = (border as i16) as i32;
    let fr: i32 = fl;
    let ft: i32 = ((title + border) as i16) as i32;
    let fb: i32 = fl;
    let (dx, dy): (i32, i32) = if gravity == 5 {
        (half_toward_zero(fl - fr + 1), half_toward_zero(ft - fb + 1))
    } else if gravity == 2 {
        (half_toward_zero(fl - fr + 1), ft)
    } else if gravity == 8 {
        (half_toward_zero(fl - fr + 1), -fb)
    } else if gravity == 6 {
        (-fr, half_toward_zero(ft - fb + 1))
    } else if gravity == 4 {
        (fl, half_toward_zero(ft - fb + 1))
    } else if gravity == 1 {
        (fl, ft)
    } else if gravity == 3 {
        (-fr, ft)
    } else if gravity == 7 {
        (fl, -fb)
    } else if gravity == 9 {
        (-fr, -fb)
    } else {
        (0, 0)
    };
    let m: i32 = (mode as i16) as i32;
    proof {
        assert(-32768 <= dx <= 32767 && -32768 <= dy <= 32767);
        assert(dx * m == dx * m);
    }
    let sx: i32 = dx * m;
    let sy: i32 = dy * m;
    *x = (*x as i32 + sx) as i16;
    *y = (*y as i32 + sy) as i16;
}

/// Applying gravity with mode 1 and then with mode -1 gives the point back.
pub proof fn lemma_gravitate_round_trip(gravity: i32, border: u16, title: u16, x: i16, y: i16)
    requires
        gravitate_ok(gravity, 1, border, title, x, y),
        gravitate_ok(
            gravity,
            -1i32,
            border,
            title,
            spec_gravitate(gravity, 1, border, title, x, y).0,
            spec_gravitate(gravity, 1, border, title, x, y).1,
        ),
    ensures
        ({
            let (x1, y1) = spec_gravitate(gravity, 1, border, title, x, y);
            spec_gravitate(gravity, -1i32, border, title, x1, y1) == (x, y)
        }),
{
    assert((1i32 as i16) == 1i16) by (bit_vector);
    assert((-1i32 as i16) == -1i16) by (bit_vector);
}

/// Zone a window being moved snaps to when the pointer reaches a screen edge.
pub open spec fn spec_snap_zone(root_x: i16, root_y: i16, screen_w: i16, screen_h: i16) -> SnapZone {
    if root_x <= 0 {
        SnapZone::Left
    } else if root_x >= screen_w - 1 {
        SnapZone::Right
    } else if root_y <= 0 {
        SnapZone::Top
    } else {
        SnapZone::NoZone
    }
}

/// The snap zone for the pointer at (root_x, root_y): left and right screen
/// edges snap to halves, the top edge maximizes.
pub fn snap_zone_for_pointer(root_x: i16, root_y: i16, screen_w: i16, screen_h: i16) -> (r: SnapZone)
    requires
        screen_w > i16::MIN,
        screen_h > i16::MIN,
    ensures
        r == spec_snap_zone(root_x, root_y, screen_w, screen_h),
{
    if root_x <= 0 {
        SnapZone::Left
    } else if root_x >= screen_w - 1 {
        SnapZone::Right
    } else if root_y <= 0 {
        SnapZone::Top
    } else if root_y >= screen_h - 1 {
        SnapZone::NoZone
    } else {
        SnapZone::NoZone
    }
}

/// New frame geometry, client geometry of a snap.
#[derive(Debug, Clone, Copy, PartialEq, Eq, Structural)]
pub struct SnapGeometry {
    pub frame_x: i16,
    pub frame_y: i16,
    pub frame_width: u16,
    pub frame_height: u16,
    pub client_width: u16,
    pub client_height: u16,
}

/// `a - b` clamped at zero.
pub open spec fn sat_sub(a: int, b: int) -> int {
    if a - b < 0 { 0 } else { a - b }
}

/// Geometry of a window snapped to the left or right half of the work area
/// (x, y, w, h); other zones have none.
pub open spec fn spec_snap_geometry(zone: SnapZone, wa_x: i16, wa_y: i16, wa_w: u16, wa_h: u16) -> Option<SnapGeometry> {
    let half = wa_w / 2;
    let c_w = sat_sub(half as int, 2 * BORDER_WIDTH) as u16;
    let c_h = sat_sub(wa_h as int, TITLE_HEIGHT + 2 * BORDER_WIDTH) as u16;
    match zone {
        SnapZone::Left => Some(SnapGeometry {
            frame_x: wa_x,
            frame_y: wa_y,
            frame_width: half as u16,
            frame_height: wa_h,
            client_width: c_w,
            client_height: c_h,
        }),
        SnapZone::Right => Some(SnapGeometry {
            frame_x: (wa_x + (half as i16)) as i16,
            frame_y: wa_y,
            frame_width: half as u16,
            frame_height: wa_h,
            client_width: c_w,
            client_height: c_h,
        }),
        _ => None,
    }
}

/// The geometry a window takes when snapped into `zone` of the work area.
pub fn snap_geometry(zone: SnapZone, wa_x: i16, wa_y: i16, wa_w: u16, wa_h: u16) -> (r: Option<SnapGeometry>)
    requires
        zone == SnapZone::Right ==> fits_i16(wa_x + ((wa_w / 2) as i16)),
    ensures
        r == spec_snap_geometry(zone, wa_x, wa_y, wa_w, wa_h),
{
    let half: u16 = wa_w / 2;
    let c_w: u16 = half.saturating_sub(2 * BORDER_WIDTH);
    let c_h: u16 = wa_h.saturating_sub(TITLE_HEIGHT + 2 * BORDER_WIDTH);
    match zone {
        SnapZone::Left => Some(SnapGeometry {
            frame_x: wa_x,
            frame_y: wa_y,
            frame_width: half,
            frame_height: wa_h,
            client_width: c_w,
            client_height: c_h,
        }),
        SnapZone::Right => Some(SnapGeometry {
            frame_x: wa_x + (half as i16),
            frame_y: wa_y,
            frame_width: half,
            frame_height: wa_h,
            client_width: c_w,
            client_height: c_h,
        }),
        _ => None,
    }
}

/// Client size after dragging the bottom-right corner by (dx, dy) from a
/// start size, never narrower than 100 or lower than 50.
pub open spec fn spec_resize_dims(start_w: u16, start_h: u16, dx: i16, dy: i16) -> (u16, u16) {
    let w = (start_w as i16) + dx;
    let h = (start_h as i16) + dy;
    ((if w > 100 { w } else { 100 }) as u16, (if h > 50 { h } else { 50 }) as u16)
}

/// New client size during an interactive resize.
pub fn resize_dims(start_w: u16, start_h: u16, dx: i16, dy: i16) -> (r: (u16, u16))
    requires
        fits_i16((start_w as i16) + dx),
        fits_i16((start_h as i16) + dy),
    ensures
        r == spec_resize_dims(start_w, start_h, dx, dy),
        r.0 >= 100,
        r.1 >= 50,
{
    let w: i16 = start_w as i16 + dx;
    let h: i16 = start_h as i16 + dy;
    let w2: i16 = if w > 100 { w } else { 100 };
    let h2: i16 = if h > 50 { h } else { 50 };
    (w2 as u16, h2 as u16)
}

/// Two presses on the same window less than 400 ms apart (with wrap-around
/// of the 32-bit server time) form a double click.
pub open spec fn spec_is_double_click(win: u32, time: u32, last_window: u32, last_time: u32) -> bool {
    win == last_window && (if time >= last_time { time - last_time } else { time - last_time + 0x1_0000_0000 }) < 400
}

/// Whether a press on `win` at `time` completes a double click.
pub fn is_double_click(win: u32, time: u32, last_window: u32, last_time: u32) -> (r: bool)
    ensures
        r == spec_is_double_click(win, time, last_window, last_time),
{
    win == last_window && time.wrapping_sub(last_time) < 400
}

/// What a ConfigureRequest of a managed client leads to: which frame values
/// to change, the requested client position and size, and the frame origin
/// that puts the client at that position.
#[derive(Debug, Clone, Copy, PartialEq, Eq, Structural)]
pub struct ConfigurePlan {
    pub set_x: bool,
    pub set_y: bool,
    pub set_width: bool,
    pub set_height: bool,
    pub set_sibling: bool,
    pub set_stack_mode: bool,
    pub x: i16,
    pub y: i16,
    pub width: u16,
    pub height: u16,
    pub frame_x: i16,
    pub frame_y: i16,
}

/// Bits of an X ConfigureWindow value mask.
pub const CONFIG_X: u16 = 1;
pub const CONFIG_Y: u16 = 2;
pub const CONFIG_WIDTH: u16 = 4;
pub const CONFIG_HEIGHT: u16 = 8;
pub const CONFIG_SIBLING: u16 = 32;
pub const CONFIG_STACK_MODE: u16 = 64;

/// How far a change of size moves the client's reference point for gravity
/// `gravity` (dw, dh), each truncated to `i16`.
pub open spec fn size_change_shift(gravity: i32, cur_w: u16, cur_h: u16, req_w: u16, req_h: u16) -> (int, int) {
    let hw = (trunc_half(cur_w - req_w) as i16) as int;
    let hh = (trunc_half(cur_h - req_h) as i16) as int;
    let fw = ((cur_w - req_w) as i16) as int;
    let fh = ((cur_h - req_h) as i16) as int;
    if gravity == 5 {
        (hw, hh)
    } else if gravity == 2 {
        (hw, 0)
    } else if gravity == 8 {
        (hw, fh)
    } else if gravity == 6 {
        (fw, hh)
    } else if gravity == 4 {
        (0, hh)
    } else if gravity == 3 {
        (fw, 0)
    } else if gravity == 7 {
        (0, fh)
    } else if gravity == 9 {
        (fw, fh)
    } else {
        (0, 0)
    }
}

/// The request mask after fullscreen and maximized windows lose their
/// geometry bits.
pub open spec fn locked_mask_bit(c: Client, mask: u16, bit: u16) -> bool {
    (mask & bit) != 0 && !((c.state.is_fullscreen || c.state.is_maximized) && (bit == CONFIG_X || bit == CONFIG_Y || bit
        == CONFIG_WIDTH || bit == CONFIG_HEIGHT))
}

/// The requested client position before gravity, with unrequested
/// coordinates taken from the current position.
pub open spec fn base_request(c: Client, mask: u16, x: i16, y: i16) -> (int, int) {
    let (b, t) = spec_decoration_csd(c);
    (
        if locked_mask_bit(c, mask, CONFIG_X) { x as int } else { c.x + ((b as i16) as int) },
        if locked_mask_bit(c, mask, CONFIG_Y) { y as int } else { c.y + (((t + b) as i16) as int) },
    )
}

/// The requested position after gravity and after the shift caused by a
/// size change; and whether X and Y are now part of the request.
pub open spec fn gravitated_request(c: Client, mask: u16, x: i16, y: i16, w: u16, h: u16) -> (int, int, bool, bool) {
    let (b, t) = spec_decoration_csd(c);
    let (bx, by) = base_request(c, mask, x, y);
    let has_x = locked_mask_bit(c, mask, CONFIG_X);
    let has_y = locked_mask_bit(c, mask, CONFIG_Y);
    let has_w = locked_mask_bit(c, mask, CONFIG_WIDTH);
    let has_h = locked_mask_bit(c, mask, CONFIG_HEIGHT);
    let req_w = if has_w { w } else { c.width };
    let req_h = if has_h { h } else { c.height };
    let (gx, gy) = spec_gravitate(c.hints.gravity, 1, b, t, bx as i16, by as i16);
    let gx2 = if has_x || has_y { if has_x { gx as int } else { bx } } else { bx };
    let gy2 = if has_x || has_y { if has_y { gy as int } else { by } } else { by };
    let (dw, dh) = size_change_shift(c.hints.gravity, c.width, c.height, req_w, req_h);
    let shift_x = !has_x && has_w && dw != 0;
    let shift_y = !has_y && has_h && dh != 0;
    (
        if shift_x { c.x + ((b as i16) as int) + dw } else { gx2 },
        if shift_y { c.y + (((t + b) as i16) as int) + dh } else { gy2 },
        has_x || shift_x,
        has_y || shift_y,
    )
}

/// The plan for a ConfigureRequest (value mask, x, y, width, height) of client
/// `c`: locked and redundant parts are dropped, gravity is applied, and
/// desktop windows keep their place in the stack.
pub open spec fn spec_configure_plan(c: Client, mask: u16, x: i16, y: i16, w: u16, h: u16) -> ConfigurePlan {
    let (b, t) = spec_decoration_csd(c);
    let (rx, ry, has_x, has_y) = gravitated_request(c, mask, x, y, w, h);
    let has_w = locked_mask_bit(c, mask, CONFIG_WIDTH);
    let has_h = locked_mask_bit(c, mask, CONFIG_HEIGHT);
    let req_w = if has_w { w } else { c.width };
    let req_h = if has_h { h } else { c.height };
    let frame_x = rx - ((b as i16) as int);
    let frame_y = ry - (((t + b) as i16) as int);
    ConfigurePlan {
        set_x: has_x && frame_x != c.x,
        set_y: has_y && frame_y != c.y,
        set_width: has_w && req_w != c.width,
        set_height: has_h && req_h != c.height,
        set_sibling: (mask & CONFIG_SIBLING) != 0 && !c.state.is_desktop,
        set_stack_mode: (mask & CONFIG_STACK_MODE) != 0 && !c.state.is_desktop,
        x: rx as i16,
        y: ry as i16,
        width: req_w,
        height: req_h,
        frame_x: frame_x as i16,
        frame_y: frame_y as i16,
    }
}

/// Gravity offsets for a frame with border `b` and title `t`.
pub(crate) fn gravity_offsets(gravity: i32, b: u16, t: u16) -> (r: (i32, i32))
    requires
        b <= BORDER_WIDTH,
        t <= TITLE_HEIGHT,
    ensures
        r.0 == gravity_offset(gravity, gravity_extents(b, t).0, gravity_extents(b, t).1).0,
        r.1 == gravity_offset(gravity, gravity_extents(b, t).0, gravity_extents(b, t).1).1,
        -100 <= r.0 <= 100,
        -100 <= r.1 <= 100,
{
    let fl: i32 = b as i32;
    let ft: i32 = (t + b) as i32;
    if gravity == 5 {
        (0, (ft - fl + 1) / 2)
    } else if gravity == 2 {
        (0, ft)
    } else if gravity == 8 {
        (0, -fl)
    } else if gravity == 6 {
        (-fl, (ft - fl + 1) / 2)
    } else if gravity == 4 {
        (fl, (ft - fl + 1) / 2)
    } else if gravity == 1 {
        (fl, ft)
    } else if gravity == 3 {
        (-fl, ft)
    } else if gravity == 7 {
        (fl, -fl)
    } else if gravity == 9 {
        (-fl, -fl)
    } else {
        (0, 0)
    }
}

/// The requests for which the plan never leaves `i16`: each position it
/// computes, on the way it computes it, fits.
pub open spec fn configure_request_ok(c: Client, mask: u16, x: i16, y: i16, w: u16, h: u16) -> bool {
    let (b, t) = spec_decoration_csd(c);
    let (bx, by) = base_request(c, mask, x, y);
    let (rx, ry, has_x2, has_y2) = gravitated_request(c, mask, x, y, w, h);
    let has_x = locked_mask_bit(c, mask, CONFIG_X);
    let has_y = locked_mask_bit(c, mask, CONFIG_Y);
    let has_w = locked_mask_bit(c, mask, CONFIG_WIDTH);
    let has_h = locked_mask_bit(c, mask, CONFIG_HEIGHT);
    let req_w = if has_w { w } else { c.width };
    let req_h = if has_h { h } else { c.height };
    let (dw, dh) = size_change_shift(c.hints.gravity, c.width, c.height, req_w, req_h);
    &&& (!has_x ==> fits_i16(c.x + ((b as i16) as int)))
    &&& (!has_y ==> fits_i16(c.y + (((t + b) as i16) as int)))
    &&& ((has_x || has_y) ==> gravitate_ok(c.hints.gravity, 1, b, t, bx as i16, by as i16))
    &&& ((!has_x && has_w && dw != 0) ==> fits_i16(c.x + ((b as i16) as int) + dw))
    &&& ((!has_y && has_h && dh != 0) ==> fits_i16(c.y + (((t + b) as i16) as int) + dh))
    &&& fits_i16(rx - ((b as i16) as int))
    &&& fits_i16(ry - (((t + b) as i16) as int))
}

/// Whether the plan for a configure request stays within `i16`, as
/// `configure_request_ok` says.
fn configure_request_fits(c: &Client, mask: u16, x: i16, y: i16, w: u16, h: u16) -> (r: bool)
    ensures
        r == configure_request_ok(*c, mask, x, y, w, h),
{
    let locked = c.state.is_fullscreen || c.state.is_maximized;
    let has_x = (mask & CONFIG_X) != 0 && !locked;
    let has_y = (mask & CONFIG_Y) != 0 && !locked;
    let has_w = (mask & CONFIG_WIDTH) != 0 && !locked;
    let has_h = (mask & CONFIG_HEIGHT) != 0 && !locked;
    let (b, t) = c.decoration_csd();
    let bi: i32 = b as i32;
    let ti: i32 = (t + b) as i32;
    let cx: i32 = c.x as i32 + bi;
    let cy: i32 = c.y as i32 + ti;
    if !has_x && !(-32768 <= cx && cx <= 32767) {
        return false;
    }
    if !has_y && !(-32768 <= cy && cy <= 32767) {
        return false;
    }
    let bx: i32 = if has_x { x as i32 } else { cx };
    let by: i32 = if has_y { y as i32 } else { cy };
    let (dx, dy) = gravity_offsets(c.hints.gravity, b, t);
    let gx: i32 = bx + dx;
    let gy: i32 = by + dy;
    if (has_x || has_y) && !(-32768 <= gx && gx <= 32767 && -32768 <= gy && gy <= 32767) {
        return false;
    }
    let req_w: u16 = if has_w { w } else { c.width };
    let req_h: u16 = if has_h { h } else { c.height };
    let cw: i32 = c.width as i32;
    let ch: i32 = c.height as i32;
    let rw: i32 = req_w as i32;
    let rh: i32 = req_h as i32;
    let hw: i16 = half_toward_zero(cw - rw) as i16;
    let hh: i16 = half_toward_zero(ch - rh) as i16;
    let fw: i16 = (cw - rw) as i16;
    let fh: i16 = (ch - rh) as i16;
    let g = c.hints.gravity;
    let (dw, dh): (i16, i16) = if g == 5 {
        (hw, hh)
    } else if g == 2 {
        (hw, 0)
    } else if g == 8 {
        (hw, fh)
    } else if g == 6 {
        (fw, hh)
    } else if g == 4 {
        (0, hh)
    } else if g == 3 {
        (fw, 0)
    } else if g == 7 {
        (0, fh)
    } else if g == 9 {
        (fw, fh)
    } else {
        (0, 0)
    };
    let shift_x = !has_x && has_w && dw != 0;
    let shift_y = !has_y && has_h && dh != 0;
    let rx: i32 = if shift_x { cx + dw as i32 } else if has_x { gx } else { bx };
    let ry: i32 = if shift_y { cy + dh as i32 } else if has_y { gy } else { by };
    if shift_x && !(-32768 <= rx && rx <= 32767) {
        return false;
    }
    if shift_y && !(-32768 <= ry && ry <= 32767) {
        return false;
    }
    let fx: i32 = rx - bi;
    let fy: i32 = ry - ti;
    -32768 <= fx && fx <= 32767 && -32768 <= fy && fy <= 32767
}

/// Plans a configure request whose plan stays within the X coordinate
/// range; none for another one, which is left as it is.
pub fn plan_configure_request_checked(c: &Client, mask: u16, x: i16, y: i16, w: u16, h: u16) -> (r: Option<
    ConfigurePlan,
>)
    ensures
        configure_request_ok(*c, mask, x, y, w, h) ==> r == Some(spec_configure_plan(*c, mask, x, y, w, h)),
        !configure_request_ok(*c, mask, x, y, w, h) ==> r is None,
{
    if configure_request_fits(c, mask, x, y, w, h) {
        Some(plan_configure_request(c, mask, x, y, w, h))
    } else {
        None
    }
}

/// Plans the handling of a ConfigureRequest (value mask, x, y, width,
/// height) for a managed client.
pub fn plan_configure_request(c: &Client, mask: u16, x: i16, y: i16, w: u16, h: u16) -> (r: ConfigurePlan)
    requires
        configure_request_ok(*c, mask, x, y, w, h),
    ensures
        r == spec_configure_plan(*c, mask, x, y, w, h),
{
    let locked = c.state.is_fullscreen || c.state.is_maximized;
    let has_x0 = (mask & CONFIG_X) != 0 && !locked;
    let has_y0 = (mask & CONFIG_Y) != 0 && !locked;
    let has_w = (mask & CONFIG_WIDTH) != 0 && !locked;
    let has_h = (mask & CONFIG_HEIGHT) != 0 && !locked;
    let (b, t) = c.decoration_csd();
    let bi: i16 = b as i16;
    let ti: i16 = (t + b) as i16;
    let mut req_x: i16 = if has_x0 { x } else { c.x + bi };
    let mut req_y: i16 = if has_y0 { y } else { c.y + ti };
    let req_w: u16 = if has_w { w } else { c.width };
    let req_h: u16 = if has_h { h } else { c.height };
    if has_x0 || has_y0 {
        let mut tx = req_x;
        let mut ty = req_y;
        gravitate(c.hints.gravity, 1, b, t, &mut tx, &mut ty);
        if has_x0 {
            req_x = tx;
        }
        if has_y0 {
            req_y = ty;
        }
    }
    let cw: i32 = c.width as i32;
    let ch: i32 = c.height as i32;
    let rw: i32 = req_w as i32;
    let rh: i32 = req_h as i32;
    let hw: i16 = half_toward_zero(cw - rw) as i16;
    let hh: i16 = half_toward_zero(ch - rh) as i16;
    let fw: i16 = (cw - rw) as i16;
    let fh: i16 = (ch - rh) as i16;
    let g = c.hints.gravity;
    let (dw, dh): (i16, i16) = if g == 5 {
        (hw, hh)
    } else if g == 2 {
        (hw, 0)
    } else if g == 8 {
        (hw, fh)
    } else if g == 6 {
        (fw, hh)
    } else if g == 4 {
        (0, hh)
    } else if g == 3 {
        (fw, 0)
    } else if g == 7 {
        (0, fh)
    } else if g == 9 {
        (fw, fh)
    } else {
        (0, 0)
    };
    let mut has_x = has_x0;
    let mut has_y = has_y0;
    if !has_x0 && has_w && dw != 0 {
        req_x = (c.x + bi) + dw;
        has_x = true;
    }
    if !has_y0 && has_h && dh != 0 {
        req_y = (c.y + ti) + dh;
        has_y = true;
    }
    let frame_x: i16 = req_x - bi;
    let frame_y: i16 = req_y - ti;
    ConfigurePlan {
        set_x: has_x && frame_x != c.x,
        set_y: has_y && frame_y != c.y,
        set_width: has_w && req_w != c.width,
        set_height: has_h && req_h != c.height,
        set_sibling: (mask & CONFIG_SIBLING) != 0 && !c.state.is_desktop,
        set_stack_mode: (mask & CONFIG_STACK_MODE) != 0 && !c.state.is_desktop,
        x: req_x,
        y: req_y,
        width: req_w,
        height: req_h,
        frame_x,
        frame_y,
    }
}

/// Whether a plan changes anything about the frame.
pub open spec fn spec_plan_changes(p: ConfigurePlan) -> bool {
    p.set_x || p.set_y || p.set_width || p.set_height || p.set_sibling || p.set_stack_mode
}

/// Fullscreen and maximized windows cannot move or resize themselves, and
/// desktop windows cannot restack themselves.
pub proof fn lemma_configure_respects_locks(c: Client, mask: u16, x: i16, y: i16, w: u16, h: u16)
    ensures
        ({
            let p = spec_configure_plan(c, mask, x, y, w, h);
            &&& (c.state.is_fullscreen || c.state.is_maximized) ==> !p.set_x && !p.set_y && !p.set_width && !p.set_height
            &&& c.state.is_desktop ==> !p.set_sibling && !p.set_stack_mode
        }),
{
}

/// A request that only repeats the current size changes neither size.
pub proof fn lemma_configure_same_size_is_noop(c: Client, mask: u16, x: i16, y: i16)
    ensures
        ({
            let p = spec_configure_plan(c, mask, x, y, c.width, c.height);
            !p.set_width && !p.set_height
        }),
{
}

} // verus!
