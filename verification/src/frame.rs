//! Frame geometry for decorated windows and hit testing of frame parts.

use vstd::prelude::*;

verus! {

/// Height of the title bar drawn above a client window.
pub const TITLE_HEIGHT: u16 = 24;

/// Width of the border drawn around a client window.
pub const BORDER_WIDTH: u16 = 4;

/// Side of the square corner areas that start a resize.
pub const RESIZE_HANDLE_SIZE: i16 = 10;

/// Geometry of a frame window and where the client sits inside it.
#[derive(Debug, Clone, Copy, PartialEq, Eq)]
pub struct FrameGeometry {
    pub x: i16,
    pub y: i16,
    pub width: u16,
    pub height: u16,
    pub client_x: i16,
    pub client_y: i16,
}

/// The part of a frame that a point falls on.
#[derive(Debug, PartialEq, Eq, Clone, Copy, Structural)]
pub enum FramePart {
    TitleBar,
    ClientArea,
    LeftBorder,
    RightBorder,
    BottomBorder,
    TopBorder,
    CornerTopLeft,
    CornerTopRight,
    CornerBottomLeft,
    CornerBottomRight,
    CloseButton,
    Outside,
}

/// `a - b` clamped to the range of `i16`.
pub open spec fn i16_sat_sub(a: int, b: int) -> i16 {
    if a - b < i16::MIN {
        i16::MIN
    } else if a - b > i16::MAX {
        i16::MAX
    } else {
        (a - b) as i16
    }
}

/// The part of a `width` x `height` frame that the frame-relative point (x, y) falls on.
pub open spec fn spec_hit_test(width: int, height: int, x: int, y: int) -> FramePart {
    let w = width;
    let h = height;
    let border = BORDER_WIDTH as int;
    let title_h = TITLE_HEIGHT as int;
    let m = RESIZE_HANDLE_SIZE as int;
    let close_x = w - 20;
    if x < 0 || y < 0 || x >= w || y >= h {
        FramePart::Outside
    } else if x < m && y < m {
        FramePart::CornerTopLeft
    } else if x > w - m && y < m {
        FramePart::CornerTopRight
    } else if x < m && y > h - m {
        FramePart::CornerBottomLeft
    } else if x > w - m && y > h - m {
        FramePart::CornerBottomRight
    } else if x < border {
        FramePart::LeftBorder
    } else if x > w - border {
        FramePart::RightBorder
    } else if y > h - border {
        FramePart::BottomBorder
    } else if 6 <= y < 18 && close_x <= x < close_x + 12 {
        FramePart::CloseButton
    } else if y < m {
        FramePart::TopBorder
    } else if y < title_h + border {
        FramePart::TitleBar
    } else {
        FramePart::ClientArea
    }
}

impl FrameGeometry {
    /// The frame that wraps a client at (x, y) of the given size with the given
    /// border and title bar; the frame origin is clamped to the range of `i16`.
    pub fn from_client(x: i16, y: i16, width: u16, height: u16, border_width: u16, title_height: u16) -> (r: Self)
        requires
            width + 2 * border_width <= u16::MAX,
            height + title_height + 2 * border_width <= u16::MAX,
            i16::MIN <= (title_height as i16) + (border_width as i16) <= i16::MAX,
        ensures
            r.x == i16_sat_sub(x as int, (border_width as i16) as int),
            r.y == i16_sat_sub(y as int, ((title_height as i16) + (border_width as i16)) as int),
            r.width == width + 2 * border_width,
            r.height == height + title_height + 2 * border_width,
            r.client_x == border_width as i16,
            r.client_y == (title_height + border_width) as i16,
    {
        let bw = border_width as i16;
        let top = title_height as i16 + bw;
        FrameGeometry {
            x: sat_sub_i16(x, bw),
            y: sat_sub_i16(y, top),
            width: width + 2 * border_width,
            height: height + title_height + 2 * border_width,
            client_x: bw,
            client_y: (title_height + border_width) as i16,
        }
    }

    /// Classifies the frame-relative point (x, y) of a `width` x `height`
    /// frame. The sizes are read as X coordinates (`i16`): a size above
    /// 32767 reads as negative, and every point of such a frame is outside.
    pub fn hit_test(width: u16, height: u16, x: i16, y: i16) -> (r: FramePart)
        ensures
            r == spec_hit_test((width as i16) as int, (height as i16) as int, x as int, y as int),
    {
        let w = (width as i16) as i32;
        let h = (height as i16) as i32;
        let x = x as i32;
        let y = y as i32;
        let border = BORDER_WIDTH as i32;
        let title_h = TITLE_HEIGHT as i32;
        let m = RESIZE_HANDLE_SIZE as i32;
        if x < 0 || y < 0 || x >= w || y >= h {
            return FramePart::Outside;
        }
        if x < m && y < m {
            return FramePart::CornerTopLeft;
        }
        if x > w - m && y < m {
            return FramePart::CornerTopRight;
        }
        if x < m && y > h - m {
            return FramePart::CornerBottomLeft;
        }
        if x > w - m && y > h - m {
            return FramePart::CornerBottomRight;
        }
        if x < border {
            return FramePart::LeftBorder;
        }
        if x > w - border {
            return FramePart::RightBorder;
        }
        if y > h - border {
            return FramePart::BottomBorder;
        }
        let close_x = w - 20;
        let btn_y: i32 = 6;
        let btn_size: i32 = 12;
        if y >= btn_y && y < btn_y + btn_size && x >= close_x && x < close_x + btn_size {
            return FramePart::CloseButton;
        }
        if y < m {
            return FramePart::TopBorder;
        }
        if y < title_h + border {
            return FramePart::TitleBar;
        }
        FramePart::ClientArea
    }
}

/// `a - b` saturating at the bounds of `i16`.
pub fn sat_sub_i16(a: i16, b: i16) -> (r: i16)
    ensures
        r == i16_sat_sub(a as int, b as int),
{
    let d = a as i32 - b as i32;
    if d < i16::MIN as i32 {
        i16::MIN
    } else if d > i16::MAX as i32 {
        i16::MAX
    } else {
        d as i16
    }
}

/// Points inside a frame are classified as some part of it, points outside
/// as outside.
pub proof fn lemma_hit_test_outside(width: u16, height: u16, x: i16, y: i16)
    ensures
        (spec_hit_test((width as i16) as int, (height as i16) as int, x as int, y as int) == FramePart::Outside)
            <==> (x < 0 || y < 0 || x >= (width as i16) || y >= (height as i16)),
{
}

/// A size up to 32767 reads as itself; a larger one as negative.
pub proof fn lemma_size_as_coordinate(size: u16)
    ensures
        size <= 32767 ==> (size as i16) as int == size as int,
        size > 32767 ==> (size as i16) < 0,
{
    assert(size <= 32767 ==> (size as i16) as int == size as int) by (bit_vector);
    assert(size > 32767 ==> (size as i16) < 0) by (bit_vector);
}

} // verus!
