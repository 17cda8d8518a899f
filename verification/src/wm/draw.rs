//! What a frame's decoration is drawn with: the background, the title text
//! and the three window buttons, as rectangles and colours.

use vstd::prelude::*;
use crate::wm::geometry::fits_i16;

verus! {

/// A filled rectangle in frame coordinates.
#[derive(Debug, Clone, Copy, PartialEq, Eq, Structural)]
pub struct FillRect {
    pub x: i16,
    pub y: i16,
    pub width: u16,
    pub height: u16,
    /// The colour, as 0xRRGGBB.
    pub color: u32,
}

/// How a frame's decoration is drawn.
pub struct DecorationPlan {
    /// The whole frame, in the background colour.
    pub background: FillRect,
    /// Where the title text starts (its baseline) and its colour, when a
    /// title is drawn.
    pub title_at: Option<(i16, i16, u32)>,
    /// The close, maximize and minimize buttons, in that order.
    pub buttons: Vec<FillRect>,
}

pub const DECORATION_BACKGROUND: u32 = 0x3c3c3c;
pub const TITLE_TEXT_COLOR: u32 = 0xe0e0e0;
pub const CLOSE_BUTTON_COLOR: u32 = 0xff5555;
pub const MAXIMIZE_BUTTON_COLOR: u32 = 0x50fa7b;
pub const MINIMIZE_BUTTON_COLOR: u32 = 0xf1fa8c;

/// The baseline of the title text for a title bar `title_height` high
/// (the height taken as `i16`, its tenth rounded toward zero).
pub open spec fn title_baseline(title_height: u16) -> int {
    let v = (title_height as i16) as int;
    if v >= 0 {
        15 + v / 10
    } else {
        15 - (-v) / 10
    }
}

/// The button of colour `color` whose left edge is `offset` left of the
/// frame's right edge.
pub open spec fn button_at(width: u16, offset: int, color: u32) -> FillRect {
    FillRect { x: ((width as i16) - offset) as i16, y: 6, width: 12, height: 12, color }
}

/// How a `width` x `height` frame with a title bar `title_height` high is
/// decorated: nothing for an empty frame; else the background over the
/// whole frame, and, when there is a title bar and its font could be
/// opened, the title (when not empty) 12 pixels in, and the close,
/// maximize and minimize buttons 20, 40 and 60 pixels left of the right
/// edge.
pub fn decoration_plan(width: u16, height: u16, title_height: u16, has_title: bool, font_opened: bool) -> (r: Option<
    DecorationPlan,
>)
    requires
        fits_i16((width as i16) - 60),
    ensures
        (width == 0 || height == 0) <==> r is None,
        r matches Some(p) ==> {
            &&& p.background == (FillRect { x: 0, y: 0, width, height, color: DECORATION_BACKGROUND })
            &&& (title_height > 0 && font_opened && has_title) ==> p.title_at == Some(
                (12i16, title_baseline(title_height) as i16, TITLE_TEXT_COLOR),
            )
            &&& !(title_height > 0 && font_opened && has_title) ==> p.title_at is None
            &&& (title_height > 0 && font_opened) ==> p.buttons@ == seq![
                button_at(width, 20, CLOSE_BUTTON_COLOR),
                button_at(width, 40, MAXIMIZE_BUTTON_COLOR),
                button_at(width, 60, MINIMIZE_BUTTON_COLOR),
            ]
            &&& !(title_height > 0 && font_opened) ==> p.buttons@.len() == 0
        },
{
    if width == 0 || height == 0 {
        return None;
    }
    let background = FillRect { x: 0, y: 0, width, height, color: DECORATION_BACKGROUND };
    if title_height > 0 && font_opened {
        let title_at = if has_title {
            let y: i16 = 15 + (title_height as i16 / 10);
            Some((12i16, y, TITLE_TEXT_COLOR))
        } else {
            None
        };
        let w = width as i16;
        let buttons = vec![
            FillRect { x: w - 20, y: 6, width: 12, height: 12, color: CLOSE_BUTTON_COLOR },
            FillRect { x: w - 40, y: 6, width: 12, height: 12, color: MAXIMIZE_BUTTON_COLOR },
            FillRect { x: w - 60, y: 6, width: 12, height: 12, color: MINIMIZE_BUTTON_COLOR },
        ];
        Some(DecorationPlan { background, title_at, buttons })
    } else {
        Some(DecorationPlan { background, title_at: None, buttons: Vec::new() })
    }
}

} // verus!
