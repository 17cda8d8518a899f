//! Initial placement of new windows: centering and cascading.

use vstd::prelude::*;
use vstd::set_lib::{lemma_int_range, lemma_len_subset, lemma_len_union, set_int_range};

verus! {

/// Horizontal position of the first cascade slot.
pub const CASCADE_START_X: i16 = 20;

/// Vertical position of the first cascade slot.
pub const CASCADE_START_Y: i16 = 40;

/// Distance between two cascade slots along each axis.
pub const CASCADE_STEP: i16 = 25;

/// An origin counts as taken when it lies closer than this along both axes.
pub const CASCADE_NEAR: i16 = 15;

/// Number of cascade steps after which the walk stops looking.
pub open spec fn cascade_step_limit() -> int {
    1400
}

/// The centered coordinate along one axis, never negative.
pub open spec fn spec_center_axis(screen: int, win: int) -> int {
    if screen >= win { (screen - win) / 2 } else { 0 }
}

/// Position that centers a window on the screen, clamped to the top-left corner.
pub open spec fn spec_center_window(sw: u16, sh: u16, ww: u16, wh: u16) -> (i16, i16) {
    (spec_center_axis(sw as int, ww as int) as i16, spec_center_axis(sh as int, wh as int) as i16)
}

pub open spec fn spec_abs(v: int) -> int {
    if v < 0 { -v } else { v }
}

/// Whether the point (x, y) is near one of the existing window origins.
pub open spec fn near_origin(x: int, y: int, origins: Seq<(i16, i16)>) -> bool {
    exists|i: int|
        0 <= i < origins.len() && spec_abs(x - origins[i].0) < CASCADE_NEAR && spec_abs(
            y - origins[i].1,
        ) < CASCADE_NEAR
}

/// The `k`-th slot of a cascade walk that starts at (`bx`, `by`).
pub open spec fn walk_x(bx: int, k: int) -> int {
    bx + CASCADE_STEP * k
}

pub open spec fn walk_y(by: int, k: int) -> int {
    by + CASCADE_STEP * k
}

/// Whether the `k`-th slot of the walk from (`bx`, `by`) is near an origin.
pub open spec fn slot_taken(bx: int, by: int, k: int, origins: Seq<(i16, i16)>) -> bool {
    near_origin(walk_x(bx, k), walk_y(by, k), origins)
}

/// The first slot, counting from `k`, of the walk from (`bx`, `by`) that is
/// not near an existing origin.
pub open spec fn first_free_slot(bx: int, by: int, k: nat, origins: Seq<(i16, i16)>) -> nat
    decreases cascade_step_limit() - k,
{
    if k >= cascade_step_limit() || !slot_taken(bx, by, k as int, origins) {
        k
    } else {
        first_free_slot(bx, by, k + 1, origins)
    }
}

/// Cascade placement: the first slot of the walk from (20, 40) that is
/// free; when the window does not fit on the screen there, the walk starts
/// again from (30, 50) and the first free slot of that walk is taken.
pub open spec fn spec_cascade_placement(sw: u16, sh: u16, ww: u16, wh: u16, origins: Seq<(i16, i16)>) -> (i16, i16) {
    let k = first_free_slot(CASCADE_START_X as int, CASCADE_START_Y as int, 0, origins) as int;
    let x = walk_x(CASCADE_START_X as int, k);
    let y = walk_y(CASCADE_START_Y as int, k);
    if x + ww > sw || y + wh > sh {
        let j = first_free_slot(CASCADE_START_X + 10, CASCADE_START_Y + 10, 0, origins) as int;
        (walk_x(CASCADE_START_X + 10, j) as i16, walk_y(CASCADE_START_Y + 10, j) as i16)
    } else {
        (x as i16, y as i16)
    }
}

/// Whether the slots the cascade settles on lie within the `i16`
/// coordinate range: the first free slot of the walk from (20, 40) and,
/// when the window does not fit on the screen there, the first free slot of
/// the walk from (30, 50). A walk that runs past that range without finding
/// a free slot has no place to give.
pub open spec fn spec_cascade_fits(sw: u16, sh: u16, ww: u16, wh: u16, origins: Seq<(i16, i16)>) -> bool {
    let k = first_free_slot(CASCADE_START_X as int, CASCADE_START_Y as int, 0, origins) as int;
    let x = walk_x(CASCADE_START_X as int, k);
    let y = walk_y(CASCADE_START_Y as int, k);
    &&& y <= i16::MAX
    &&& (x + ww > sw || y + wh > sh) ==> walk_y(
        CASCADE_START_Y + 10,
        first_free_slot(CASCADE_START_X + 10, CASCADE_START_Y + 10, 0, origins) as int,
    ) <= i16::MAX
}

/// Centers a window on the screen; a window larger than the screen goes to 0 on that axis.
pub fn center_window(screen_width: u16, screen_height: u16, win_width: u16, win_height: u16) -> (r: (i16, i16))
    ensures
        r == spec_center_window(screen_width, screen_height, win_width, win_height),
        0 <= r.0 && 0 <= r.1,
        r.0 + win_width <= screen_width || r.0 == 0,
        r.1 + win_height <= screen_height || r.1 == 0,
{
    let x: i32 = if screen_width >= win_width { (screen_width as i32 - win_width as i32) / 2 } else { 0 };
    let y: i32 = if screen_height >= win_height { (screen_height as i32 - win_height as i32) / 2 } else { 0 };
    (x as i16, y as i16)
}

/// Whether (x, y) is within `CASCADE_NEAR` of one of the origins along both axes.
fn is_near_origin(x: i32, y: i32, origins: &[(i16, i16)]) -> (r: bool)
    requires
        -40000 <= x <= 40000,
        -40000 <= y <= 40000,
    ensures
        r == near_origin(x as int, y as int, origins@),
{
    let mut i: usize = 0;
    while i < origins.len()
        invariant
            i <= origins.len(),
            -40000 <= x <= 40000,
            -40000 <= y <= 40000,
            forall|j: int| 0 <= j < i ==> !(spec_abs(x - origins@[j].0) < CASCADE_NEAR && spec_abs(y - origins@[j].1) < CASCADE_NEAR),
        decreases origins.len() - i,
    {
        let (ex, ey) = origins[i];
        let dx: i32 = if x >= ex as i32 { x - ex as i32 } else { ex as i32 - x };
        let dy: i32 = if y >= ey as i32 { y - ey as i32 } else { ey as i32 - y };
        if dx < CASCADE_NEAR as i32 && dy < CASCADE_NEAR as i32 {
            return true;
        }
        i += 1;
    }
    false
}

/// The slots of the walk from (`bx`, `by`) that origin `p` makes taken.
pub open spec fn taken_by(bx: int, by: int, p: (i16, i16)) -> Set<int> {
    Set::new(|k: int| spec_abs(walk_x(bx, k) - p.0) < CASCADE_NEAR && spec_abs(walk_y(by, k) - p.1) < CASCADE_NEAR)
}

/// The slots of the walk from (`bx`, `by`) that some origin makes taken.
pub open spec fn taken_slots(bx: int, by: int, origins: Seq<(i16, i16)>) -> Set<int> {
    Set::new(|k: int| slot_taken(bx, by, k, origins))
}

/// One origin takes at most two slots of a walk: slots 25 apart cannot
/// both be within 15 of it unless they are neighbours.
proof fn lemma_taken_by_one(bx: int, by: int, p: (i16, i16))
    ensures
        taken_by(bx, by, p).finite(),
        taken_by(bx, by, p).len() <= 2,
{
    let t = taken_by(bx, by, p);
    if t.is_empty() {
        assert(t =~= Set::<int>::empty());
    } else {
        let k0 = t.choose();
        assert(t.contains(k0));
        let lo = if t.contains(k0 - 1) { k0 - 1 } else { k0 };
        assert forall|k: int| t.contains(k) implies set_int_range(lo, lo + 2).contains(k) by {
            assert(-30 < CASCADE_STEP * (k - k0) < 30);
            if t.contains(k0 - 1) {
                assert(-30 < CASCADE_STEP * (k - (k0 - 1)) < 30);
            }
        }
        lemma_int_range(lo, lo + 2);
        lemma_len_subset(t, set_int_range(lo, lo + 2));
    }
}

/// The origins take at most two slots of a walk each.
proof fn lemma_taken_slots(bx: int, by: int, origins: Seq<(i16, i16)>)
    ensures
        taken_slots(bx, by, origins).finite(),
        taken_slots(bx, by, origins).len() <= 2 * origins.len(),
    decreases origins.len(),
{
    if origins.len() == 0 {
        assert(taken_slots(bx, by, origins) =~= Set::<int>::empty());
    } else {
        let o = origins.drop_last();
        let p = origins.last();
        lemma_taken_slots(bx, by, o);
        lemma_taken_by_one(bx, by, p);
        assert(taken_slots(bx, by, origins) =~= taken_slots(bx, by, o).union(taken_by(bx, by, p))) by {
            assert forall|k: int| #[trigger] taken_slots(bx, by, origins).contains(k) == taken_slots(bx, by, o).union(
                taken_by(bx, by, p),
            ).contains(k) by {
                if slot_taken(bx, by, k, origins) {
                    let i = choose|i: int|
                        0 <= i < origins.len() && spec_abs(walk_x(bx, k) - origins[i].0) < CASCADE_NEAR && spec_abs(
                            walk_y(by, k) - origins[i].1,
                        ) < CASCADE_NEAR;
                    if i < o.len() {
                        assert(o[i] == origins[i]);
                    }
                }
                if slot_taken(bx, by, k, o) {
                    let i = choose|i: int|
                        0 <= i < o.len() && spec_abs(walk_x(bx, k) - o[i].0) < CASCADE_NEAR && spec_abs(
                            walk_y(by, k) - o[i].1,
                        ) < CASCADE_NEAR;
                    assert(origins[i] == o[i]);
                }
                if taken_by(bx, by, p).contains(k) {
                    assert(origins[origins.len() - 1] == p);
                }
            }
        }
        lemma_len_union(taken_slots(bx, by, o), taken_by(bx, by, p));
    }
}

/// Among the first `2n + 1` slots of a walk, one is free of `n` origins.
proof fn lemma_free_slot_exists(bx: int, by: int, origins: Seq<(i16, i16)>)
    ensures
        exists|k: int| 0 <= k <= 2 * origins.len() && !slot_taken(bx, by, k, origins),
{
    let n = origins.len() as int;
    lemma_taken_slots(bx, by, origins);
    if forall|k: int| 0 <= k <= 2 * n ==> slot_taken(bx, by, k, origins) {
        assert(set_int_range(0, 2 * n + 1).subset_of(taken_slots(bx, by, origins)));
        lemma_int_range(0, 2 * n + 1);
        lemma_len_subset(set_int_range(0, 2 * n + 1), taken_slots(bx, by, origins));
        assert(false);
    }
}

/// The search for a free slot gives the slot it stops at or a later one.
proof fn lemma_first_free_from(bx: int, by: int, k: nat, origins: Seq<(i16, i16)>)
    ensures
        first_free_slot(bx, by, k, origins) >= k,
        first_free_slot(bx, by, k, origins) < cascade_step_limit() ==> !slot_taken(
            bx,
            by,
            first_free_slot(bx, by, k, origins) as int,
            origins,
        ),
    decreases cascade_step_limit() - k,
{
    if !(k >= cascade_step_limit() || !slot_taken(bx, by, k as int, origins)) {
        lemma_first_free_from(bx, by, k + 1, origins);
    }
}

/// A free slot at `w` bounds the search started at or before it.
proof fn lemma_first_free_at_most(bx: int, by: int, k: nat, w: nat, origins: Seq<(i16, i16)>)
    requires
        k <= w,
        !slot_taken(bx, by, w as int, origins),
    ensures
        first_free_slot(bx, by, k, origins) <= w,
    decreases w - k,
{
    if k < w && k < cascade_step_limit() && slot_taken(bx, by, k as int, origins) {
        lemma_first_free_at_most(bx, by, k + 1, w, origins);
    }
}

/// The first free slot of the walk from (`bx`, `by`), if it lies within the
/// `i16` range.
fn find_free(bx: i32, by: i32, origins: &[(i16, i16)]) -> (r: Option<usize>)
    requires
        0 <= bx <= by <= 100,
    ensures
        r == (if walk_y(by as int, first_free_slot(bx as int, by as int, 0, origins@) as int) <= i16::MAX {
            Some(first_free_slot(bx as int, by as int, 0, origins@) as usize)
        } else {
            None
        }),
{
    let mut k: usize = 0;
    let mut x: i32 = bx;
    let mut y: i32 = by;
    while y <= 32767
        invariant
            0 <= bx <= by <= 100,
            0 <= k <= 1400,
            x == walk_x(bx as int, k as int),
            y == walk_y(by as int, k as int),
            first_free_slot(bx as int, by as int, 0, origins@) == first_free_slot(bx as int, by as int, k as nat, origins@),
        decreases 32800 - y,
    {
        if !is_near_origin(x, y, origins) {
            return Some(k);
        }
        assert(first_free_slot(bx as int, by as int, k as nat, origins@) == first_free_slot(
            bx as int,
            by as int,
            (k + 1) as nat,
            origins@,
        ));
        k = k + 1;
        x = x + CASCADE_STEP as i32;
        y = y + CASCADE_STEP as i32;
    }
    proof {
        lemma_first_free_from(bx as int, by as int, k as nat, origins@);
    }
    None
}

/// Whether the cascade has a place for the window, as `spec_cascade_fits`
/// says.
pub fn cascade_fits(
    screen_width: u16,
    screen_height: u16,
    win_width: u16,
    win_height: u16,
    existing_origins: &[(i16, i16)],
) -> (r: bool)
    ensures
        r == spec_cascade_fits(screen_width, screen_height, win_width, win_height, existing_origins@),
{
    let k = match find_free(CASCADE_START_X as i32, CASCADE_START_Y as i32, existing_origins) {
        Some(k) => k,
        None => {
            return false;
        },
    };
    let x: i32 = CASCADE_START_X as i32 + CASCADE_STEP as i32 * k as i32;
    let y: i32 = CASCADE_START_Y as i32 + CASCADE_STEP as i32 * k as i32;
    if x + win_width as i32 > screen_width as i32 || y + win_height as i32 > screen_height as i32 {
        find_free(CASCADE_START_X as i32 + 10, CASCADE_START_Y as i32 + 10, existing_origins).is_some()
    } else {
        true
    }
}

/// With at most 654 windows the cascade always has a place: `n` origins
/// take at most `2n` slots of a walk, so one of its first `2n + 1` slots
/// is free and lies within the `i16` range.
pub proof fn lemma_cascade_fits_few_windows(sw: u16, sh: u16, ww: u16, wh: u16, origins: Seq<(i16, i16)>)
    requires
        origins.len() <= 654,
    ensures
        spec_cascade_fits(sw, sh, ww, wh, origins),
{
    lemma_free_slot_exists(CASCADE_START_X as int, CASCADE_START_Y as int, origins);
    let w1 = choose|k: int| 0 <= k <= 2 * origins.len() && !slot_taken(CASCADE_START_X as int, CASCADE_START_Y as int, k, origins);
    lemma_first_free_at_most(CASCADE_START_X as int, CASCADE_START_Y as int, 0, w1 as nat, origins);
    let bx2: int = CASCADE_START_X + 10;
    let by2: int = CASCADE_START_Y + 10;
    lemma_free_slot_exists(bx2, by2, origins);
    let w2 = choose|k: int| 0 <= k <= 2 * origins.len() && !slot_taken(bx2, by2, k, origins);
    lemma_first_free_at_most(bx2, by2, 0, w2 as nat, origins);
}

/// Places a window in the first cascade slot that is not near an existing
/// window origin; when the window does not fit on the screen there, it
/// goes to the first free slot of a second walk starting at (30, 50). The
/// result is never near an existing origin.
pub fn cascade_placement(
    screen_width: u16,
    screen_height: u16,
    win_width: u16,
    win_height: u16,
    existing_origins: &[(i16, i16)],
) -> (r: (i16, i16))
    requires
        spec_cascade_fits(screen_width, screen_height, win_width, win_height, existing_origins@),
    ensures
        r == spec_cascade_placement(screen_width, screen_height, win_width, win_height, existing_origins@),
        !near_origin(r.0 as int, r.1 as int, existing_origins@),
{
    proof {
        lemma_first_free_from(CASCADE_START_X as int, CASCADE_START_Y as int, 0, existing_origins@);
        lemma_first_free_from(CASCADE_START_X + 10, CASCADE_START_Y + 10, 0, existing_origins@);
    }
    let k = match find_free(CASCADE_START_X as i32, CASCADE_START_Y as i32, existing_origins) {
        Some(k) => k,
        None => {
            return (0, 0);
        },
    };
    let x: i32 = CASCADE_START_X as i32 + CASCADE_STEP as i32 * k as i32;
    let y: i32 = CASCADE_START_Y as i32 + CASCADE_STEP as i32 * k as i32;
    if x + win_width as i32 > screen_width as i32 || y + win_height as i32 > screen_height as i32 {
        let j = match find_free(CASCADE_START_X as i32 + 10, CASCADE_START_Y as i32 + 10, existing_origins) {
            Some(j) => j,
            None => {
                return (0, 0);
            },
        };
        let rx: i32 = CASCADE_START_X as i32 + 10 + CASCADE_STEP as i32 * j as i32;
        let ry: i32 = CASCADE_START_Y as i32 + 10 + CASCADE_STEP as i32 * j as i32;
        (rx as i16, ry as i16)
    } else {
        (x as i16, y as i16)
    }
}

} // verus!
