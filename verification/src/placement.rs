//! Window placement: given the pointer position and the display
//! rectangles (in screen coordinates with the origin at the bottom
//! left), anchor the window's top-right corner to the top-right corner
//! of the display under the pointer, converting to the window system's
//! top-left-origin coordinates with the primary display's height as the
//! flip reference. The first display containing the pointer wins; with
//! the pointer on no display, the primary display is the anchor.

use vstd::prelude::*;

verus! {

/// Coordinates are accepted up to this magnitude, so every sum below
/// stays well inside the machine range.
pub const COORD_LIMIT: i64 = 1073741824;

/// A display rectangle: origin at its bottom-left corner, y growing
/// upward.
#[derive(Clone, Copy, Debug, PartialEq, Eq, Structural)]
pub struct ScreenRect {
    pub x: i64,
    pub y: i64,
    pub w: i64,
    pub h: i64,
}

/// Whether a rectangle's coordinates are within the accepted range.
pub open spec fn rect_bounded(r: ScreenRect) -> bool {
    &&& -COORD_LIMIT <= r.x <= COORD_LIMIT
    &&& -COORD_LIMIT <= r.y <= COORD_LIMIT
    &&& 0 <= r.w <= COORD_LIMIT
    &&& 0 <= r.h <= COORD_LIMIT
}

/// Whether the point lies inside the rectangle (left and bottom edges
/// inclusive, right and top exclusive).
pub open spec fn rect_contains(r: ScreenRect, px: int, py: int) -> bool {
    r.x <= px < r.x + r.w && r.y <= py < r.y + r.h
}

/// The index of the first display containing the point, or -1.
pub open spec fn first_hit(screens: Seq<ScreenRect>, px: int, py: int) -> int
    decreases screens.len(),
{
    if screens.len() == 0 {
        -1
    } else if rect_contains(screens[0], px, py) {
        0
    } else {
        let r = first_hit(screens.drop_first(), px, py);
        if r < 0 {
            -1
        } else {
            1 + r
        }
    }
}

/// The display the window is anchored to: the first one under the
/// pointer, or the primary display when none contains it.
pub open spec fn anchor_rect(
    screens: Seq<ScreenRect>,
    px: int,
    py: int,
    primary: ScreenRect,
) -> ScreenRect {
    let i = first_hit(screens, px, py);
    if 0 <= i < screens.len() {
        screens[i]
    } else {
        primary
    }
}

/// A scan that found no hit before `m`, and a hit or the end at `m`,
/// computes `first_hit`.
proof fn lemma_first_hit_at(screens: Seq<ScreenRect>, px: int, py: int, m: int)
    requires
        0 <= m <= screens.len(),
        forall|k: int| 0 <= k < m ==> !rect_contains(screens[k], px, py),
        m == screens.len() || rect_contains(screens[m], px, py),
    ensures
        first_hit(screens, px, py) == if m == screens.len() { -1 as int } else { m },
    decreases m,
{
    if m == 0 {
    } else {
        let d = screens.drop_first();
        assert(forall|k: int| 0 <= k < m - 1 ==> d[k] == screens[k + 1]);
        lemma_first_hit_at(d, px, py, m - 1);
    }
}

/// The window's top-left position: anchored to the top-right corner of
/// the display under the pointer, in top-left-origin coordinates.
pub fn place_window(
    px: i64,
    py: i64,
    screens: &Vec<ScreenRect>,
    primary: &ScreenRect,
    window_width: i64,
) -> (pos: (i64, i64))
    requires
        -COORD_LIMIT <= px <= COORD_LIMIT,
        -COORD_LIMIT <= py <= COORD_LIMIT,
        forall|k: int| 0 <= k < screens@.len() ==> rect_bounded(screens@[k]),
        rect_bounded(*primary),
        0 <= window_width <= COORD_LIMIT,
    ensures
        ({
            let a = anchor_rect(screens@, px as int, py as int, *primary);
            &&& pos.0 == a.x + a.w - window_width
            &&& pos.1 == primary.h - (a.y + a.h)
        }),
{
    let mut i: usize = 0;
    while i < screens.len() && !(px >= screens[i].x && px < screens[i].x + screens[i].w && py
        >= screens[i].y && py < screens[i].y + screens[i].h)
        invariant
            i <= screens.len(),
            -COORD_LIMIT <= px <= COORD_LIMIT,
            -COORD_LIMIT <= py <= COORD_LIMIT,
            forall|k: int| 0 <= k < screens@.len() ==> rect_bounded(screens@[k]),
            forall|k: int| 0 <= k < i ==> !rect_contains(screens@[k], px as int, py as int),
        decreases screens.len() - i,
    {
        i = i + 1;
    }
    proof {
        lemma_first_hit_at(screens@, px as int, py as int, i as int);
    }
    let a: ScreenRect = if i < screens.len() {
        screens[i]
    } else {
        *primary
    };
    (a.x + a.w - window_width, primary.h - (a.y + a.h))
}

} // verus!
