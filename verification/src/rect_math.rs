//! Rectangle placement: moving a rectangle so that it lies inside another,
//! with padding.

use vstd::prelude::*;

verus! {

pub struct Vec2 {
    pub x: i32,
    pub y: i32,
}

pub struct Rect {
    pub pos: Vec2,
    pub size: Vec2,
}

/// A coordinate bound under which the placement arithmetic cannot overflow.
pub const COORD_BOUND: i32 = 0x1000_0000;

pub open spec fn vec2_bounded(v: Vec2) -> bool {
    &&& -COORD_BOUND < v.x < COORD_BOUND
    &&& -COORD_BOUND < v.y < COORD_BOUND
}

pub open spec fn rect_bounded(r: Rect) -> bool {
    vec2_bounded(r.pos) && vec2_bounded(r.size)
}

/// One axis of the placement: shift the span `[a_pos, a_pos + a_size)` so it
/// does not cross either boundary of `[lo, hi)`, the left boundary winning.
pub open spec fn axis_within(a_pos: int, a_size: int, lo: int, hi: int) -> int {
    if a_pos < lo {
        a_pos + (lo - a_pos)
    } else if a_pos + a_size > hi {
        a_pos - (a_pos + a_size - hi)
    } else {
        a_pos
    }
}

/// Ensure rectangle `a` is inside rectangle `b`, with padding `pad`: the
/// result is `a` moved (never resized) so that, axis by axis, it does not
/// stick out of `b` shrunk by the padding; when `a` is too large to fit, the
/// low edge wins.
pub fn rect_ensure_within(a: Rect, b: Rect, pad: Vec2) -> (r: Rect)
    requires
        rect_bounded(a),
        rect_bounded(b),
        vec2_bounded(pad),
    ensures
        r.size == a.size,
        r.pos.x as int == axis_within(
            a.pos.x as int,
            a.size.x as int,
            b.pos.x + pad.x,
            b.pos.x + b.size.x - pad.x,
        ),
        r.pos.y as int == axis_within(
            a.pos.y as int,
            a.size.y as int,
            b.pos.y + pad.y,
            b.pos.y + b.size.y - pad.y,
        ),
{
    let mut new = a;

    // The boundaries of the region the rectangle must lie in.
    let inner_left: i32 = b.pos.x + pad.x;
    let inner_right: i32 = b.pos.x + b.size.x - pad.x;
    let inner_top: i32 = b.pos.y + pad.y;
    let inner_bottom: i32 = b.pos.y + b.size.y - pad.y;

    // The boundaries of the rectangle being placed.
    let outer_left: i32 = new.pos.x;
    let outer_right: i32 = new.pos.x + new.size.x;
    let outer_top: i32 = new.pos.y;
    let outer_bottom: i32 = new.pos.y + new.size.y;

    if outer_left < inner_left {
        new.pos.x = new.pos.x + (inner_left - outer_left);
    } else if outer_right > inner_right {
        new.pos.x = new.pos.x - (outer_right - inner_right);
    }

    if outer_top < inner_top {
        new.pos.y = new.pos.y + (inner_top - outer_top);
    } else if outer_bottom > inner_bottom {
        new.pos.y = new.pos.y - (outer_bottom - inner_bottom);
    }

    new
}

} // verus!
