//! Axis-aligned bounding-box probe: which face of a query rectangle struck a
//! second rectangle, judged by the smaller penetration depth.
//!
//! Edges are computed on doubled coordinates (`2 * center - size` and
//! `2 * center + size`), so that halving an odd size loses nothing.
use vstd::prelude::*;
use crate::fixed::Vec3;

verus! {

/// Full width and height of a rectangle, in grid steps.
#[derive(Clone, Copy, Debug, PartialEq, Eq, Structural)]
pub struct Size2 {
    pub w: i64,
    pub h: i64,
}

impl Size2 {
    pub fn new(w: i64, h: i64) -> (r: Size2)
        ensures
            r == (Size2 { w, h }),
    {
        Size2 { w, h }
    }
}

/// The face of the query rectangle that met the other rectangle, or
/// `Inside` where no single face can be told.
#[derive(Clone, Copy, Debug, PartialEq, Eq, Structural)]
pub enum Collision {
    Left,
    Right,
    Top,
    Bottom,
    Inside,
}

impl Collision {
    /// The same contact seen from the other rectangle.
    pub open spec fn mirrored(self) -> Collision {
        match self {
            Collision::Left => Collision::Right,
            Collision::Right => Collision::Left,
            Collision::Top => Collision::Bottom,
            Collision::Bottom => Collision::Top,
            Collision::Inside => Collision::Inside,
        }
    }

    pub fn mirror(&self) -> (r: Collision)
        ensures
            r == self.mirrored(),
    {
        match self {
            Collision::Left => Collision::Right,
            Collision::Right => Collision::Left,
            Collision::Top => Collision::Bottom,
            Collision::Bottom => Collision::Top,
            Collision::Inside => Collision::Inside,
        }
    }
}

/// Contact along one axis between the extents `[a_min, a_max]` and
/// `[b_min, b_max]`: `low` where `a` reaches into `b` from below, `high`
/// where it reaches in from above, with the (non-positive) depth; `None`
/// where one extent holds the other.
pub open spec fn axis_hit(
    a_min: int,
    a_max: int,
    b_min: int,
    b_max: int,
    low: Collision,
    high: Collision,
) -> Option<(Collision, int)> {
    if a_min < b_min && a_max > b_min && a_max < b_max {
        Some((low, b_min - a_max))
    } else if a_min > b_min && a_min < b_max && a_max > b_max {
        Some((high, a_min - b_max))
    } else {
        None
    }
}

pub open spec fn abs(v: int) -> int {
    if v < 0 {
        -v
    } else {
        v
    }
}

/// The side chosen from the contacts along the two axes: the one with the
/// smaller depth, the horizontal one on a tie; a missing contact counts as
/// infinitely deep.
pub open spec fn pick_side(xh: Option<(Collision, int)>, yh: Option<(Collision, int)>) -> Collision {
    match (xh, yh) {
        (Some((xs, xd)), Some((ys, yd))) => if abs(yd) < abs(xd) {
            ys
        } else {
            xs
        },
        (None, Some((ys, _))) => ys,
        (Some((xs, _)), None) => xs,
        (None, None) => Collision::Inside,
    }
}

/// The probe of the rectangle centered at `a` with size `sa` against the
/// one centered at `b` with size `sb`; only `x` and `y` of the centers count.
pub open spec fn probe(a: Vec3, sa: Size2, b: Vec3, sb: Size2) -> Option<Collision> {
    let a_min_x = 2 * a.x - sa.w;
    let a_max_x = 2 * a.x + sa.w;
    let b_min_x = 2 * b.x - sb.w;
    let b_max_x = 2 * b.x + sb.w;
    let a_min_y = 2 * a.y - sa.h;
    let a_max_y = 2 * a.y + sa.h;
    let b_min_y = 2 * b.y - sb.h;
    let b_max_y = 2 * b.y + sb.h;
    if a_min_x < b_max_x && a_max_x > b_min_x && a_min_y < b_max_y && a_max_y > b_min_y {
        Some(
            pick_side(
                axis_hit(a_min_x, a_max_x, b_min_x, b_max_x, Collision::Left, Collision::Right),
                axis_hit(a_min_y, a_max_y, b_min_y, b_max_y, Collision::Bottom, Collision::Top),
            ),
        )
    } else {
        None
    }
}

fn axis_hit_exec(
    a_min: i128,
    a_max: i128,
    b_min: i128,
    b_max: i128,
    low: Collision,
    high: Collision,
) -> (r: Option<(Collision, i128)>)
    requires
        -0x4_0000_0000_0000_0000 <= a_min <= 0x4_0000_0000_0000_0000,
        -0x4_0000_0000_0000_0000 <= a_max <= 0x4_0000_0000_0000_0000,
        -0x4_0000_0000_0000_0000 <= b_min <= 0x4_0000_0000_0000_0000,
        -0x4_0000_0000_0000_0000 <= b_max <= 0x4_0000_0000_0000_0000,
    ensures
        match (r, axis_hit(a_min as int, a_max as int, b_min as int, b_max as int, low, high)) {
            (Some((s, d)), Some((t, e))) => s == t && d as int == e,
            (None, None) => true,
            _ => false,
        },
{
    if a_min < b_min && a_max > b_min && a_max < b_max {
        Some((low, b_min - a_max))
    } else if a_min > b_min && a_min < b_max && a_max > b_max {
        Some((high, a_min - b_max))
    } else {
        None
    }
}

fn abs_i128(v: i128) -> (r: i128)
    requires
        v > i128::MIN,
    ensures
        r == abs(v as int),
{
    if v < 0 {
        -v
    } else {
        v
    }
}

/// Probes the rectangle centered at `a_pos` with size `a_size` against the
/// one centered at `b_pos` with size `b_size`: `None` where they do not
/// overlap, else the side of the first that met the second.
pub fn collide(a_pos: Vec3, a_size: Size2, b_pos: Vec3, b_size: Size2) -> (r: Option<Collision>)
    ensures
        r == probe(a_pos, a_size, b_pos, b_size),
{
    let a_min_x: i128 = 2 * (a_pos.x as i128) - a_size.w as i128;
    let a_max_x: i128 = 2 * (a_pos.x as i128) + a_size.w as i128;
    let b_min_x: i128 = 2 * (b_pos.x as i128) - b_size.w as i128;
    let b_max_x: i128 = 2 * (b_pos.x as i128) + b_size.w as i128;
    let a_min_y: i128 = 2 * (a_pos.y as i128) - a_size.h as i128;
    let a_max_y: i128 = 2 * (a_pos.y as i128) + a_size.h as i128;
    let b_min_y: i128 = 2 * (b_pos.y as i128) - b_size.h as i128;
    let b_max_y: i128 = 2 * (b_pos.y as i128) + b_size.h as i128;
    if !(a_min_x < b_max_x && a_max_x > b_min_x && a_min_y < b_max_y && a_max_y > b_min_y) {
        return None;
    }
    let xh = axis_hit_exec(a_min_x, a_max_x, b_min_x, b_max_x, Collision::Left, Collision::Right);
    let yh = axis_hit_exec(a_min_y, a_max_y, b_min_y, b_max_y, Collision::Bottom, Collision::Top);
    let side = match (xh, yh) {
        (Some((xs, xd)), Some((ys, yd))) => {
            if abs_i128(yd) < abs_i128(xd) {
                ys
            } else {
                xs
            }
        },
        (None, Some((ys, _))) => ys,
        (Some((xs, _)), None) => xs,
        (None, None) => Collision::Inside,
    };
    Some(side)
}

/// Swapping the two rectangles mirrors the result: no contact stays no
/// contact, and each side turns into the opposite one.
pub proof fn lemma_probe_swap(a: Vec3, sa: Size2, b: Vec3, sb: Size2)
    ensures
        probe(b, sb, a, sa) == match probe(a, sa, b, sb) {
            Some(c) => Some(c.mirrored()),
            None => None::<Collision>,
        },
{
}

} // verus!
