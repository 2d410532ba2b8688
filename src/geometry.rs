use vstd::prelude::*;

verus! {

/// A pair of integer coordinates: a screen position or displacement in whole
/// pixels, or a two-axis head pose in fixed-point units.
#[derive(Clone, Copy, Debug, PartialEq, Eq, Structural)]
pub struct Point {
    pub x: i32,
    pub y: i32,
}

impl Point {
    pub fn new(x: i32, y: i32) -> (r: Point)
        ensures
            r.x == x,
            r.y == y,
    {
        Point { x, y }
    }
}

/// The corners of the axis-aligned box that holds `p` and every point of `s`.
pub open spec fn bounding_box(p: Point, s: Seq<Point>) -> (Point, Point)
    decreases s.len(),
{
    if s.len() == 0 {
        (p, p)
    } else {
        let (lo, hi) = bounding_box(p, s.drop_last());
        let e = s.last();
        (
            Point { x: if e.x < lo.x { e.x } else { lo.x }, y: if e.y < lo.y { e.y } else { lo.y } },
            Point { x: if e.x >= hi.x { e.x } else { hi.x }, y: if e.y >= hi.y { e.y } else { hi.y } },
        )
    }
}

/// Width plus height of the bounding box of `p` and `s`.
pub open spec fn dispersion(p: Point, s: Seq<Point>) -> int {
    let (lo, hi) = bounding_box(p, s);
    (hi.x - lo.x) + (hi.y - lo.y)
}

/// The bounding box never shrinks below `p`, and grows only to points of `s`.
pub proof fn lemma_bounding_box_ordered(p: Point, s: Seq<Point>)
    ensures
        bounding_box(p, s).0.x <= p.x <= bounding_box(p, s).1.x,
        bounding_box(p, s).0.y <= p.y <= bounding_box(p, s).1.y,
        dispersion(p, s) >= 0,
    decreases s.len(),
{
    if s.len() > 0 {
        lemma_bounding_box_ordered(p, s.drop_last());
    }
}

/// A point whose surrounding samples all coincide with it spreads over nothing.
pub proof fn lemma_constant_samples_have_no_dispersion(p: Point, s: Seq<Point>)
    requires
        forall|i: int| 0 <= i < s.len() ==> s[i] == p,
    ensures
        bounding_box(p, s) == (p, p),
        dispersion(p, s) == 0,
    decreases s.len(),
{
    if s.len() > 0 {
        lemma_constant_samples_have_no_dispersion(p, s.drop_last());
    }
}

} // verus!
