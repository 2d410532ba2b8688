use vstd::prelude::*;

use crate::geometry::Point;

verus! {

/// Settings of the gaze and head pointer fusion. Factors are in thousandths,
/// speeds in pixels per second, distances in pixels.
#[derive(Clone, Copy, Debug)]
pub struct PolyMouseParams {
    /// Distance between gaze and pointer beyond which the pointer jumps.
    pub min_jump: u32,
    /// Growth of the jump distance with head speed, in thousandths of a second.
    pub speed_expand_factor: u32,
    /// Weight of the newest head delta in the smoothed delta (1000: no smoothing).
    pub head_smoothing_factor: u32,
    /// Head speed above which a jump is a throw.
    pub throw_thresh_speed: u32,
    /// How far past the gaze target a throw carries, per second of the tick.
    pub throw_speed: u32,
    /// Share of the way to the gaze target that a plain jump covers.
    pub small_jump_factor: u32,
}

impl PolyMouseParams {
    pub open spec fn wf(&self) -> bool {
        self.head_smoothing_factor <= 1000 && self.small_jump_factor <= 1000
    }
}

pub open spec fn abs(a: int) -> int {
    if a < 0 { -a } else { a }
}

pub open spec fn sign(a: int) -> int {
    if a > 0 { 1 } else if a < 0 { -1 } else { 0 }
}

/// `a / d` rounded toward zero.
pub open spec fn quot(a: int, d: int) -> int {
    if a >= 0 { a / d } else { -((-a) / d) }
}

/// `v` held to the range of a screen coordinate.
pub open spec fn saturate(v: int) -> int {
    if v > i32::MAX { i32::MAX as int } else if v < i32::MIN { i32::MIN as int } else { v }
}

/// The larger of the distances along each axis.
pub open spec fn chebyshev(a: Point, b: Point) -> int {
    let dx = abs(a.x - b.x);
    let dy = abs(a.y - b.y);
    if dx >= dy { dx } else { dy }
}

/// Head travel in one tick, summed over both axes.
pub open spec fn travel(h: Point) -> int {
    abs(h.x as int) + abs(h.y as int)
}

/// Head speed in pixels per second; zero for a tick without elapsed time.
pub open spec fn head_speed(h: Point, dt_us: u64) -> int {
    if dt_us == 0 { 0 } else { travel(h) * 1_000_000 / (dt_us as int) }
}

/// The head moves faster than the throw threshold.
pub open spec fn is_throw(p: PolyMouseParams, h: Point, dt_us: u64) -> bool {
    dt_us > 0 && travel(h) * 1_000_000 > p.throw_thresh_speed * dt_us
}

/// Distance beyond which the gaze target counts as elsewhere.
pub open spec fn jump_radius(p: PolyMouseParams, h: Point, dt_us: u64) -> int {
    p.min_jump + p.speed_expand_factor * head_speed(h, dt_us) / 1000
}

/// The gaze is far both from the pointer and from where it last jumped to.
pub open spec fn is_jump(
    p: PolyMouseParams,
    last_jump: Point,
    gaze: Point,
    mouse: Point,
    h: Point,
    dt_us: u64,
) -> bool {
    let r = jump_radius(p, h, dt_us);
    chebyshev(gaze, mouse) > r && chebyshev(gaze, last_jump) > r
}

/// The head delta blended with the previous smoothed delta.
pub open spec fn smooth_axis(f: int, prev: int, h: int) -> int {
    quot(f * h + (1000 - f) * prev, 1000)
}

pub open spec fn smoothed(p: PolyMouseParams, prev: Point, h: Point) -> Point {
    Point {
        x: smooth_axis(p.head_smoothing_factor as int, prev.x as int, h.x as int) as i32,
        y: smooth_axis(p.head_smoothing_factor as int, prev.y as int, h.y as int) as i32,
    }
}

/// How far past the target a throw lands.
pub open spec fn throw_distance(p: PolyMouseParams, dt_us: u64) -> int {
    p.throw_speed * dt_us / 1_000_000
}

/// The destination of the pointer for one head tick.
pub open spec fn fusion_dest(
    p: PolyMouseParams,
    last_jump: Point,
    prev_smoothed: Point,
    gaze: Point,
    mouse: Point,
    h: Point,
    dt_us: u64,
) -> Point {
    if is_jump(p, last_jump, gaze, mouse, h, dt_us) {
        if is_throw(p, h, dt_us) {
            let d = throw_distance(p, dt_us);
            Point {
                x: saturate(gaze.x + sign(h.x as int) * d) as i32,
                y: saturate(gaze.y + sign(h.y as int) * d) as i32,
            }
        } else {
            let f = p.small_jump_factor as int;
            Point {
                x: saturate(mouse.x + quot((gaze.x - mouse.x) * f, 1000)) as i32,
                y: saturate(mouse.y + quot((gaze.y - mouse.y) * f, 1000)) as i32,
            }
        }
    } else {
        let s = smoothed(p, prev_smoothed, h);
        Point { x: saturate(mouse.x + s.x) as i32, y: saturate(mouse.y + s.y) as i32 }
    }
}

fn abs_i64(a: i64) -> (r: i64)
    requires
        a > i64::MIN,
    ensures
        r == abs(a as int),
{
    if a < 0 { -a } else { a }
}

fn quot_i64(a: i64, d: i64) -> (r: i64)
    requires
        a > i64::MIN,
        d > 0,
    ensures
        r == quot(a as int, d as int),
{
    if a >= 0 { a / d } else { -((-a) / d) }
}

fn saturate_i64(v: i64) -> (r: i32)
    ensures
        r == saturate(v as int),
{
    if v > i32::MAX as i64 {
        i32::MAX
    } else if v < i32::MIN as i64 {
        i32::MIN
    } else {
        v as i32
    }
}

fn chebyshev_i64(a: Point, b: Point) -> (r: i64)
    ensures
        r == chebyshev(a, b),
{
    let dx = abs_i64(a.x as i64 - b.x as i64);
    let dy = abs_i64(a.y as i64 - b.y as i64);
    if dx >= dy { dx } else { dy }
}

fn smooth_axis_i32(f: u32, prev: i32, h: i32) -> (r: i32)
    requires
        f <= 1000,
    ensures
        r == smooth_axis(f as int, prev as int, h as int),
{
    let fi: i64 = f as i64;
    let ghost lo: int = i32::MIN as int;
    let ghost hi: int = i32::MAX as int;
    assert(fi * lo <= fi * h <= fi * hi) by (nonlinear_arith)
        requires
            0 <= fi <= 1000,
            lo <= h <= hi,
    ;
    assert((1000 - fi) * lo <= (1000 - fi) * prev <= (1000 - fi) * hi) by (nonlinear_arith)
        requires
            0 <= fi <= 1000,
            lo <= prev <= hi,
    ;
    let blend: i64 = fi * h as i64 + (1000 - fi) * prev as i64;
    assert(1000 * lo <= blend <= 1000 * hi);
    let q = quot_i64(blend, 1000);
    assert(lo <= q <= hi) by {
        if blend >= 0 {
            vstd::arithmetic::div_mod::lemma_div_is_ordered(blend as int, 1000 * hi, 1000);
            vstd::arithmetic::div_mod::lemma_div_multiples_vanish(hi, 1000);
        } else {
            vstd::arithmetic::div_mod::lemma_div_is_ordered(-blend, 1000 * (-lo), 1000);
            vstd::arithmetic::div_mod::lemma_div_multiples_vanish(-lo, 1000);
        }
    }
    q as i32
}

/// Combines a stabilised gaze target with head motion into one pointer
/// destination: far targets are jumped to, near ones are crept up on with the
/// head.
pub struct PolyMouseTransform {
    pub params: PolyMouseParams,
    pub last_jump_destination: Point,
    pub smoothed_head: Point,
}

impl PolyMouseTransform {
    pub open spec fn wf(&self) -> bool {
        self.params.wf()
    }

    pub fn new(params: PolyMouseParams) -> (r: PolyMouseTransform)
        requires
            params.wf(),
        ensures
            r.wf(),
            r.params == params,
            r.last_jump_destination == (Point { x: 0, y: 0 }),
            r.smoothed_head == (Point { x: 0, y: 0 }),
    {
        PolyMouseTransform {
            params,
            last_jump_destination: Point { x: 0, y: 0 },
            smoothed_head: Point { x: 0, y: 0 },
        }
    }

    /// The destination for the pointer at `mouse`, given the gaze target and
    /// the head delta of a tick `dt_us` long. The caller keeps it on screen.
    pub fn transform(&mut self, gaze: Point, mouse: Point, head: Point, dt_us: u64) -> (r: Point)
        requires
            old(self).wf(),
        ensures
            final(self).wf(),
            final(self).params == old(self).params,
            final(self).smoothed_head == smoothed(old(self).params, old(self).smoothed_head, head),
            final(self).last_jump_destination == (if is_jump(
                old(self).params,
                old(self).last_jump_destination,
                gaze,
                mouse,
                head,
                dt_us,
            ) {
                gaze
            } else {
                old(self).last_jump_destination
            }),
            r == fusion_dest(
                old(self).params,
                old(self).last_jump_destination,
                old(self).smoothed_head,
                gaze,
                mouse,
                head,
                dt_us,
            ),
    {
        let p = self.params;
        let sx = smooth_axis_i32(p.head_smoothing_factor, self.smoothed_head.x, head.x);
        let sy = smooth_axis_i32(p.head_smoothing_factor, self.smoothed_head.y, head.y);
        self.smoothed_head = Point { x: sx, y: sy };

        let head_travel: u64 = (abs_i64(head.x as i64) + abs_i64(head.y as i64)) as u64;
        let speed: u64 = if dt_us == 0 { 0 } else { head_travel * 1_000_000 / dt_us };
        assert(head_travel <= 4294967296);
        assert(speed <= 4294967296000000) by {
            if dt_us > 0 {
                vstd::arithmetic::div_mod::lemma_div_is_ordered_by_denominator(head_travel * 1_000_000, 1, dt_us as int);
            }
        }
        assert(p.speed_expand_factor as u128 * speed as u128 <= u32::MAX as u128 * 4294967296000000u128)
            by (nonlinear_arith)
            requires
                speed <= 4294967296000000u64,
        ;
        let radius: u128 = p.min_jump as u128 + p.speed_expand_factor as u128 * speed as u128 / 1000;
        let to_mouse = chebyshev_i64(gaze, mouse);
        let to_last = chebyshev_i64(gaze, self.last_jump_destination);
        if to_mouse as u128 > radius && to_last as u128 > radius {
            self.last_jump_destination = gaze;
            assert(p.throw_thresh_speed as u128 * dt_us as u128 <= u32::MAX as u128 * u64::MAX as u128)
                by (nonlinear_arith);
            assert(p.throw_speed as u128 * dt_us as u128 <= u32::MAX as u128 * u64::MAX as u128)
                by (nonlinear_arith);
            if dt_us > 0 && head_travel as u128 * 1_000_000 > p.throw_thresh_speed as u128 * dt_us as u128 {
                let far: u128 = p.throw_speed as u128 * dt_us as u128 / 1_000_000;
                let d: i64 = if far > 8589934592 { 8589934592 } else { far as i64 };
                let step_x: i64 = if head.x > 0 { d } else if head.x < 0 { -d } else { 0 };
                let step_y: i64 = if head.y > 0 { d } else if head.y < 0 { -d } else { 0 };
                Point {
                    x: saturate_i64(gaze.x as i64 + step_x),
                    y: saturate_i64(gaze.y as i64 + step_y),
                }
            } else {
                let f: i64 = p.small_jump_factor as i64;
                let dx: i64 = gaze.x as i64 - mouse.x as i64;
                let dy: i64 = gaze.y as i64 - mouse.y as i64;
                assert(-8589934592 * 1000 <= dx * f <= 8589934592 * 1000) by (nonlinear_arith)
                    requires
                        -8589934592 <= dx <= 8589934592,
                        0 <= f <= 1000,
                ;
                assert(-8589934592 * 1000 <= dy * f <= 8589934592 * 1000) by (nonlinear_arith)
                    requires
                        -8589934592 <= dy <= 8589934592,
                        0 <= f <= 1000,
                ;
                let qx = quot_i64(dx * f, 1000);
                let qy = quot_i64(dy * f, 1000);
                Point {
                    x: saturate_i64(mouse.x as i64 + qx),
                    y: saturate_i64(mouse.y as i64 + qy),
                }
            }
        } else {
            Point {
                x: saturate_i64(mouse.x as i64 + sx as i64),
                y: saturate_i64(mouse.y as i64 + sy as i64),
            }
        }
    }
}

} // verus!
