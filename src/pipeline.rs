use vstd::prelude::*;

use crate::fixation::{fixation_step, pushed, FixationFilter};
use crate::fusion::{fusion_dest, PolyMouseParams, PolyMouseTransform};
use crate::geometry::Point;
use crate::pointer::{calc_dt, confine, confine_axis, move_command, CursorCommand};
use crate::rounding::{round_step, AccumulatingRounder};
use crate::smoothing::{one_euro_step, VecOneEuroFilter};

verus! {

/// The state of the consumer thread: one clock and one filter chain per
/// modality, so that the idle time of one never enters the ticks of the other.
pub struct Pipeline {
    pub last_head_tick: u64,
    pub last_gaze_tick: u64,
    pub head_filter: VecOneEuroFilter,
    pub last_head_pose: Option<Point>,
    pub round_x: AccumulatingRounder,
    pub round_y: AccumulatingRounder,
    pub poly_mouse: PolyMouseTransform,
    pub fixation_filter: FixationFilter,
    pub gaze_pt: Point,
}

impl Pipeline {
    pub open spec fn wf(&self) -> bool {
        &&& self.head_filter.wf()
        &&& self.round_x.wf()
        &&& self.round_y.wf()
        &&& self.poly_mouse.wf()
        &&& self.fixation_filter.wf()
    }

    /// A pipeline whose clocks both start at `now_us`.
    pub fn new(
        now_us: u64,
        head_filter: VecOneEuroFilter,
        poly_mouse: PolyMouseParams,
        fixation_filter: FixationFilter,
    ) -> (r: Pipeline)
        requires
            head_filter.wf(),
            poly_mouse.wf(),
            fixation_filter.wf(),
        ensures
            r.wf(),
            r.last_head_tick == now_us,
            r.last_gaze_tick == now_us,
            r.head_filter == head_filter,
            r.last_head_pose.is_none(),
            r.round_x.remainder() == 0,
            r.round_y.remainder() == 0,
            r.poly_mouse.params == poly_mouse,
            r.poly_mouse.last_jump_destination == (Point { x: 0, y: 0 }),
            r.poly_mouse.smoothed_head == (Point { x: 0, y: 0 }),
            r.fixation_filter == fixation_filter,
            r.gaze_pt == (Point { x: 0, y: 0 }),
    {
        Pipeline {
            last_head_tick: now_us,
            last_gaze_tick: now_us,
            head_filter,
            last_head_pose: None,
            round_x: AccumulatingRounder::new(),
            round_y: AccumulatingRounder::new(),
            poly_mouse: PolyMouseTransform::new(poly_mouse),
            fixation_filter,
            gaze_pt: Point { x: 0, y: 0 },
        }
    }

    /// A head pose (yaw and pitch, in the filter's fixed-point units) read at
    /// `now_us`: returns the tick length and the change of the smoothed,
    /// sign-flipped pose since the previous head tick. The first pose, and a
    /// tick without elapsed time, give no change; the latter leaves the filter
    /// alone.
    pub fn head_delta(&mut self, now_us: u64, yaw: i32, pitch: i32) -> (r: (u64, i64, i64))
        requires
            old(self).wf(),
            yaw > i32::MIN,
            pitch > i32::MIN,
        ensures
            final(self).wf(),
            r.0 == (if now_us >= old(self).last_head_tick { now_us - old(self).last_head_tick } else { 0 }),
            final(self).last_head_tick == now_us,
            final(self).last_gaze_tick == old(self).last_gaze_tick,
            final(self).round_x == old(self).round_x,
            final(self).round_y == old(self).round_y,
            final(self).poly_mouse == old(self).poly_mouse,
            final(self).fixation_filter == old(self).fixation_filter,
            final(self).gaze_pt == old(self).gaze_pt,
            r.0 == 0 ==> r.1 == 0 && r.2 == 0 && final(self).head_filter == old(self).head_filter
                && final(self).last_head_pose == old(self).last_head_pose,
            r.0 > 0 ==> ({
                let f = old(self).head_filter;
                let sx = one_euro_step(
                    f.xf.min_cutoff(),
                    f.xf.speed_coefficient(),
                    f.xf.slope_cutoff(),
                    f.xf.primed(),
                    f.xf.value(),
                    f.xf.slope(),
                    -yaw,
                    r.0 as int,
                ).0;
                let sy = one_euro_step(
                    f.yf.min_cutoff(),
                    f.yf.speed_coefficient(),
                    f.yf.slope_cutoff(),
                    f.yf.primed(),
                    f.yf.value(),
                    f.yf.slope(),
                    -pitch,
                    r.0 as int,
                ).0;
                &&& final(self).last_head_pose == Some(Point { x: sx as i32, y: sy as i32 })
                &&& match old(self).last_head_pose {
                    Some(last) => r.1 == sx - last.x && r.2 == sy - last.y,
                    None => r.1 == 0 && r.2 == 0,
                }
            }),
    {
        let dt = calc_dt(now_us, &mut self.last_head_tick);
        if dt == 0 {
            return (0, 0, 0);
        }
        let smoothed = self.head_filter.filter(Point { x: -yaw, y: -pitch }, dt);
        let (dx, dy) = match self.last_head_pose {
            Some(last) => (smoothed.x as i64 - last.x as i64, smoothed.y as i64 - last.y as i64),
            None => (0, 0),
        };
        self.last_head_pose = Some(smoothed);
        (dt, dx, dy)
    }

    /// A head cursor move (in sub-pixel steps) for a tick of `dt_us`, with the
    /// pointer at `mouse` on a display of the given size: the move that puts the
    /// pointer at its new destination, if it is not there already.
    pub fn head_move(
        &mut self,
        move_x: i32,
        move_y: i32,
        dt_us: u64,
        mouse: Point,
        display_width: i32,
        display_height: i32,
    ) -> (r: Option<CursorCommand>)
        requires
            old(self).wf(),
        ensures
            final(self).wf(),
            final(self).last_head_tick == old(self).last_head_tick,
            final(self).last_gaze_tick == old(self).last_gaze_tick,
            final(self).head_filter == old(self).head_filter,
            final(self).last_head_pose == old(self).last_head_pose,
            final(self).fixation_filter == old(self).fixation_filter,
            final(self).gaze_pt == old(self).gaze_pt,
            ({
                let (px, ax) = round_step(old(self).round_x.remainder(), move_x as int);
                let (py, ay) = round_step(old(self).round_y.remainder(), move_y as int);
                let pm = old(self).poly_mouse;
                let dest = fusion_dest(
                    pm.params,
                    pm.last_jump_destination,
                    pm.smoothed_head,
                    old(self).gaze_pt,
                    mouse,
                    Point { x: px as i32, y: py as i32 },
                    dt_us,
                );
                let to = Point {
                    x: confine_axis(dest.x as int, display_width as int) as i32,
                    y: confine_axis(dest.y as int, display_height as int) as i32,
                };
                &&& final(self).round_x.remainder() == ax
                &&& final(self).round_y.remainder() == ay
                &&& r == (if to == mouse {
                    None::<CursorCommand>
                } else {
                    Some(CursorCommand::AbsoluteMove { x: to.x, y: to.y })
                })
            }),
    {
        let px = self.round_x.round(move_x);
        let py = self.round_y.round(move_y);
        let head = Point { x: px, y: py };
        let dest = self.poly_mouse.transform(self.gaze_pt, mouse, head, dt_us);
        let to = confine(dest, display_width, display_height);
        move_command(to, mouse)
    }

    /// A gaze point in pixels read at `now_us`: stabilises it and keeps it as
    /// the target of later head ticks.
    pub fn gaze(&mut self, now_us: u64, px: Point) -> (r: Point)
        requires
            old(self).wf(),
        ensures
            final(self).wf(),
            final(self).last_gaze_tick == now_us,
            final(self).last_head_tick == old(self).last_head_tick,
            final(self).head_filter == old(self).head_filter,
            final(self).last_head_pose == old(self).last_head_pose,
            final(self).round_x == old(self).round_x,
            final(self).round_y == old(self).round_y,
            final(self).poly_mouse == old(self).poly_mouse,
            ({
                let dt = if now_us >= old(self).last_gaze_tick { now_us - old(self).last_gaze_tick } else { 0 };
                let ff = old(self).fixation_filter;
                &&& final(self).fixation_filter.samples() == pushed(ff.samples(), px)
                &&& final(self).fixation_filter.current() == fixation_step(
                    ff.samples(),
                    ff.current(),
                    ff.fixation_us(),
                    ff.velocity(),
                    px,
                    dt as u64,
                )
                &&& r == (if dt == 0 { px } else { final(self).fixation_filter.current() })
                &&& final(self).gaze_pt == r
            }),
    {
        let dt = calc_dt(now_us, &mut self.last_gaze_tick);
        let g = self.fixation_filter.transform(px, dt);
        self.gaze_pt = g;
        g
    }
}

} // verus!
