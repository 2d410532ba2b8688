use std::collections::VecDeque;
use vstd::prelude::*;

use crate::geometry::{bounding_box, dispersion, lemma_constant_samples_have_no_dispersion, Point};

verus! {

/// How many recent gaze samples the filter keeps.
pub const MAX_BUFFER: usize = 512;

/// `a / b` rounded to the nearest integer, halves rounded up.
pub open spec fn div_round(a: int, b: int) -> int {
    a / b + if 2 * (a % b) >= b { 1int } else { 0int }
}

/// How many samples make up `min_fixation_us` at one sample every `dt_us`.
pub open spec fn window_len(min_fixation_us: u32, dt_us: u64) -> int {
    div_round(min_fixation_us as int, dt_us as int)
}

/// The buffer after `pt` comes in: the oldest sample leaves when it is full.
pub open spec fn pushed(buf: Seq<Point>, pt: Point) -> Seq<Point> {
    if buf.len() >= MAX_BUFFER {
        buf.drop_first().push(pt)
    } else {
        buf.push(pt)
    }
}

/// A spread under `max_velocity` units per second over `min_fixation_us` is a fixation.
pub open spec fn is_fixation(disp: int, min_fixation_us: u32, max_velocity: u32) -> bool {
    disp * 1_000_000 < max_velocity * min_fixation_us
}

/// The samples that the dispersion of a step is measured over.
pub open spec fn window(buf: Seq<Point>, min_fixation_us: u32, dt_us: u64) -> Seq<Point> {
    let w = window_len(min_fixation_us, dt_us);
    let n = if w > buf.len() { buf.len() as int } else { w };
    buf.subrange(buf.len() - n, buf.len() as int)
}

/// The stabilised point after `pt` arrives `dt_us` after the previous sample.
pub open spec fn fixation_step(
    buf: Seq<Point>,
    cur: Point,
    min_fixation_us: u32,
    max_velocity: u32,
    pt: Point,
    dt_us: u64,
) -> Point {
    if dt_us == 0 {
        cur
    } else if is_fixation(
        dispersion(pt, window(pushed(buf, pt), min_fixation_us, dt_us)),
        min_fixation_us,
        max_velocity,
    ) {
        pt
    } else {
        cur
    }
}

/// The last `MAX_BUFFER` entries of `s` (all of them when there are fewer).
pub open spec fn recent(s: Seq<Point>) -> Seq<Point> {
    if s.len() > MAX_BUFFER {
        s.subrange(s.len() - MAX_BUFFER, s.len() as int)
    } else {
        s
    }
}

/// A buffer that holds the most recent samples of a history, in order, holds
/// the most recent ones of the history extended by one more sample: after any
/// number of calls it has `min(n, MAX_BUFFER)` samples, the newest last.
pub proof fn lemma_buffer_keeps_recent(history: Seq<Point>, buf: Seq<Point>, pt: Point)
    requires
        buf == recent(history),
    ensures
        pushed(buf, pt) == recent(history.push(pt)),
        pushed(buf, pt).len() == if history.len() + 1 > MAX_BUFFER {
            MAX_BUFFER as int
        } else {
            history.len() + 1 as int
        },
{
    let h2 = history.push(pt);
    if history.len() >= MAX_BUFFER {
        assert(pushed(buf, pt) =~= recent(h2));
    } else {
        assert(pushed(buf, pt) =~= recent(h2));
    }
}

/// However many samples arrive, the buffer never holds more than `MAX_BUFFER`.
pub proof fn lemma_buffer_stays_bounded(buf: Seq<Point>, pt: Point)
    requires
        buf.len() <= MAX_BUFFER,
    ensures
        pushed(buf, pt).len() <= MAX_BUFFER,
        pushed(buf, pt).last() == pt,
{
}

/// A sample with no elapsed time leaves the stabilised point alone, and it
/// still enters a buffer that has room.
pub proof fn lemma_zero_dt_passes_through(
    buf: Seq<Point>,
    cur: Point,
    min_fixation_us: u32,
    max_velocity: u32,
    pt: Point,
)
    requires
        buf.len() < MAX_BUFFER,
    ensures
        fixation_step(buf, cur, min_fixation_us, max_velocity, pt, 0) == cur,
        pushed(buf, pt) == buf.push(pt),
        pushed(buf, pt).len() == buf.len() + 1,
{
}

/// Gaze held on one point has no dispersion, so every step with elapsed time
/// reports a fixation on that point (given a positive dispersion threshold).
pub proof fn lemma_constant_gaze_fixates(
    buf: Seq<Point>,
    cur: Point,
    min_fixation_us: u32,
    max_velocity: u32,
    pt: Point,
    dt_us: u64,
)
    requires
        forall|i: int| 0 <= i < buf.len() ==> buf[i] == pt,
        dt_us > 0,
        min_fixation_us > 0,
        max_velocity > 0,
    ensures
        forall|i: int| 0 <= i < pushed(buf, pt).len() ==> pushed(buf, pt)[i] == pt,
        dispersion(pt, window(pushed(buf, pt), min_fixation_us, dt_us)) == 0,
        fixation_step(buf, cur, min_fixation_us, max_velocity, pt, dt_us) == pt,
{
    let b = pushed(buf, pt);
    let win = window(b, min_fixation_us, dt_us);
    assert forall|i: int| 0 <= i < b.len() implies b[i] == pt by {
        if buf.len() >= MAX_BUFFER {
            assert(b == buf.drop_first().push(pt));
        }
    }
    assert forall|i: int| 0 <= i < win.len() implies win[i] == pt by {
        assert(win[i] == b[b.len() - win.len() + i]);
    }
    lemma_constant_samples_have_no_dispersion(pt, win);
    assert(max_velocity * min_fixation_us > 0) by (nonlinear_arith)
        requires
            min_fixation_us > 0,
            max_velocity > 0,
    ;
}

/// Dispersion-threshold (I-DT) fixation detector over a bounded window of gaze samples.
pub struct FixationFilter {
    pub buffer: VecDeque<Point>,
    pub min_fixation_us: u32,
    pub max_velocity: u32,
    pub cur: Point,
}

impl FixationFilter {
    /// The buffered samples, oldest first.
    pub open spec fn samples(&self) -> Seq<Point> {
        self.buffer@
    }

    pub open spec fn fixation_us(&self) -> u32 {
        self.min_fixation_us
    }

    pub open spec fn velocity(&self) -> u32 {
        self.max_velocity
    }

    /// The stabilised point that the filter reports.
    pub open spec fn current(&self) -> Point {
        self.cur
    }

    pub open spec fn wf(&self) -> bool {
        self.samples().len() <= MAX_BUFFER
    }

    pub fn new(min_fixation_us: u32, max_velocity: u32) -> (r: FixationFilter)
        ensures
            r.wf(),
            r.samples() == Seq::<Point>::empty(),
            r.fixation_us() == min_fixation_us,
            r.velocity() == max_velocity,
            r.current() == (Point { x: 0, y: 0 }),
    {
        FixationFilter {
            buffer: VecDeque::with_capacity(MAX_BUFFER),
            min_fixation_us,
            max_velocity,
            cur: Point { x: 0, y: 0 },
        }
    }

    /// How many samples are buffered.
    pub fn buffered(&self) -> (r: usize)
        ensures
            r == self.samples().len(),
    {
        self.buffer.len()
    }

    /// Whether a window for ticks of `dt_us` asks for more samples than are
    /// buffered, so that the dispersion is taken over fewer: after a call of
    /// `transform`, whether it had to cut its window short.
    pub fn window_clamped(&self, dt_us: u64) -> (r: bool)
        ensures
            r == (dt_us > 0 && window_len(self.fixation_us(), dt_us) > self.samples().len()),
    {
        if dt_us == 0 {
            return false;
        }
        let q: u64 = self.min_fixation_us as u64 / dt_us;
        let rem: u64 = self.min_fixation_us as u64 % dt_us;
        assert(rem <= self.min_fixation_us) by (nonlinear_arith)
            requires
                rem == self.min_fixation_us as u64 % dt_us,
                dt_us > 0,
        ;
        let w: u64 = if 2 * rem >= dt_us { q + 1 } else { q };
        w > self.buffer.len() as u64
    }

    /// Records `pt` and returns the stabilised gaze point. With `dt_us == 0` the
    /// sample is recorded and handed back as it is.
    pub fn transform(&mut self, pt: Point, dt_us: u64) -> (r: Point)
        requires
            old(self).wf(),
        ensures
            final(self).wf(),
            final(self).samples() == pushed(old(self).samples(), pt),
            final(self).fixation_us() == old(self).fixation_us(),
            final(self).velocity() == old(self).velocity(),
            final(self).current() == fixation_step(
                old(self).samples(),
                old(self).current(),
                old(self).fixation_us(),
                old(self).velocity(),
                pt,
                dt_us,
            ),
            r == (if dt_us == 0 { pt } else { final(self).current() }),
    {
        if self.buffer.len() >= MAX_BUFFER {
            self.buffer.pop_front();
        }
        self.buffer.push_back(pt);
        let len = self.buffer.len();
        let ghost buf = self.buffer@;
        assert(buf == pushed(old(self).samples(), pt));

        if dt_us == 0 {
            return pt;
        }
        let q: u64 = self.min_fixation_us as u64 / dt_us;
        let rem: u64 = self.min_fixation_us as u64 % dt_us;
        assert(rem <= self.min_fixation_us) by (nonlinear_arith)
            requires
                rem == self.min_fixation_us as u64 % dt_us,
                dt_us > 0,
        ;
        let mut to_sample: u64 = if 2 * rem >= dt_us { q + 1 } else { q };
        if to_sample > len as u64 {
            to_sample = len as u64;
        }
        let start: usize = len - to_sample as usize;
        assert(buf.subrange(start as int, len as int) == window(buf, self.min_fixation_us, dt_us));

        let mut lo = pt;
        let mut hi = pt;
        let mut i: usize = start;
        while i < len
            invariant
                start <= i <= len,
                len == buf.len(),
                self.buffer@ == buf,
                (lo, hi) == bounding_box(pt, buf.subrange(start as int, i as int)),
            decreases len - i,
        {
            let el = self.buffer[i];
            if el.x < lo.x {
                lo.x = el.x;
            }
            if el.y < lo.y {
                lo.y = el.y;
            }
            if el.x >= hi.x {
                hi.x = el.x;
            }
            if el.y >= hi.y {
                hi.y = el.y;
            }
            assert(buf.subrange(start as int, i + 1).drop_last() == buf.subrange(start as int, i as int));
            i = i + 1;
        }
        assert(buf.subrange(start as int, i as int) == buf.subrange(start as int, len as int));
        let disp: i64 = (hi.x as i64 - lo.x as i64) + (hi.y as i64 - lo.y as i64);
        proof {
            crate::geometry::lemma_bounding_box_ordered(pt, buf.subrange(start as int, len as int));
        }
        assert(self.max_velocity as u64 * self.min_fixation_us as u64 <= u32::MAX as u64 * u32::MAX as u64) by (nonlinear_arith);
        let max_dispersion: u64 = self.max_velocity as u64 * self.min_fixation_us as u64;
        if (disp as u64) * 1_000_000 < max_dispersion {
            self.cur = pt;
        }
        self.cur
    }
}

} // verus!
