use vstd::arithmetic::div_mod::{lemma_div_is_ordered, lemma_div_multiples_vanish};
use vstd::prelude::*;

use crate::fusion::{abs, quot};
use crate::geometry::Point;

verus! {

/// Largest magnitude that a low-pass filter accepts and holds.
pub const VALUE_LIMIT: i64 = 9007199254740992;

/// Largest value of angular cutoff times tick that the smoothing factor uses.
pub const ALPHA_CAP: u64 = 4611686018427387904;

/// Angular cutoff times tick length, in billionths of a radian, held to `ALPHA_CAP`.
pub open spec fn alpha_num(omega: int, dt_us: int) -> int {
    if omega * dt_us > ALPHA_CAP { ALPHA_CAP as int } else { omega * dt_us }
}

/// The smoothing factor of a cutoff `omega` (milliradians per second) over a
/// tick of `dt_us` is `alpha_num / alpha_den`, that is `w / (w + 1)` for
/// `w = omega * dt` in radians: the same as `1 / (1 + tau / te)`.
pub open spec fn alpha_den(omega: int, dt_us: int) -> int {
    alpha_num(omega, dt_us) + 1_000_000_000
}

/// `a / d` rounded away from zero.
pub open spec fn quot_away(a: int, d: int) -> int {
    if a >= 0 { (a + d - 1) / d } else { -((-a + d - 1) / d) }
}

/// One exponential smoothing step: `prev + alpha * (x - prev)`, the step
/// rounded away from zero so that any smoothing factor above zero closes a
/// gap of one unit; the first sample is taken as it is.
pub open spec fn lowpass_step(primed: bool, prev: int, x: int, num: int, den: int) -> int {
    if !primed { x } else { prev + quot_away((x - prev) * num, den) }
}

proof fn lemma_step_between(d: int, num: int, den: int)
    requires
        0 <= num <= den,
        den > 0,
    ensures
        d >= 0 ==> 0 <= quot(d * num, den) <= d,
        d <= 0 ==> d <= quot(d * num, den) <= 0,
{
    let e = if d >= 0 { d } else { -d };
    let me = e * num;
    assert(0 <= me <= den * e) by (nonlinear_arith)
        requires
            e >= 0,
            0 <= num <= den,
            me == e * num,
    ;
    assert(d * num == if d >= 0 { me } else { -me }) by (nonlinear_arith)
        requires
            e == (if d >= 0 { d } else { -d }),
            me == e * num,
    ;
    lemma_div_is_ordered(me, den * e, den);
    lemma_div_multiples_vanish(e, den);
    lemma_div_is_ordered(0, me, den);
    assert(0int / den == 0);
    assert(0 <= me / den <= e);
    if d >= 0 {
        assert(quot(d * num, den) == me / den);
    } else if me == 0 {
        assert(quot(d * num, den) == 0int / den);
    } else {
        assert(quot(d * num, den) == -(me / den));
    }
}

proof fn lemma_step_away(d: int, num: int, den: int)
    requires
        0 <= num <= den,
        den > 0,
    ensures
        d >= 0 ==> 0 <= quot_away(d * num, den) <= d,
        d <= 0 ==> d <= quot_away(d * num, den) <= 0,
        num >= 1 && d != 0 ==> quot_away(d * num, den) != 0,
        abs(d - quot_away(d * num, den)) * den <= abs(d) * (den - num),
{
    let e = if d >= 0 { d } else { -d };
    let me = e * num;
    assert(0 <= me <= den * e) by (nonlinear_arith)
        requires
            e >= 0,
            0 <= num <= den,
            me == e * num,
    ;
    assert(d * num == if d >= 0 { me } else { -me }) by (nonlinear_arith)
        requires
            e == (if d >= 0 { d } else { -d }),
            me == e * num,
    ;
    assert(num >= 1 && e >= 1 ==> me >= 1) by (nonlinear_arith)
        requires
            me == e * num,
    ;
    let c = (me + den - 1) / den;
    let r = (me + den - 1) % den;
    vstd::arithmetic::div_mod::lemma_fundamental_div_mod(me + den - 1, den);
    assert(me + den - 1 == den * c + r);
    assert(0 <= r < den);
    assert(c * den >= me) by (nonlinear_arith)
        requires
            me + den - 1 == den * c + r,
            r <= den - 1,
    ;
    assert(0 <= c <= e) by (nonlinear_arith)
        requires
            me + den - 1 == den * c + r,
            0 <= r < den,
            0 <= me <= den * e,
            den > 0,
    ;
    assert(me >= 1 ==> c >= 1) by (nonlinear_arith)
        requires
            c * den >= me,
            den > 0,
    ;
    assert((e - c) * den <= e * (den - num)) by (nonlinear_arith)
        requires
            c * den >= me,
            me == e * num,
    ;
    assert(me == 0 ==> c == 0) by (nonlinear_arith)
        requires
            me + den - 1 == den * c + r,
            0 <= r,
            c >= 0,
            den > 0,
    ;
    if d >= 0 {
        assert(quot_away(d * num, den) == c);
    } else if me == 0 {
        assert(quot_away(d * num, den) == c);
    } else {
        assert(quot_away(d * num, den) == -c);
    }
}

/// A step never overshoots: the result lies between the held value and the
/// input. It removes at least the share `num / den` of the gap, and at least
/// one unit of it when `num` is not zero.
pub proof fn lemma_lowpass_between(primed: bool, prev: int, x: int, num: int, den: int)
    requires
        0 <= num <= den,
        den > 0,
    ensures
        prev <= x ==> (!primed || prev <= lowpass_step(primed, prev, x, num, den)) && lowpass_step(primed, prev, x, num, den) <= x,
        x <= prev ==> x <= lowpass_step(primed, prev, x, num, den) && (!primed || lowpass_step(primed, prev, x, num, den) <= prev),
        primed ==> abs(lowpass_step(primed, prev, x, num, den) - x) <= abs(prev - x),
        primed ==> abs(lowpass_step(primed, prev, x, num, den) - x) * den <= abs(prev - x) * (den - num),
        primed && num >= 1 && prev != x ==> abs(lowpass_step(primed, prev, x, num, den) - x) < abs(prev - x),
{
    lemma_step_away(x - prev, num, den);
}

/// Exponential moving average.
pub struct LowPassFilter {
    pub first_time: bool,
    pub hat_x_prev: i64,
}

impl LowPassFilter {
    /// Whether a sample has been taken in.
    pub open spec fn primed(&self) -> bool {
        !self.first_time
    }

    /// The held value.
    pub open spec fn held(&self) -> int {
        self.hat_x_prev as int
    }

    pub open spec fn wf(&self) -> bool {
        -VALUE_LIMIT <= self.held() <= VALUE_LIMIT
    }

    pub fn new() -> (r: LowPassFilter)
        ensures
            r.wf(),
            !r.primed(),
            r.held() == 0,
    {
        LowPassFilter { first_time: true, hat_x_prev: 0 }
    }

    /// Moves the held value `num / den` of the way toward `x`, the step rounded
    /// away from zero, and returns it; the first sample is held and returned as
    /// it is.
    pub fn filter(&mut self, x: i64, num: u64, den: u64) -> (r: i64)
        requires
            old(self).wf(),
            -VALUE_LIMIT <= x <= VALUE_LIMIT,
            num <= den,
            den > 0,
        ensures
            final(self).wf(),
            final(self).primed(),
            r == lowpass_step(old(self).primed(), old(self).held(), x as int, num as int, den as int),
            final(self).held() == r,
    {
        if self.first_time {
            self.first_time = false;
            self.hat_x_prev = x;
            return x;
        }
        let d: i128 = x as i128 - self.hat_x_prev as i128;
        assert(-36028797018963968 * 18446744073709551615 <= d * num <= 36028797018963968 * 18446744073709551615)
            by (nonlinear_arith)
            requires
                -36028797018963968 <= d <= 36028797018963968,
                0 <= num <= 18446744073709551615,
        ;
        let m: i128 = d * num as i128;
        let q: i128 = if m >= 0 {
            (m + den as i128 - 1) / den as i128
        } else {
            -((-m + den as i128 - 1) / den as i128)
        };
        proof {
            lemma_step_away(d as int, num as int, den as int);
        }
        let hat: i64 = (self.hat_x_prev as i128 + q) as i64;
        self.hat_x_prev = hat;
        hat
    }
}

/// The cutoff, in milliradians per second, that a smoothed slope `edx` raises
/// the filter to: `beta` is in millionths of a milliradian per second for each
/// unit per second.
pub open spec fn adaptive_cutoff(min_cutoff: int, beta: int, edx: int) -> int {
    min_cutoff + beta * abs(edx) / 1_000_000
}

/// One step of the one-euro filter: the output and the new smoothed slope.
pub open spec fn one_euro_step(
    min_cutoff: int,
    beta: int,
    d_cutoff: int,
    primed: bool,
    prev: int,
    prev_slope: int,
    x: int,
    dt_us: int,
) -> (int, int) {
    let dx = if !primed { 0 } else { quot((x - prev) * 1_000_000, dt_us) };
    let edx = lowpass_step(primed, prev_slope, dx, alpha_num(d_cutoff, dt_us), alpha_den(d_cutoff, dt_us));
    let omega = adaptive_cutoff(min_cutoff, beta, edx);
    (lowpass_step(primed, prev, x, alpha_num(omega, dt_us), alpha_den(omega, dt_us)), edx)
}

/// The smoothing factor `num / den` of cutoff `omega` over a tick of `dt_us`.
fn alpha(omega: u128, dt_us: u64) -> (r: (u64, u64))
    requires
        dt_us > 0,
    ensures
        r.0 == alpha_num(omega as int, dt_us as int),
        r.1 == alpha_den(omega as int, dt_us as int),
        r.0 <= r.1,
        r.1 > 0,
{
    let num: u64 = if omega >= ALPHA_CAP as u128 {
        assert(omega * dt_us >= ALPHA_CAP) by (nonlinear_arith)
            requires
                omega >= ALPHA_CAP,
                dt_us >= 1,
        ;
        ALPHA_CAP
    } else {
        assert(omega * dt_us <= ALPHA_CAP * 18446744073709551615) by (nonlinear_arith)
            requires
                omega < ALPHA_CAP,
                dt_us <= 18446744073709551615,
        ;
        let w: u128 = omega * dt_us as u128;
        if w > ALPHA_CAP as u128 { ALPHA_CAP } else { w as u64 }
    };
    (num, num + 1_000_000_000)
}

/// Adaptive low-pass filter: a low cutoff while the signal rests, which rises
/// with its speed so that fast motion is followed with little lag. Cutoffs are
/// angular, in milliradians per second; ticks are in microseconds.
pub struct OneEuroFilter {
    first_time: bool,
    mincutoff: u64,
    beta: u64,
    dcutoff: u64,
    xfilt: LowPassFilter,
    dxfilt: LowPassFilter,
}

impl OneEuroFilter {
    pub closed spec fn primed(&self) -> bool {
        !self.first_time
    }

    /// The last output.
    pub closed spec fn value(&self) -> int {
        self.xfilt.held()
    }

    /// The smoothed slope, in units per second.
    pub closed spec fn slope(&self) -> int {
        self.dxfilt.held()
    }

    pub closed spec fn min_cutoff(&self) -> int {
        self.mincutoff as int
    }

    pub closed spec fn speed_coefficient(&self) -> int {
        self.beta as int
    }

    pub closed spec fn slope_cutoff(&self) -> int {
        self.dcutoff as int
    }

    pub closed spec fn wf(&self) -> bool {
        &&& self.xfilt.wf()
        &&& self.dxfilt.wf()
        &&& self.xfilt.primed() == !self.first_time
        &&& self.dxfilt.primed() == !self.first_time
        &&& i32::MIN <= self.xfilt.held() <= i32::MAX
    }

    pub fn new(mincutoff: u64, beta: u64, dcutoff: u64) -> (r: OneEuroFilter)
        ensures
            r.wf(),
            !r.primed(),
            r.min_cutoff() == mincutoff,
            r.speed_coefficient() == beta,
            r.slope_cutoff() == dcutoff,
    {
        OneEuroFilter {
            first_time: true,
            mincutoff,
            beta,
            dcutoff,
            xfilt: LowPassFilter::new(),
            dxfilt: LowPassFilter::new(),
        }
    }

    /// Smooths the sample `x` that arrives `dt_us` after the previous one.
    pub fn filter(&mut self, x: i32, dt_us: u64) -> (r: i32)
        requires
            old(self).wf(),
            dt_us > 0,
        ensures
            final(self).wf(),
            final(self).primed(),
            final(self).min_cutoff() == old(self).min_cutoff(),
            final(self).speed_coefficient() == old(self).speed_coefficient(),
            final(self).slope_cutoff() == old(self).slope_cutoff(),
            (r as int, final(self).slope()) == one_euro_step(
                old(self).min_cutoff(),
                old(self).speed_coefficient(),
                old(self).slope_cutoff(),
                old(self).primed(),
                old(self).value(),
                old(self).slope(),
                x as int,
                dt_us as int,
            ),
            final(self).value() == r,
    {
        let dx: i64 = if self.first_time {
            self.first_time = false;
            0
        } else {
            let d: i64 = (x as i64 - self.xfilt.hat_x_prev) * 1_000_000;
            let m: u64 = if d >= 0 { d as u64 } else { (-d) as u64 };
            let qm: i64 = (m / dt_us) as i64;
            let q: i64 = if d >= 0 { qm } else { -qm };
            proof {
                lemma_step_between(d as int, 1, dt_us as int);
                assert(d * 1 == d);
            }
            q
        };
        let (dn, dd) = alpha(self.dcutoff as u128, dt_us);
        let edx: i64 = self.dxfilt.filter(dx, dn, dd);
        let mag: u128 = if edx < 0 { (-edx) as u128 } else { edx as u128 };
        assert(self.beta * mag <= 18446744073709551615 * 9007199254740992) by (nonlinear_arith)
            requires
                self.beta <= 18446744073709551615,
                mag <= 9007199254740992,
        ;
        let omega: u128 = self.mincutoff as u128 + self.beta as u128 * mag / 1_000_000;
        let (n, dn2) = alpha(omega, dt_us);
        let ghost prev = self.xfilt.held();
        proof {
            lemma_lowpass_between(self.xfilt.primed(), prev, x as int, n as int, dn2 as int);
        }
        let y: i64 = self.xfilt.filter(x as i64, n, dn2);
        y as i32
    }
}

/// The output after `n` more ticks of the input `x`, each `dt_us` long, from
/// a primed filter holding `prev` with slope `slope`; and the slope then.
pub open spec fn held_run(
    min_cutoff: int,
    beta: int,
    d_cutoff: int,
    prev: int,
    slope: int,
    x: int,
    dt_us: int,
    n: nat,
) -> (int, int)
    decreases n,
{
    if n == 0 {
        (prev, slope)
    } else {
        let (y, e) = one_euro_step(min_cutoff, beta, d_cutoff, true, prev, slope, x, dt_us);
        held_run(min_cutoff, beta, d_cutoff, y, e, x, dt_us, (n - 1) as nat)
    }
}

proof fn lemma_alpha_bounds(omega: int, low: int, dt_us: int)
    requires
        0 <= low <= omega,
        dt_us >= 1,
    ensures
        0 <= alpha_num(low, dt_us) <= alpha_num(omega, dt_us) <= alpha_den(omega, dt_us),
        alpha_den(low, dt_us) <= alpha_den(omega, dt_us),
        low >= 1 ==> alpha_num(low, dt_us) >= 1,
{
    assert(0 <= low * dt_us <= omega * dt_us) by (nonlinear_arith)
        requires
            0 <= low <= omega,
            dt_us >= 1,
    ;
    assert(low >= 1 ==> low * dt_us >= 1) by (nonlinear_arith)
        requires
            dt_us >= 1,
    ;
}

/// A held input is output exactly once the output has reached it (or on the
/// first tick), whatever the slope.
pub proof fn lemma_reached_input_is_kept(
    min_cutoff: int,
    beta: int,
    d_cutoff: int,
    primed: bool,
    prev: int,
    slope: int,
    x: int,
    dt_us: int,
)
    requires
        min_cutoff >= 0,
        beta >= 0,
        dt_us >= 1,
        !primed || prev == x,
    ensures
        one_euro_step(min_cutoff, beta, d_cutoff, primed, prev, slope, x, dt_us).0 == x,
{
    let (_, edx) = one_euro_step(min_cutoff, beta, d_cutoff, primed, prev, slope, x, dt_us);
    let omega = adaptive_cutoff(min_cutoff, beta, edx);
    let n = alpha_num(omega, dt_us);
    let d = alpha_den(omega, dt_us);
    assert(0int * n == 0);
    assert(n >= 0 ==> (0int + d - 1) / d == 0) by (nonlinear_arith)
        requires
            d == n + 1_000_000_000,
    ;
    assert(beta * abs(edx) >= 0) by (nonlinear_arith)
        requires
            beta >= 0,
    ;
    assert(beta * abs(edx) / 1_000_000 >= 0);
    lemma_alpha_bounds(omega, 0, dt_us);
}

/// Each step moves the output toward the input and never past it; it removes
/// at least the share `alpha` of the gap that the minimum cutoff gives
/// (`|y - x| * alpha_den <= |prev - x| * 10^9`, that is
/// `|y - x| <= (1 - alpha) * |prev - x|`), and at least one unit of it.
pub proof fn lemma_step_approaches_input(
    min_cutoff: int,
    beta: int,
    d_cutoff: int,
    prev: int,
    slope: int,
    x: int,
    dt_us: int,
)
    requires
        min_cutoff >= 1,
        beta >= 0,
        d_cutoff >= 0,
        dt_us >= 1,
    ensures
        ({
            let y = one_euro_step(min_cutoff, beta, d_cutoff, true, prev, slope, x, dt_us).0;
            &&& prev <= x ==> prev <= y <= x
            &&& x <= prev ==> x <= y <= prev
            &&& abs(y - x) * alpha_den(min_cutoff, dt_us) <= abs(prev - x) * 1_000_000_000
            &&& prev != x ==> abs(y - x) < abs(prev - x)
        }),
{
    let (y, edx) = one_euro_step(min_cutoff, beta, d_cutoff, true, prev, slope, x, dt_us);
    let omega = adaptive_cutoff(min_cutoff, beta, edx);
    assert(beta * abs(edx) >= 0) by (nonlinear_arith)
        requires
            beta >= 0,
    ;
    assert(beta * abs(edx) / 1_000_000 >= 0);
    lemma_alpha_bounds(omega, min_cutoff, dt_us);
    let n = alpha_num(omega, dt_us);
    let d = alpha_den(omega, dt_us);
    lemma_lowpass_between(true, prev, x, n, d);
    let dl = alpha_den(min_cutoff, dt_us);
    assert(abs(y - x) * dl <= abs(y - x) * d) by (nonlinear_arith)
        requires
            abs(y - x) >= 0,
            dl <= d,
    ;
    assert(d - n == 1_000_000_000);
}

/// A held input is reached after at most as many ticks as the output is
/// units away from it, and kept from then on: the output converges on it.
pub proof fn lemma_held_input_is_reached(
    min_cutoff: int,
    beta: int,
    d_cutoff: int,
    prev: int,
    slope: int,
    x: int,
    dt_us: int,
    n: nat,
)
    requires
        min_cutoff >= 1,
        beta >= 0,
        d_cutoff >= 0,
        dt_us >= 1,
        n >= abs(prev - x),
    ensures
        held_run(min_cutoff, beta, d_cutoff, prev, slope, x, dt_us, n).0 == x,
    decreases n,
{
    if n > 0 {
        let (y, e) = one_euro_step(min_cutoff, beta, d_cutoff, true, prev, slope, x, dt_us);
        if prev == x {
            lemma_reached_input_is_kept(min_cutoff, beta, d_cutoff, true, prev, slope, x, dt_us);
        } else {
            lemma_step_approaches_input(min_cutoff, beta, d_cutoff, prev, slope, x, dt_us);
        }
        lemma_held_input_is_reached(min_cutoff, beta, d_cutoff, y, e, x, dt_us, (n - 1) as nat);
    }
}

/// The first tick of a fresh filter outputs its input with no slope; on the
/// next tick, an input moved by `d` moves the output by at least one unit and
/// at most `d`, in the direction of `d`: the smoothed delta starts out no
/// larger than the raw one.
pub proof fn lemma_first_moving_tick(
    min_cutoff: int,
    beta: int,
    d_cutoff: int,
    x0: int,
    d: int,
    dt_us: int,
)
    requires
        min_cutoff >= 1,
        beta >= 0,
        d_cutoff >= 0,
        dt_us >= 1,
    ensures
        one_euro_step(min_cutoff, beta, d_cutoff, false, 0, 0, x0, dt_us) == (x0, 0int),
        ({
            let s1 = one_euro_step(min_cutoff, beta, d_cutoff, true, x0, 0, x0 + d, dt_us).0 - x0;
            &&& d > 0 ==> 1 <= s1 <= d
            &&& d < 0 ==> d <= s1 <= -1
            &&& d == 0 ==> s1 == 0
        }),
{
    lemma_step_approaches_input(min_cutoff, beta, d_cutoff, x0, 0, x0 + d, dt_us);
}

/// A primed filter with a minimum cutoff above zero, fed one input over and
/// over with one tick length, outputs that input after at most as many ticks
/// as its output is units away from it.
pub proof fn lemma_filter_reaches_held_input(f: OneEuroFilter, x: i32, dt_us: u64, n: nat)
    requires
        f.wf(),
        f.primed(),
        f.min_cutoff() >= 1,
        dt_us > 0,
        n >= abs(f.value() - x),
    ensures
        held_run(
            f.min_cutoff(),
            f.speed_coefficient(),
            f.slope_cutoff(),
            f.value(),
            f.slope(),
            x as int,
            dt_us as int,
            n,
        ).0 == x,
{
    lemma_held_input_is_reached(
        f.min_cutoff(),
        f.speed_coefficient(),
        f.slope_cutoff(),
        f.value(),
        f.slope(),
        x as int,
        dt_us as int,
        n,
    );
}

/// A one-euro filter on each axis of a pair, with no coupling between them.
pub struct VecOneEuroFilter {
    pub xf: OneEuroFilter,
    pub yf: OneEuroFilter,
}

impl VecOneEuroFilter {
    pub open spec fn wf(&self) -> bool {
        self.xf.wf() && self.yf.wf()
    }

    pub fn new(mincutoff: u64, beta: u64, dcutoff: u64) -> (r: VecOneEuroFilter)
        ensures
            r.wf(),
            !r.xf.primed() && !r.yf.primed(),
            r.xf.min_cutoff() == mincutoff && r.yf.min_cutoff() == mincutoff,
            r.xf.speed_coefficient() == beta && r.yf.speed_coefficient() == beta,
            r.xf.slope_cutoff() == dcutoff && r.yf.slope_cutoff() == dcutoff,
    {
        VecOneEuroFilter {
            xf: OneEuroFilter::new(mincutoff, beta, dcutoff),
            yf: OneEuroFilter::new(mincutoff, beta, dcutoff),
        }
    }

    /// Smooths each axis of `p` with its own filter.
    pub fn filter(&mut self, p: Point, dt_us: u64) -> (r: Point)
        requires
            old(self).wf(),
            dt_us > 0,
        ensures
            final(self).wf(),
            final(self).xf.primed() && final(self).yf.primed(),
            final(self).xf.min_cutoff() == old(self).xf.min_cutoff(),
            final(self).xf.speed_coefficient() == old(self).xf.speed_coefficient(),
            final(self).xf.slope_cutoff() == old(self).xf.slope_cutoff(),
            final(self).yf.min_cutoff() == old(self).yf.min_cutoff(),
            final(self).yf.speed_coefficient() == old(self).yf.speed_coefficient(),
            final(self).yf.slope_cutoff() == old(self).yf.slope_cutoff(),
            (r.x as int, final(self).xf.slope()) == one_euro_step(
                old(self).xf.min_cutoff(),
                old(self).xf.speed_coefficient(),
                old(self).xf.slope_cutoff(),
                old(self).xf.primed(),
                old(self).xf.value(),
                old(self).xf.slope(),
                p.x as int,
                dt_us as int,
            ),
            (r.y as int, final(self).yf.slope()) == one_euro_step(
                old(self).yf.min_cutoff(),
                old(self).yf.speed_coefficient(),
                old(self).yf.slope_cutoff(),
                old(self).yf.primed(),
                old(self).yf.value(),
                old(self).yf.slope(),
                p.y as int,
                dt_us as int,
            ),
            final(self).xf.value() == r.x,
            final(self).yf.value() == r.y,
    {
        let x = self.xf.filter(p.x, dt_us);
        let y = self.yf.filter(p.y, dt_us);
        Point { x, y }
    }
}

} // verus!
