use vstd::arithmetic::div_mod::lemma_fundamental_div_mod_converse;
use vstd::prelude::*;

verus! {

/// Sub-pixel steps in one pixel: deltas handed to the rounders are in these units.
pub const SUBPIXELS: i32 = 256;

/// `x / SUBPIXELS`, rounded toward zero.
pub open spec fn whole_part(x: int) -> int {
    if x >= 0 {
        x / (SUBPIXELS as int)
    } else {
        -((-x) / (SUBPIXELS as int))
    }
}

/// What is left of `x` after its whole pixels: it has the sign of `x`.
pub open spec fn fraction_part(x: int) -> int {
    x - whole_part(x) * SUBPIXELS
}

/// One step of accumulating rounding: the pixels emitted and the new remainder.
pub open spec fn round_step(accum: int, x: int) -> (int, int) {
    let t = whole_part(x);
    let a = accum + fraction_part(x);
    if a >= SUBPIXELS {
        (t + 1, a - SUBPIXELS)
    } else if a <= -SUBPIXELS {
        (t - 1, a + SUBPIXELS)
    } else {
        (t, a)
    }
}

/// The pixels emitted in total, and the remainder, after `n` steps of input `x`.
pub open spec fn run_constant(accum: int, x: int, n: nat) -> (int, int)
    decreases n,
{
    if n == 0 {
        (0, accum)
    } else {
        let (total, a) = run_constant(accum, x, (n - 1) as nat);
        let (r, a2) = round_step(a, x);
        (total + r, a2)
    }
}

proof fn lemma_whole_part_bounds(x: int)
    ensures
        -SUBPIXELS < fraction_part(x) < SUBPIXELS,
        x >= 0 ==> 0 <= fraction_part(x),
        x <= 0 ==> fraction_part(x) <= 0,
        x >= 0 ==> whole_part(x) == x / (SUBPIXELS as int) && fraction_part(x) == x % (SUBPIXELS as int),
{
}

/// A fraction of a pixel held for `n` steps, starting from an empty remainder,
/// emits exactly `floor(n * f)` pixels, one at a time; the share of steps that
/// emit a pixel therefore tends to `f`, and the remainder stays below a pixel.
pub proof fn lemma_constant_fraction_emits_its_share(f: int, n: nat)
    requires
        0 <= f < SUBPIXELS,
    ensures
        run_constant(0, f, n) == ((n * f) / (SUBPIXELS as int), (n * f) % (SUBPIXELS as int)),
        0 <= round_step(run_constant(0, f, n).1, f).0 <= 1,
    decreases n,
{
    let s = SUBPIXELS as int;
    lemma_whole_part_bounds(f);
    assert(whole_part(f) == 0);
    if n > 0 {
        lemma_constant_fraction_emits_its_share(f, (n - 1) as nat);
        let q = (((n - 1) as nat) * f) / s;
        let a = (((n - 1) as nat) * f) % s;
        assert(((n - 1) as nat) * f == q * s + a) by {
            vstd::arithmetic::div_mod::lemma_fundamental_div_mod(((n - 1) as nat) * f, s);
        }
        assert(n * f == ((n - 1) as nat) * f + f) by (nonlinear_arith)
            requires
                n > 0,
        ;
        if a + f >= s {
            lemma_fundamental_div_mod_converse(n * f, s, q + 1, a + f - s);
        } else {
            lemma_fundamental_div_mod_converse(n * f, s, q, a + f);
        }
    }
    let a = (n * f) % s;
    assert(0 <= a < s);
}

/// Rounds sub-pixel deltas to whole pixels, carrying the fraction from call to
/// call so that slow motion adds up to real moves.
pub struct AccumulatingRounder {
    accum: i32,
}

impl AccumulatingRounder {
    /// The carried fraction, in sub-pixel steps.
    pub closed spec fn remainder(&self) -> int {
        self.accum as int
    }

    pub open spec fn wf(&self) -> bool {
        -SUBPIXELS < self.remainder() < SUBPIXELS
    }

    pub fn new() -> (r: AccumulatingRounder)
        ensures
            r.wf(),
            r.remainder() == 0,
    {
        AccumulatingRounder { accum: 0 }
    }

    /// Rounds `x` (in sub-pixel steps) toward zero, and adds one pixel in the
    /// direction of the carried fraction once it reaches a whole pixel.
    pub fn round(&mut self, x: i32) -> (r: i32)
        requires
            old(self).wf(),
        ensures
            final(self).wf(),
            (r as int, final(self).remainder()) == round_step(old(self).remainder(), x as int),
            r * SUBPIXELS + final(self).remainder() == x + old(self).remainder(),
    {
        let (t, f) = split_subpixels(x);
        let a: i32 = self.accum + f;
        if a >= SUBPIXELS {
            self.accum = a - SUBPIXELS;
            t + 1
        } else if a <= -SUBPIXELS {
            self.accum = a + SUBPIXELS;
            t - 1
        } else {
            self.accum = a;
            t
        }
    }
}

/// Splits `x` into whole pixels toward zero and the sub-pixel fraction left.
fn split_subpixels(x: i32) -> (r: (i32, i32))
    ensures
        r.0 == whole_part(x as int),
        r.1 == fraction_part(x as int),
        -SUBPIXELS < r.1 < SUBPIXELS,
        -8388608 <= r.0 <= 8388608,
{
    proof {
        lemma_whole_part_bounds(x as int);
    }
    let wide: i64 = x as i64;
    if wide >= 0 {
        let t: i64 = wide / SUBPIXELS as i64;
        (t as i32, (wide % SUBPIXELS as i64) as i32)
    } else {
        let m: i64 = -wide;
        let t: i64 = m / SUBPIXELS as i64;
        (-(t as i32), (wide + t * SUBPIXELS as i64) as i32)
    }
}

/// The pixel moved by stochastic rounding of `x` with the random `draw`: `x` is
/// rounded toward zero, then one pixel further from zero when the draw (taken
/// modulo a pixel) falls under the fraction, that is with probability equal to
/// the fraction for a uniform draw.
pub open spec fn stochastic_round(x: int, draw: int) -> int {
    let f = fraction_part(x);
    if f > 0 && draw % (SUBPIXELS as int) < f {
        whole_part(x) + 1
    } else if f < 0 && draw % (SUBPIXELS as int) < -f {
        whole_part(x) - 1
    } else {
        whole_part(x)
    }
}

/// Rounds `x` (in sub-pixel steps) with no carried state: away from zero with
/// probability equal to its fraction, given a uniformly random `draw`.
pub fn round_stochastic(x: i32, draw: u32) -> (r: i32)
    ensures
        r == stochastic_round(x as int, draw as int),
{
    let (t, f) = split_subpixels(x);
    let d: i32 = (draw % SUBPIXELS as u32) as i32;
    if f > 0 && d < f {
        t + 1
    } else if f < 0 && d < -f {
        t - 1
    } else {
        t
    }
}

} // verus!
