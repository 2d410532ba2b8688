use polymouse::fixation::FixationFilter;
use polymouse::geometry::Point;
use polymouse::rounding::{round_stochastic, AccumulatingRounder};
use polymouse::smoothing::{LowPassFilter, OneEuroFilter, VecOneEuroFilter};

#[test]
fn fixation_constant_point_is_reported_after_first_tick() {
    let mut f = FixationFilter::new(30_000, 150);
    let p = Point::new(100, 200);
    assert_eq!(f.transform(p, 10_000), p);
    assert_eq!(f.cur, p);
    for _ in 0..20 {
        assert_eq!(f.transform(p, 10_000), p);
    }
}

#[test]
fn fixation_zero_dt_returns_input_and_buffers_it() {
    let mut f = FixationFilter::new(30_000, 150);
    let p = Point::new(100, 200);
    f.transform(p, 10_000);
    assert_eq!(f.buffered(), 1);
    let q = Point::new(900, 40);
    assert_eq!(f.transform(q, 0), q);
    assert_eq!(f.buffered(), 2);
    assert_eq!(f.cur, p);
}

#[test]
fn fixation_buffer_is_bounded() {
    let mut f = FixationFilter::new(30_000, 150);
    for i in 0..1000 {
        f.transform(Point::new(i, -i), 10_000);
        assert!(f.buffered() <= 512);
    }
    assert_eq!(f.buffered(), 512);
}

#[test]
fn fixation_lags_during_saccade_and_snaps_after() {
    let mut f = FixationFilter::new(30_000, 150);
    let a = Point::new(100, 200);
    let b = Point::new(500, 200);
    for _ in 0..5 {
        f.transform(a, 10_000);
    }
    // window of three samples: the old point is still in it
    assert_eq!(f.transform(b, 10_000), a);
    assert_eq!(f.transform(b, 10_000), a);
    assert_eq!(f.transform(b, 10_000), b);
}

#[test]
fn fixation_small_jitter_counts_as_fixation() {
    let mut f = FixationFilter::new(30_000, 150);
    f.transform(Point::new(100, 200), 10_000);
    // dispersion 3 against a threshold of 150 * 0.03 = 4.5
    let q = Point::new(102, 201);
    assert_eq!(f.transform(q, 10_000), q);
    // dispersion 5 is too much
    let r = Point::new(104, 201);
    assert_eq!(f.transform(r, 10_000), q);
}

#[test]
fn fixation_window_rounds_half_up() {
    // 30 ms at 20 ms ticks rounds to two samples
    let mut f = FixationFilter::new(30_000, 150);
    let a = Point::new(0, 0);
    let b = Point::new(50, 0);
    f.transform(a, 20_000);
    f.transform(b, 20_000);
    assert_eq!(f.cur, a);
    assert_eq!(f.transform(b, 20_000), b);
}

#[test]
fn rounder_quarter_pixel_emits_every_fourth_tick() {
    let mut r = AccumulatingRounder::new();
    let out: Vec<i32> = (0..8).map(|_| r.round(64)).collect();
    assert_eq!(out, vec![0, 0, 0, 1, 0, 0, 0, 1]);
}

#[test]
fn rounder_share_of_pixels_matches_fraction() {
    let mut r = AccumulatingRounder::new();
    let mut total = 0;
    for _ in 0..1000 {
        let v = r.round(77);
        assert!(v == 0 || v == 1);
        total += v;
    }
    assert_eq!(total, 1000 * 77 / 256);
}

#[test]
fn rounder_negative_input_carries_toward_negative() {
    let mut r = AccumulatingRounder::new();
    let out: Vec<i32> = (0..6).map(|_| r.round(-300)).collect();
    assert_eq!(out, vec![-1, -1, -1, -1, -1, -2]);
    assert_eq!(r.round(512), 2);
}

#[test]
fn stochastic_rounding_uses_the_draw() {
    assert_eq!(round_stochastic(128, 0), 1);
    assert_eq!(round_stochastic(128, 127), 1);
    assert_eq!(round_stochastic(128, 128), 0);
    assert_eq!(round_stochastic(128, 256), 1);
    assert_eq!(round_stochastic(-128, 0), -1);
    assert_eq!(round_stochastic(-128, 200), -1 + 1);
    assert_eq!(round_stochastic(512, 3), 2);
    assert_eq!(round_stochastic(-600, 10), -3);
}

#[test]
fn lowpass_first_sample_then_blend() {
    let mut f = LowPassFilter::new();
    assert_eq!(f.filter(100, 1, 2), 100);
    assert_eq!(f.filter(200, 1, 2), 150);
    assert_eq!(f.filter(0, 1, 4), 112);
    assert_eq!(f.hat_x_prev, 112);
}

#[test]
fn one_euro_constant_input_is_output() {
    let mut f = OneEuroFilter::new(37_699, 6_283_185, 6_283);
    for _ in 0..100 {
        assert_eq!(f.filter(500, 10_000), 500);
    }
}

#[test]
fn one_euro_step_moves_part_way() {
    let mut f = OneEuroFilter::new(37_699, 0, 6_283);
    assert_eq!(f.filter(500, 10_000), 500);
    assert_eq!(f.filter(1000, 10_000), 637);
}

#[test]
fn one_euro_closes_a_one_unit_gap() {
    let mut f = OneEuroFilter::new(37_699, 6_283_185, 6_283);
    assert_eq!(f.filter(0, 10_000), 0);
    assert_eq!(f.filter(1, 10_000), 1);
    let mut g = OneEuroFilter::new(37_699, 0, 6_283);
    g.filter(0, 1_000);
    let mut out = 0;
    for _ in 0..40 {
        out = g.filter(27, 1_000);
    }
    assert_eq!(out, 27);
}

#[test]
fn vec_one_euro_filters_axes_apart() {
    let mut f = VecOneEuroFilter::new(37_699, 0, 6_283);
    assert_eq!(f.filter(Point::new(500, -7), 10_000), Point::new(500, -7));
    assert_eq!(f.filter(Point::new(1000, -7), 10_000), Point::new(637, -7));
}
