use polymouse::fixation::FixationFilter;
use polymouse::fusion::{PolyMouseParams, PolyMouseTransform};
use polymouse::geometry::Point;
use polymouse::pipeline::Pipeline;
use polymouse::pointer::{calc_dt, confine, move_command, CursorCommand};
use polymouse::smoothing::VecOneEuroFilter;
use polymouse::InputAction;

fn params() -> PolyMouseParams {
    PolyMouseParams {
        min_jump: 100,
        speed_expand_factor: 0,
        head_smoothing_factor: 1000,
        throw_thresh_speed: 300,
        throw_speed: 8000,
        small_jump_factor: 750,
    }
}

fn head_filter() -> VecOneEuroFilter {
    VecOneEuroFilter::new(37_699, 6_283_185, 6_283)
}

#[test]
fn confine_keeps_destination_on_display() {
    assert_eq!(confine(Point::new(-5, 2000), 1920, 1080), Point::new(0, 1080));
    assert_eq!(confine(Point::new(300, 400), 1920, 1080), Point::new(300, 400));
}

#[test]
fn move_only_when_destination_differs() {
    assert_eq!(move_command(Point::new(3, 4), Point::new(3, 4)), None);
    assert_eq!(
        move_command(Point::new(3, 5), Point::new(3, 4)),
        Some(CursorCommand::AbsoluteMove { x: 3, y: 5 })
    );
}

#[test]
fn clock_measures_since_previous_tick() {
    let mut last = 1000u64;
    assert_eq!(calc_dt(1500, &mut last), 500);
    assert_eq!(last, 1500);
    assert_eq!(calc_dt(900, &mut last), 0);
    assert_eq!(last, 900);
}

#[test]
fn fusion_small_jump_then_creep() {
    let mut t = PolyMouseTransform::new(params());
    let gaze = Point::new(1000, 500);
    let d = t.transform(gaze, Point::new(0, 0), Point::new(0, 0), 10_000);
    assert_eq!(d, Point::new(750, 375));
    assert_eq!(t.last_jump_destination, gaze);
    let d = t.transform(gaze, Point::new(750, 375), Point::new(2, -1), 10_000);
    assert_eq!(d, Point::new(752, 374));
    assert_eq!(t.last_jump_destination, gaze);
}

#[test]
fn fusion_throw_overshoots_in_head_direction() {
    let mut t = PolyMouseTransform::new(params());
    let d = t.transform(Point::new(1000, 500), Point::new(0, 0), Point::new(10, 0), 10_000);
    assert_eq!(d, Point::new(1080, 500));
}

#[test]
fn fusion_smooths_head_delta() {
    let mut p = params();
    p.head_smoothing_factor = 500;
    let mut t = PolyMouseTransform::new(p);
    let m = Point::new(10, 10);
    assert_eq!(t.transform(m, m, Point::new(10, -10), 10_000), Point::new(15, 5));
    assert_eq!(t.transform(m, m, Point::new(10, -10), 10_000), Point::new(17, 3));
}

#[test]
fn pipeline_gaze_then_head_ticks() {
    let mut p = Pipeline::new(0, head_filter(), params(), FixationFilter::new(30_000, 150));
    assert_eq!(p.gaze(10_000, Point::new(1000, 500)), Point::new(1000, 500));
    assert_eq!(
        p.head_move(0, 0, 10_000, Point::new(0, 0), 1920, 1080),
        Some(CursorCommand::AbsoluteMove { x: 750, y: 375 })
    );
    assert_eq!(
        p.head_move(512, -256, 10_000, Point::new(750, 375), 1920, 1080),
        Some(CursorCommand::AbsoluteMove { x: 752, y: 374 })
    );
    assert_eq!(p.head_move(0, 0, 10_000, Point::new(750, 375), 1920, 1080), None);
}

#[test]
fn pipeline_clocks_are_independent() {
    let mut p = Pipeline::new(0, head_filter(), params(), FixationFilter::new(30_000, 150));
    assert_eq!(p.head_delta(5_000_000, 0, 0), (5_000_000, 0, 0));
    p.gaze(5_010_000, Point::new(1, 1));
    assert_eq!(p.head_delta(5_020_000, 0, 0).0, 20_000);
}

#[test]
fn pipeline_zero_dt_head_pose_is_ignored() {
    let mut p = Pipeline::new(0, head_filter(), params(), FixationFilter::new(30_000, 150));
    assert_eq!(p.head_delta(0, 1000, 0), (0, 0, 0));
    assert!(p.last_head_pose.is_none());
}

#[test]
fn head_delta_ramps_up_under_adaptive_cutoff() {
    let mut p = Pipeline::new(0, head_filter(), params(), FixationFilter::new(30_000, 150));
    // yaw in millionths of a degree, one degree more each second
    assert_eq!(p.head_delta(1_000_000, 1_000_000, 0), (1_000_000, 0, 0));
    let (_, first, _) = p.head_delta(2_000_000, 2_000_000, 0);
    assert_eq!(first, -999_817);
    for k in 3..10u64 {
        let (_, later, _) = p.head_delta(k * 1_000_000, (k * 1_000_000) as i32, 0);
        assert!(later < 0);
        assert!(first.abs() < later.abs());
    }
}

#[test]
fn shutdown_action_exists() {
    assert!(matches!(InputAction::Shutdown, InputAction::Shutdown));
}
