use vstd::prelude::*;

use crate::geometry::Point;

verus! {

/// What the pipeline asks of the pointer, in whole pixels.
#[derive(Clone, Copy, Debug, PartialEq, Eq, Structural)]
pub enum CursorCommand {
    AbsoluteMove { x: i32, y: i32 },
    RelativeMove { dx: i32, dy: i32 },
}

/// `v` held to at most `hi`, then to at least zero.
pub open spec fn confine_axis(v: int, hi: int) -> int {
    let m = if hi < v { hi } else { v };
    if m < 0 { 0 } else { m }
}

/// Keeps a destination on a display of the given size.
pub fn confine(dest: Point, display_width: i32, display_height: i32) -> (r: Point)
    ensures
        r.x == confine_axis(dest.x as int, display_width as int),
        r.y == confine_axis(dest.y as int, display_height as int),
{
    let x = if display_width < dest.x { display_width } else { dest.x };
    let y = if display_height < dest.y { display_height } else { dest.y };
    Point { x: if x < 0 { 0 } else { x }, y: if y < 0 { 0 } else { y } }
}

/// The move that takes the pointer from `mouse` to `dest`: none when it is there.
pub fn move_command(dest: Point, mouse: Point) -> (r: Option<CursorCommand>)
    ensures
        r == (if dest == mouse {
            None::<CursorCommand>
        } else {
            Some(CursorCommand::AbsoluteMove { x: dest.x, y: dest.y })
        }),
{
    if dest.x == mouse.x && dest.y == mouse.y {
        None
    } else {
        Some(CursorCommand::AbsoluteMove { x: dest.x, y: dest.y })
    }
}

/// The time since the previous tick of one modality, in microseconds (zero when
/// the clock reads earlier than that tick); the tick becomes the previous one.
pub fn calc_dt(tick_us: u64, last_tick_us: &mut u64) -> (dt: u64)
    ensures
        dt == (if tick_us >= *old(last_tick_us) { tick_us - *old(last_tick_us) } else { 0 }),
        *final(last_tick_us) == tick_us,
{
    let dt = if tick_us >= *last_tick_us { tick_us - *last_tick_us } else { 0 };
    *last_tick_us = tick_us;
    dt
}

} // verus!
