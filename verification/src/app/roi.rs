//! The region of interest: numbers entered by the user and rectangles dragged on the live view.

use crate::scalar::Scalar;
use vstd::prelude::*;

verus! {

/// Smallest ROI that is commanded, in sensor pixels (drivers reject degenerate frames).
pub const MIN_ROI: i64 = 16;

/// `v` brought between `low` and `high`.
pub open spec fn between(v: int, low: int, high: int) -> int {
    if v < low {
        low
    } else if v > high {
        high
    } else {
        v
    }
}

/// Where a region starts on a sensor axis of `sensor` pixels.
pub open spec fn clamped_start(at: int, sensor: int) -> int {
    between(at, 0, sensor - 1)
}

/// How long a region is that starts at `start`: what is left of the axis at most, and at least
/// [`MIN_ROI`] where there is room.
pub open spec fn clamped_len(start: int, len: int, sensor: int) -> int {
    let room = sensor - start;
    between(
        len,
        if room < MIN_ROI {
            room
        } else {
            MIN_ROI as int
        },
        room,
    )
}

/// A region `(x, y, w, h)` clamped to a sensor; all zero for a sensor of unknown size.
pub open spec fn clamped(region: (int, int, int, int), sensor: (int, int)) -> (int, int, int, int) {
    let (x, y, w, h) = region;
    let (sw, sh) = sensor;
    if sw == 0 || sh == 0 {
        (0, 0, 0, 0)
    } else {
        let (cx, cy) = (clamped_start(x, sw), clamped_start(y, sh));
        (cx, cy, clamped_len(cx, w, sw), clamped_len(cy, h, sh))
    }
}

/// A region as mathematical integers.
pub open spec fn region(r: (u32, u32, u32, u32)) -> (int, int, int, int) {
    (r.0 as int, r.1 as int, r.2 as int, r.3 as int)
}

fn clamp_axis(at: i64, len: i64, sensor: u32) -> (r: (u32, u32))
    requires
        sensor > 0,
    ensures
        r.0 == clamped_start(at as int, sensor as int),
        r.1 == clamped_len(r.0 as int, len as int, sensor as int),
{
    let size: i64 = sensor as i64;
    let start: i64 = if at < 0 {
        0
    } else if at > size - 1 {
        size - 1
    } else {
        at
    };
    let room: i64 = size - start;
    let least: i64 = if room < MIN_ROI {
        room
    } else {
        MIN_ROI
    };
    let kept: i64 = if len < least {
        least
    } else if len > room {
        room
    } else {
        len
    };
    (start as u32, kept as u32)
}

/// Clamp user-entered ROI numbers to the sensor and enforce a minimum size, in sensor pixels.
pub fn clamp_roi(x: i64, y: i64, w: i64, h: i64, sensor_w: u32, sensor_h: u32) -> (r: (
    u32,
    u32,
    u32,
    u32,
))
    ensures
        region(r) == clamped(
            (x as int, y as int, w as int, h as int),
            (sensor_w as int, sensor_h as int),
        ),
{
    if sensor_w == 0 || sensor_h == 0 {
        return (0, 0, 0, 0);
    }
    let (cx, cw) = clamp_axis(x, w, sensor_w);
    let (cy, ch) = clamp_axis(y, h, sensor_h);
    (cx, cy, cw, ch)
}

/// A clamped region lies on the sensor, is never empty, and is at least [`MIN_ROI`] wide and high
/// wherever the sensor goes on that far.
pub proof fn law_clamped_region_lies_on_the_sensor(r: (int, int, int, int), sensor: (int, int))
    requires
        sensor.0 > 0,
        sensor.1 > 0,
    ensures
        ({
            let (x, y, w, h) = clamped(r, sensor);
            &&& 0 <= x && 1 <= w && x + w <= sensor.0
            &&& 0 <= y && 1 <= h && y + h <= sensor.1
            &&& w >= MIN_ROI || x + w == sensor.0
            &&& h >= MIN_ROI || y + h == sensor.1
        }),
{
}

/// Clamping a clamped region changes nothing.
pub proof fn law_clamping_twice_is_clamping_once(r: (int, int, int, int), sensor: (int, int))
    requires
        sensor.0 >= 0,
        sensor.1 >= 0,
    ensures
        clamped(clamped(r, sensor), sensor) == clamped(r, sensor),
{
}

/// A region on the sensor that is large enough is commanded as it was entered.
pub proof fn law_fitting_region_is_kept(r: (int, int, int, int), sensor: (int, int))
    requires
        0 <= r.0,
        0 <= r.1,
        MIN_ROI <= r.2,
        MIN_ROI <= r.3,
        r.0 + r.2 <= sensor.0,
        r.1 + r.3 <= sensor.1,
    ensures
        clamped(r, sensor) == r,
{
}

/// A drag within the displayed image, in pixels of the region on display: the fractions of the
/// image that it starts at and covers, each times the size of that region and rounded.
#[derive(Clone, Copy, Debug, PartialEq, Eq, Structural)]
pub struct Drag {
    pub x: u32,
    pub y: u32,
    pub w: u32,
    pub h: u32,
}

/// The region that a drag selects on an image of which `current` is on display: offset by the
/// region's origin and kept inside it.
pub open spec fn dragged(drag: Drag, current: (int, int, int, int)) -> (int, int, int, int) {
    let (cx, cy, cw, ch) = current;
    let x = if drag.x < cw {
        cx + drag.x
    } else {
        cx + cw - 1
    };
    let y = if drag.y < ch {
        cy + drag.y
    } else {
        cy + ch - 1
    };
    (x, y, between(drag.w as int, 1, cx + cw - x), between(drag.h as int, 1, cy + ch - y))
}

/// Map a drag rectangle drawn on the displayed image to a sensor-pixel ROI. The displayed frame is
/// the currently-applied ROI, so the drag composes with it. Without an image of positive size
/// (`image`, width and height on screen) or a region on display, the region stays.
pub fn drag_to_roi(image: (Scalar, Scalar), drag: Drag, current: (u32, u32, u32, u32)) -> (r: (
    u32,
    u32,
    u32,
    u32,
))
    requires
        current.0 + current.2 <= u32::MAX,
        current.1 + current.3 <= u32::MAX,
    ensures
        if image.0.at_most(Scalar::zero()) || image.1.at_most(Scalar::zero()) || current.2 == 0
            || current.3 == 0 {
            r == current
        } else {
            region(r) == dragged(drag, region(current))
        },
{
    let (cx, cy, cw, ch) = current;
    let zero = Scalar::new_zero();
    if image.0.le(zero) || image.1.le(zero) || cw == 0 || ch == 0 {
        return current;
    }
    let (x, w) = drag_axis(drag.x, drag.w, cx, cw);
    let (y, h) = drag_axis(drag.y, drag.h, cy, ch);
    (x, y, w, h)
}

fn drag_axis(at: u32, len: u32, origin: u32, size: u32) -> (r: (u32, u32))
    requires
        origin + size <= u32::MAX,
        size > 0,
    ensures
        r.0 == if at < size {
            origin + at
        } else {
            origin + size - 1
        },
        r.1 == between(len as int, 1, origin + size - r.0),
{
    let start: u32 = if at < size {
        origin + at
    } else {
        origin + (size - 1)
    };
    let room: u32 = origin + size - start;
    let kept: u32 = if len < 1 {
        1
    } else if len > room {
        room
    } else {
        len
    };
    (start, kept)
}

/// A drag selects a region inside the one on display.
pub proof fn law_drag_stays_inside_the_region(drag: Drag, current: (int, int, int, int))
    requires
        current.2 > 0,
        current.3 > 0,
    ensures
        ({
            let (x, y, w, h) = dragged(drag, current);
            &&& current.0 <= x && 1 <= w && x + w <= current.0 + current.2
            &&& current.1 <= y && 1 <= h && y + h <= current.1 + current.3
        }),
{
}

/// A drag over the whole image selects the region on display.
pub proof fn law_full_drag_keeps_the_region(current: (u32, u32, u32, u32))
    requires
        current.2 > 0,
        current.3 > 0,
    ensures
        dragged(Drag { x: 0, y: 0, w: current.2, h: current.3 }, region(current)) == region(
            current,
        ),
{
}

/// Clamping moves each number no further than it must: the corner stays where it is on the sensor, a
/// size stays where there is room for it and it is not below 16 pixels; without a sensor there is no
/// region.
pub proof fn law_clamping_moves_no_further_than_needed(
    r: (int, int, int, int),
    sensor: (int, int),
)
    requires
        sensor.0 >= 0,
        sensor.1 >= 0,
    ensures
        ({
            let (x, y, w, h) = clamped(r, sensor);
            &&& sensor.0 == 0 || sensor.1 == 0 ==> (x, y, w, h) == (0int, 0int, 0int, 0int)
            &&& sensor.0 > 0 && sensor.1 > 0 ==> {
                &&& 0 <= r.0 < sensor.0 ==> x == r.0
                &&& r.0 < 0 ==> x == 0
                &&& r.0 >= sensor.0 ==> x == sensor.0 - 1
                &&& 0 <= r.1 < sensor.1 ==> y == r.1
                &&& r.1 < 0 ==> y == 0
                &&& r.1 >= sensor.1 ==> y == sensor.1 - 1
                &&& 16 <= r.2 && x + r.2 <= sensor.0 ==> w == r.2
                &&& x + r.2 > sensor.0 ==> w == sensor.0 - x
                &&& r.2 < 16 && x + 16 <= sensor.0 ==> w == 16
                &&& r.2 < 16 && x + 16 > sensor.0 ==> w == sensor.0 - x
                &&& 16 <= r.3 && y + r.3 <= sensor.1 ==> h == r.3
                &&& y + r.3 > sensor.1 ==> h == sensor.1 - y
                &&& r.3 < 16 && y + 16 <= sensor.1 ==> h == 16
                &&& r.3 < 16 && y + 16 > sensor.1 ==> h == sensor.1 - y
            }
        }),
        MIN_ROI == 16,
{
}

/// The axes are clamped alike: with columns and rows exchanged the result is exchanged.
pub proof fn law_axes_are_clamped_alike(r: (int, int, int, int), sensor: (int, int))
    ensures
        ({
            let (x, y, w, h) = clamped(r, sensor);
            clamped((r.1, r.0, r.3, r.2), (sensor.1, sensor.0)) == (y, x, h, w)
        }),
{
}

/// A rectangle dragged inside the picture is that rectangle within the current region: moved by its
/// corner, of its own size.
pub proof fn law_drag_selects_what_was_drawn(drag: Drag, current: (int, int, int, int))
    requires
        drag.w >= 1,
        drag.h >= 1,
        drag.x + drag.w <= current.2,
        drag.y + drag.h <= current.3,
    ensures
        dragged(drag, current) == (
            current.0 + drag.x,
            current.1 + drag.y,
            drag.w as int,
            drag.h as int,
        ),
{
}

/// A region is its four numbers.
pub proof fn law_region_keeps_its_numbers(x: u32, y: u32, w: u32, h: u32)
    ensures
        region((x, y, w, h)) == (x as int, y as int, w as int, h as int),
{
}

} // verus!
