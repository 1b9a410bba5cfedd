//! The coordinate transformer: map a capture rectangle expressed in
//! virtual-desktop coordinates onto the first monitor that can service it,
//! producing monitor-local, clamped, size-validated coordinates.

use vstd::prelude::*;
use crate::errors::CaptureError;
use crate::geometry::{CaptureBounds, MonitorInfo, TotalScreenArea, monitors_valid};

verus! {

/// Minimum usable capture extent on either axis, in pixels. A monitor whose
/// clamped region drops below this floor is skipped in favour of the next
/// overlapping monitor.
pub const MIN_CAPTURE_DIM: u32 = 10;

/// The requested rectangle's absolute x coordinate: virtual-desktop
/// coordinates are relative to the top-left of the bounding box.
pub open spec fn abs_x(b: CaptureBounds, area: TotalScreenArea) -> int {
    b.x + area.min_x
}

/// The requested rectangle's absolute y coordinate.
pub open spec fn abs_y(b: CaptureBounds, area: TotalScreenArea) -> int {
    b.y + area.min_y
}

/// Open-interval intersection on both axes between the absolute rectangle
/// `[ax, ax+w) x [ay, ay+h)` and the monitor's absolute bounds.
pub open spec fn monitor_overlaps(m: MonitorInfo, ax: int, ay: int, w: int, h: int) -> bool {
    &&& ax < m.x + m.width
    &&& ax + w > m.x
    &&& ay < m.y + m.height
    &&& ay + h > m.y
}

/// Clamp a monitor-local origin into `[0, max(0, msize - req)]`, so that a
/// rectangle of the requested extent starting there never runs past the
/// monitor edge (and a request wider than the monitor is pulled to 0).
pub open spec fn clamp_origin(local: int, msize: int, req: int) -> int {
    let hi = if msize >= req {
        msize - req
    } else {
        0
    };
    let lo = if local < 0 {
        0
    } else {
        local
    };
    if lo > hi {
        hi
    } else {
        lo
    }
}

/// Clamp a requested extent to what remains of the monitor past the clamped
/// origin: `min(req, msize - origin)`.
pub open spec fn clamp_size(msize: int, req: int, origin: int) -> int {
    if req <= msize - origin {
        req
    } else {
        msize - origin
    }
}

/// The clamped monitor-local x origin for an absolute request against `m`.
pub open spec fn clamped_x(m: MonitorInfo, ax: int, w: int) -> int {
    clamp_origin(ax - m.x, m.width as int, w)
}

/// The clamped monitor-local y origin.
pub open spec fn clamped_y(m: MonitorInfo, ay: int, h: int) -> int {
    clamp_origin(ay - m.y, m.height as int, h)
}

/// The clamped capture width on `m`.
pub open spec fn clamped_w(m: MonitorInfo, ax: int, w: int) -> int {
    clamp_size(m.width as int, w, clamped_x(m, ax, w))
}

/// The clamped capture height on `m`.
pub open spec fn clamped_h(m: MonitorInfo, ay: int, h: int) -> int {
    clamp_size(m.height as int, h, clamped_y(m, ay, h))
}

/// The monitor overlaps the request and still offers at least the minimum
/// usable extent after clamping.
pub open spec fn monitor_usable(m: MonitorInfo, ax: int, ay: int, w: int, h: int) -> bool {
    &&& monitor_overlaps(m, ax, ay, w, h)
    &&& clamped_w(m, ax, w) >= MIN_CAPTURE_DIM
    &&& clamped_h(m, ay, h) >= MIN_CAPTURE_DIM
}

/// Some monitor overlaps the absolute request.
pub open spec fn any_overlap(mons: Seq<MonitorInfo>, ax: int, ay: int, w: int, h: int) -> bool {
    exists|i: int| 0 <= i < mons.len() && monitor_overlaps(#[trigger] mons[i], ax, ay, w, h)
}

/// Some monitor can service the absolute request.
pub open spec fn any_usable(mons: Seq<MonitorInfo>, ax: int, ay: int, w: int, h: int) -> bool {
    exists|i: int| 0 <= i < mons.len() && monitor_usable(#[trigger] mons[i], ax, ay, w, h)
}

/// A capture request bound to one monitor: the index of the chosen monitor in
/// enumeration order, and the clamped rectangle in that monitor's local
/// coordinate space.
#[derive(Clone, Copy, Debug, PartialEq, Eq, Structural)]
pub struct ResolvedCapture {
    pub screen_index: usize,
    pub local: CaptureBounds,
}

/// Resolve a virtual-desktop capture rectangle to the first monitor (in
/// enumeration order) whose bounds overlap it and whose clamped region is at
/// least `MIN_CAPTURE_DIM` on both axes. Ties between monitors go to the one
/// enumerated first, a deliberate simplicity trade-off.
///
/// On success the local rectangle is fully contained in the chosen monitor —
/// never partially outside it. With no overlapping monitor the request fails
/// with `NoMatchingMonitor`; with overlapping monitors that all clamp below
/// the floor it fails with `RegionTooSmall`.
pub fn resolve(
    bounds: &CaptureBounds,
    area: &TotalScreenArea,
    monitors: &Vec<MonitorInfo>,
) -> (r: Result<ResolvedCapture, CaptureError>)
    requires
        monitors_valid(monitors@),
    ensures
        r is Ok <==> any_usable(
            monitors@,
            abs_x(*bounds, *area),
            abs_y(*bounds, *area),
            bounds.width as int,
            bounds.height as int,
        ),
        r matches Ok(rc) ==> {
            let ax = abs_x(*bounds, *area);
            let ay = abs_y(*bounds, *area);
            let w = bounds.width as int;
            let h = bounds.height as int;
            let m = monitors@[rc.screen_index as int];
            &&& rc.screen_index < monitors@.len()
            &&& monitor_usable(m, ax, ay, w, h)
            &&& forall|j: int|
                0 <= j < rc.screen_index ==> !monitor_usable(#[trigger] monitors@[j], ax, ay, w, h)
            &&& rc.local.x == clamped_x(m, ax, w)
            &&& rc.local.y == clamped_y(m, ay, h)
            &&& rc.local.width == clamped_w(m, ax, w)
            &&& rc.local.height == clamped_h(m, ay, h)
            &&& rc.local.x >= 0
            &&& rc.local.y >= 0
            &&& rc.local.x + rc.local.width <= m.width
            &&& rc.local.y + rc.local.height <= m.height
            &&& rc.local.width >= MIN_CAPTURE_DIM
            &&& rc.local.height >= MIN_CAPTURE_DIM
        },
        r is Err ==> {
            let ax = abs_x(*bounds, *area);
            let ay = abs_y(*bounds, *area);
            let w = bounds.width as int;
            let h = bounds.height as int;
            if any_overlap(monitors@, ax, ay, w, h) {
                r == Err::<ResolvedCapture, CaptureError>(CaptureError::RegionTooSmall)
            } else {
                r == Err::<ResolvedCapture, CaptureError>(CaptureError::NoMatchingMonitor)
            }
        },
{
    let ax: i64 = bounds.x as i64 + area.min_x as i64;
    let ay: i64 = bounds.y as i64 + area.min_y as i64;
    let w: i64 = bounds.width as i64;
    let h: i64 = bounds.height as i64;
    let n = monitors.len();
    let mut any_ov = false;
    let mut i: usize = 0;
    while i < n
        invariant
            0 <= i <= n,
            n == monitors@.len(),
            monitors_valid(monitors@),
            ax == abs_x(*bounds, *area),
            ay == abs_y(*bounds, *area),
            w == bounds.width as int,
            h == bounds.height as int,
            forall|j: int|
                0 <= j < i ==> !monitor_usable(#[trigger] monitors@[j], ax as int, ay as int, w as int, h as int),
            any_ov <==> exists|j: int|
                0 <= j < i && monitor_overlaps(
                    #[trigger] monitors@[j],
                    ax as int,
                    ay as int,
                    w as int,
                    h as int,
                ),
        decreases n - i,
    {
        let m = monitors[i];
        let mleft: i64 = m.x as i64;
        let mtop: i64 = m.y as i64;
        let mright: i64 = m.x as i64 + m.width as i64;
        let mbottom: i64 = m.y as i64 + m.height as i64;
        if ax < mright && ax + w > mleft && ay < mbottom && ay + h > mtop {
            any_ov = true;
            let lx: i64 = ax - mleft;
            let ly: i64 = ay - mtop;
            let hi_x: i64 = if m.width as i64 >= w {
                m.width as i64 - w
            } else {
                0
            };
            let hi_y: i64 = if m.height as i64 >= h {
                m.height as i64 - h
            } else {
                0
            };
            let sx: i64 = if lx < 0 {
                0
            } else if lx > hi_x {
                hi_x
            } else {
                lx
            };
            let sy: i64 = if ly < 0 {
                0
            } else if ly > hi_y {
                hi_y
            } else {
                ly
            };
            let sw: i64 = if w <= m.width as i64 - sx {
                w
            } else {
                m.width as i64 - sx
            };
            let sh: i64 = if h <= m.height as i64 - sy {
                h
            } else {
                m.height as i64 - sy
            };
            if sw >= MIN_CAPTURE_DIM as i64 && sh >= MIN_CAPTURE_DIM as i64 {
                return Ok(
                    ResolvedCapture {
                        screen_index: i,
                        local: CaptureBounds {
                            x: sx as i32,
                            y: sy as i32,
                            width: sw as u32,
                            height: sh as u32,
                        },
                    },
                );
            }
        }
        i += 1;
    }
    if any_ov {
        Err(CaptureError::RegionTooSmall)
    } else {
        Err(CaptureError::NoMatchingMonitor)
    }
}

/// The single-screen fallback used when topology resolution is unavailable:
/// clamp the raw virtual-desktop rectangle directly against the first
/// monitor's size, with no coordinate translation. Fails with
/// `RegionTooSmall` when the clamped region drops below the minimum extent.
pub fn resolve_single_fallback(
    bounds: &CaptureBounds,
    screen_width: u32,
    screen_height: u32,
) -> (r: Result<CaptureBounds, CaptureError>)
    requires
        screen_width <= i32::MAX,
        screen_height <= i32::MAX,
    ensures
        ({
            let sx = clamp_origin(bounds.x as int, screen_width as int, bounds.width as int);
            let sy = clamp_origin(bounds.y as int, screen_height as int, bounds.height as int);
            let sw = clamp_size(screen_width as int, bounds.width as int, sx);
            let sh = clamp_size(screen_height as int, bounds.height as int, sy);
            &&& (r is Ok <==> sw >= MIN_CAPTURE_DIM && sh >= MIN_CAPTURE_DIM)
            &&& (r matches Ok(c) ==> {
                &&& c.x == sx
                &&& c.y == sy
                &&& c.width == sw
                &&& c.height == sh
                &&& c.x >= 0
                &&& c.y >= 0
                &&& c.x + c.width <= screen_width
                &&& c.y + c.height <= screen_height
            })
            &&& (r is Err ==> r == Err::<CaptureBounds, CaptureError>(CaptureError::RegionTooSmall))
        }),
{
    let w: i64 = bounds.width as i64;
    let h: i64 = bounds.height as i64;
    let lx: i64 = bounds.x as i64;
    let ly: i64 = bounds.y as i64;
    let hi_x: i64 = if screen_width as i64 >= w {
        screen_width as i64 - w
    } else {
        0
    };
    let hi_y: i64 = if screen_height as i64 >= h {
        screen_height as i64 - h
    } else {
        0
    };
    let sx: i64 = if lx < 0 {
        0
    } else if lx > hi_x {
        hi_x
    } else {
        lx
    };
    let sy: i64 = if ly < 0 {
        0
    } else if ly > hi_y {
        hi_y
    } else {
        ly
    };
    let sw: i64 = if w <= screen_width as i64 - sx {
        w
    } else {
        screen_width as i64 - sx
    };
    let sh: i64 = if h <= screen_height as i64 - sy {
        h
    } else {
        screen_height as i64 - sy
    };
    if sw >= MIN_CAPTURE_DIM as i64 && sh >= MIN_CAPTURE_DIM as i64 {
        Ok(
            CaptureBounds {
                x: sx as i32,
                y: sy as i32,
                width: sw as u32,
                height: sh as u32,
            },
        )
    } else {
        Err(CaptureError::RegionTooSmall)
    }
}

} // verus!
