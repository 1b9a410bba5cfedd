//! Screen topology: monitor descriptors, the capture rectangle, and the
//! bounding box of all monitors (the virtual desktop).

use vstd::prelude::*;
use crate::errors::CaptureError;

verus! {

/// A user-selected region to screenshot, expressed in virtual-desktop
/// coordinates (origin at the top-left of the union of all monitors).
/// Also used verbatim as the cache key: equality is structural on all four
/// fields, never geometric.
#[derive(Clone, Copy, Debug, PartialEq, Eq, Structural)]
pub struct CaptureBounds {
    pub x: i32,
    pub y: i32,
    pub width: u32,
    pub height: u32,
}

/// One physical monitor as the operating system enumerates it: absolute
/// origin and pixel size.
#[derive(Clone, Copy, Debug, PartialEq, Eq, Structural)]
pub struct MonitorInfo {
    pub id: u32,
    pub x: i32,
    pub y: i32,
    pub width: u32,
    pub height: u32,
}

impl MonitorInfo {
    /// A monitor whose absolute bounds fit in signed 32-bit coordinates.
    /// Real monitor layouts satisfy this; it is the machine limit under which
    /// the original i32 coordinate arithmetic is meaningful.
    pub open spec fn valid(self) -> bool {
        &&& self.width <= i32::MAX
        &&& self.height <= i32::MAX
        &&& self.x + self.width <= i32::MAX
        &&& self.y + self.height <= i32::MAX
    }
}

/// Every monitor in the sequence is coordinate-valid.
pub open spec fn monitors_valid(mons: Seq<MonitorInfo>) -> bool {
    forall|i: int| 0 <= i < mons.len() ==> (#[trigger] mons[i]).valid()
}

/// The axis-aligned bounding box of all monitors: the virtual desktop.
/// `min` is the minimum of all monitor origins, `max` the maximum of all
/// monitor far corners, and `size == max - min` on each axis.
#[derive(Clone, Copy, Debug, PartialEq, Eq, Structural)]
pub struct TotalScreenArea {
    pub width: u32,
    pub height: u32,
    pub min_x: i32,
    pub min_y: i32,
    pub max_x: i32,
    pub max_y: i32,
}

impl TotalScreenArea {
    /// The monitor's absolute bounds lie within this area.
    pub open spec fn contains_monitor(self, m: MonitorInfo) -> bool {
        &&& self.min_x <= m.x
        &&& self.min_y <= m.y
        &&& m.x + m.width <= self.max_x
        &&& m.y + m.height <= self.max_y
    }

    /// The area is exactly the bounding box of the monitors: it contains each
    /// of them, each of its four edges is touched by some monitor, and its
    /// size equals the extent between the two corners.
    pub open spec fn is_bounding_box_of(self, mons: Seq<MonitorInfo>) -> bool {
        &&& forall|i: int| 0 <= i < mons.len() ==> self.contains_monitor(#[trigger] mons[i])
        &&& exists|i: int| 0 <= i < mons.len() && (#[trigger] mons[i]).x == self.min_x
        &&& exists|i: int| 0 <= i < mons.len() && (#[trigger] mons[i]).y == self.min_y
        &&& exists|i: int| 0 <= i < mons.len()
            && (#[trigger] mons[i]).x + mons[i].width == self.max_x
        &&& exists|i: int| 0 <= i < mons.len()
            && (#[trigger] mons[i]).y + mons[i].height == self.max_y
        &&& self.width == self.max_x - self.min_x
        &&& self.height == self.max_y - self.min_y
    }
}

/// Compute the virtual desktop that encloses every monitor: a single pass
/// tracking the running minimum of the origins and the running maximum of the
/// far corners. Overlapping and disjoint layouts are both handled, since only
/// the enclosing rectangle matters. Fails only when the list is empty.
pub fn compute_total_area(monitors: &Vec<MonitorInfo>) -> (r: Result<
    TotalScreenArea,
    CaptureError,
>)
    requires
        monitors_valid(monitors@),
    ensures
        r is Err <==> monitors@.len() == 0,
        r is Err ==> r == Err::<TotalScreenArea, CaptureError>(CaptureError::NoDisplays),
        r matches Ok(a) ==> a.is_bounding_box_of(monitors@),
{
    if monitors.len() == 0 {
        return Err(CaptureError::NoDisplays);
    }
    let m0 = monitors[0];
    let mut min_x: i32 = m0.x;
    let mut min_y: i32 = m0.y;
    let mut max_x: i32 = m0.x + (m0.width as i32);
    let mut max_y: i32 = m0.y + (m0.height as i32);
    let n = monitors.len();
    let mut i: usize = 1;
    while i < n
        invariant
            1 <= i <= n,
            n == monitors@.len(),
            monitors_valid(monitors@),
            forall|k: int| 0 <= k < i ==> {
                let m = #[trigger] monitors@[k];
                min_x <= m.x && min_y <= m.y && m.x + m.width <= max_x && m.y + m.height <= max_y
            },
            exists|k: int| 0 <= k < i && (#[trigger] monitors@[k]).x == min_x,
            exists|k: int| 0 <= k < i && (#[trigger] monitors@[k]).y == min_y,
            exists|k: int| 0 <= k < i && (#[trigger] monitors@[k]).x + monitors@[k].width == max_x,
            exists|k: int| 0 <= k < i && (#[trigger] monitors@[k]).y + monitors@[k].height == max_y,
        decreases n - i,
    {
        let m = monitors[i];
        if m.x < min_x {
            min_x = m.x;
        }
        if m.y < min_y {
            min_y = m.y;
        }
        let right = m.x + (m.width as i32);
        if right > max_x {
            max_x = right;
        }
        let bottom = m.y + (m.height as i32);
        if bottom > max_y {
            max_y = bottom;
        }
        i += 1;
    }
    assert(min_x <= max_x && min_y <= max_y);
    let width = ((max_x as i64) - (min_x as i64)) as u32;
    let height = ((max_y as i64) - (min_y as i64)) as u32;
    Ok(TotalScreenArea { width, height, min_x, min_y, max_x, max_y })
}

} // verus!
