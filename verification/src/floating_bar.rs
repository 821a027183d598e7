//! Where the main window appears when it is shown from the tray: in the
//! bottom-right corner of the work area, above the taskbar.
use crate::window_state::{PhysicalPosition, PhysicalSize, WorkArea};
use vstd::prelude::*;

verus! {

pub const TASKBAR_GAP_PX: i32 = 12;

pub const SCREEN_EDGE_GAP_PX: i32 = 18;

/// Whether the offsets and the final position stay within `i32`.
pub open spec fn taskbar_position_fits(work_area: WorkArea, size: PhysicalSize) -> bool {
    &&& i32::MIN <= (work_area.width as i32) - (size.width as i32) - SCREEN_EDGE_GAP_PX <= i32::MAX
    &&& i32::MIN <= (work_area.height as i32) - (size.height as i32) - TASKBAR_GAP_PX <= i32::MAX
    &&& i32::MIN <= (work_area.width as i32) - (size.width as i32) <= i32::MAX
    &&& i32::MIN <= (work_area.height as i32) - (size.height as i32) <= i32::MAX
    &&& work_area.x + taskbar_offset(work_area.width, size.width, SCREEN_EDGE_GAP_PX) <= i32::MAX
    &&& work_area.y + taskbar_offset(work_area.height, size.height, TASKBAR_GAP_PX) <= i32::MAX
}

/// The room left along one axis after the window and the gap, at least zero;
/// sizes are read as `i32` the way a cast reads them.
pub open spec fn taskbar_offset(area: u32, span: u32, gap: i32) -> int {
    let room = (area as i32) - (span as i32) - gap;
    if room > 0 {
        room
    } else {
        0
    }
}

/// The window's position above the taskbar.
pub fn position_above_taskbar(work_area: WorkArea, size: PhysicalSize) -> (r: PhysicalPosition)
    requires
        taskbar_position_fits(work_area, size),
    ensures
        r.x == work_area.x + taskbar_offset(work_area.width, size.width, SCREEN_EDGE_GAP_PX),
        r.y == work_area.y + taskbar_offset(work_area.height, size.height, TASKBAR_GAP_PX),
{
    let width = size.width as i32;
    let height = size.height as i32;
    let work_width = work_area.width as i32;
    let work_height = work_area.height as i32;
    let x_room = work_width - width - SCREEN_EDGE_GAP_PX;
    let y_room = work_height - height - TASKBAR_GAP_PX;
    let x_offset = if x_room > 0 {
        x_room
    } else {
        0
    };
    let y_offset = if y_room > 0 {
        y_room
    } else {
        0
    };
    PhysicalPosition { x: work_area.x + x_offset, y: work_area.y + y_offset }
}

} // verus!
