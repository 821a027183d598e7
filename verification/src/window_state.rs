//! Where the main window goes: a saved position is restored on the first
//! monitor where enough of the window stays visible (a window that was against
//! the right or bottom edge stays against it when its size changed), else the
//! window sits in the bottom-right corner; a dragged window snaps to a nearby
//! work-area edge. Positions and sizes are physical pixels.
use vstd::prelude::*;

verus! {

pub const STATE_FILE_NAME: &'static str = "quotadock-window-state.json";

pub const STATE_VERSION: u8 = 2;

pub const LEGACY_STATE_VERSION: u8 = 1;

pub const LEGACY_MAIN_WINDOW_WIDTH: u64 = 360;

pub const MAIN_WINDOW_WIDTH: u64 = 260;

pub const MAIN_WINDOW_LABEL: &'static str = "main";

pub const EDGE_MARGIN: i32 = 12;

pub const SNAP_THRESHOLD: i32 = 18;

pub const MIN_VISIBLE_WIDTH: i64 = 64;

pub const MIN_VISIBLE_HEIGHT: i64 = 48;

#[derive(Clone, Copy, Debug, PartialEq, Eq, Structural)]
pub struct PhysicalPosition {
    pub x: i32,
    pub y: i32,
}

#[derive(Clone, Copy, Debug, PartialEq, Eq, Structural)]
pub struct PhysicalSize {
    pub width: u32,
    pub height: u32,
}

#[derive(Clone, Copy, Debug, PartialEq, Eq, Structural)]
pub struct SavedPosition {
    pub x: i32,
    pub y: i32,
    pub width: Option<u32>,
    pub height: Option<u32>,
}

#[derive(Clone, Copy, Debug, PartialEq, Eq, Structural)]
pub struct SavedWindowState {
    pub version: u8,
    pub main: SavedPosition,
}

#[derive(Clone, Copy, Debug, PartialEq, Eq, Structural)]
pub struct WorkArea {
    pub x: i32,
    pub y: i32,
    pub width: u32,
    pub height: u32,
}

/// A monitor's work area and the window's current size there (its logical
/// size at the monitor's scale), when that size is a valid one.
#[derive(Clone, Copy, Debug, PartialEq, Eq, Structural)]
pub struct MonitorFit {
    pub work_area: WorkArea,
    pub current_size: Option<PhysicalSize>,
}

#[derive(Clone, Copy, Debug, PartialEq, Eq, Structural)]
pub struct ResolvedPosition {
    pub position: PhysicalPosition,
    pub physical_size: PhysicalSize,
    pub should_persist: bool,
}

#[derive(Clone, Copy, Debug, PartialEq, Eq, Structural)]
pub struct SnapCandidate {
    pub position: PhysicalPosition,
    pub distance: i64,
}

/// A value held within the range of `i32`.
pub open spec fn clamp_i32(value: int) -> i32 {
    if value < i32::MIN {
        i32::MIN
    } else if value > i32::MAX {
        i32::MAX
    } else {
        value as i32
    }
}

pub fn i32_from_i64(value: i64) -> (r: i32)
    ensures
        r == clamp_i32(value as int),
{
    if value < i32::MIN as i64 {
        i32::MIN
    } else if value > i32::MAX as i64 {
        i32::MAX
    } else {
        value as i32
    }
}

pub open spec fn min_int(a: int, b: int) -> int {
    if a <= b {
        a
    } else {
        b
    }
}

pub open spec fn max_int(a: int, b: int) -> int {
    if a >= b {
        a
    } else {
        b
    }
}

pub open spec fn abs_int(a: int) -> int {
    if a < 0 {
        -a
    } else {
        a
    }
}

// ---------------------------------------------------------------------------
// The bottom-right corner
// ---------------------------------------------------------------------------

/// A width or height as an `i32`, held at `i32::MAX`.
pub open spec fn span_i32(v: u32) -> int {
    min_int(v as int, i32::MAX as int)
}

/// Whether the corner arithmetic stays within `i32` at every step.
pub open spec fn corner_fits(work_area: WorkArea, size: PhysicalSize) -> bool {
    &&& work_area.x + span_i32(work_area.width) <= i32::MAX
    &&& work_area.x + span_i32(work_area.width) - span_i32(size.width) >= i32::MIN
    &&& work_area.x + span_i32(work_area.width) - span_i32(size.width) - EDGE_MARGIN >= i32::MIN
    &&& work_area.y + span_i32(work_area.height) <= i32::MAX
    &&& work_area.y + span_i32(work_area.height) - span_i32(size.height) >= i32::MIN
    &&& work_area.y + span_i32(work_area.height) - span_i32(size.height) - EDGE_MARGIN >= i32::MIN
}

/// Whether the corner position can be computed within `i32` for this work
/// area and size.
pub fn bottom_right_fits(work_area: WorkArea, size: PhysicalSize) -> (r: bool)
    ensures
        r == corner_fits(work_area, size),
{
    let span = |v: u32| -> (s: i64)
        ensures
            s == span_i32(v),
        {
            if v > i32::MAX as u32 {
                i32::MAX as i64
            } else {
                v as i64
            }
        };
    let right = work_area.x as i64 + span(work_area.width);
    let bottom = work_area.y as i64 + span(work_area.height);
    let min = i32::MIN as i64;
    let max = i32::MAX as i64;
    right <= max && right - span(size.width) >= min && right - span(size.width) - EDGE_MARGIN as i64
        >= min && bottom <= max && bottom - span(size.height) >= min && bottom - span(size.height)
        - EDGE_MARGIN as i64 >= min
}

/// The window in the bottom-right corner of the work area, a margin in from
/// its edges, and never left of or above the work area.
pub fn bottom_right_position(work_area: WorkArea, size: PhysicalSize) -> (r: PhysicalPosition)
    requires
        corner_fits(work_area, size),
    ensures
        r.x == max_int(
            work_area.x + span_i32(work_area.width) - span_i32(size.width) - EDGE_MARGIN,
            work_area.x as int,
        ),
        r.y == max_int(
            work_area.y + span_i32(work_area.height) - span_i32(size.height) - EDGE_MARGIN,
            work_area.y as int,
        ),
{
    let width: i32 = if size.width > i32::MAX as u32 {
        i32::MAX
    } else {
        size.width as i32
    };
    let height: i32 = if size.height > i32::MAX as u32 {
        i32::MAX
    } else {
        size.height as i32
    };
    let area_width: i32 = if work_area.width > i32::MAX as u32 {
        i32::MAX
    } else {
        work_area.width as i32
    };
    let area_height: i32 = if work_area.height > i32::MAX as u32 {
        i32::MAX
    } else {
        work_area.height as i32
    };
    let x = work_area.x + area_width - width - EDGE_MARGIN;
    let y = work_area.y + area_height - height - EDGE_MARGIN;
    PhysicalPosition {
        x: if x >= work_area.x {
            x
        } else {
            work_area.x
        },
        y: if y >= work_area.y {
            y
        } else {
            work_area.y
        },
    }
}

// ---------------------------------------------------------------------------
// Visibility
// ---------------------------------------------------------------------------

/// Whether enough of a window at `position` lies in the work area: 64 pixels
/// across and 48 down, or all of it when it is smaller.
pub open spec fn is_visible(position: PhysicalPosition, size: PhysicalSize, work_area: WorkArea) -> bool {
    let left = position.x as int;
    let top = position.y as int;
    let right = left + size.width;
    let bottom = top + size.height;
    let area_left = work_area.x as int;
    let area_top = work_area.y as int;
    let area_right = area_left + work_area.width;
    let area_bottom = area_top + work_area.height;
    let visible_width = min_int(right, area_right) - max_int(left, area_left);
    let visible_height = min_int(bottom, area_bottom) - max_int(top, area_top);
    visible_width >= min_int(MIN_VISIBLE_WIDTH as int, size.width as int) && visible_height
        >= min_int(MIN_VISIBLE_HEIGHT as int, size.height as int)
}

pub fn position_is_visible_in_work_area(
    position: PhysicalPosition,
    size: PhysicalSize,
    work_area: WorkArea,
) -> (r: bool)
    ensures
        r == is_visible(position, size, work_area),
{
    let left = position.x as i64;
    let top = position.y as i64;
    let right = left + size.width as i64;
    let bottom = top + size.height as i64;
    let area_left = work_area.x as i64;
    let area_top = work_area.y as i64;
    let area_right = area_left + work_area.width as i64;
    let area_bottom = area_top + work_area.height as i64;
    let visible_width = (if right <= area_right {
        right
    } else {
        area_right
    }) - (if left >= area_left {
        left
    } else {
        area_left
    });
    let visible_height = (if bottom <= area_bottom {
        bottom
    } else {
        area_bottom
    }) - (if top >= area_top {
        top
    } else {
        area_top
    });
    let required_width = if MIN_VISIBLE_WIDTH <= size.width as i64 {
        MIN_VISIBLE_WIDTH
    } else {
        size.width as i64
    };
    let required_height = if MIN_VISIBLE_HEIGHT <= size.height as i64 {
        MIN_VISIBLE_HEIGHT
    } else {
        size.height as i64
    };
    visible_width >= required_width && visible_height >= required_height
}

// ---------------------------------------------------------------------------
// Restoring a saved position
// ---------------------------------------------------------------------------

/// The size the window had when its position was saved: recorded in the
/// current format; in the older format, when the window was 360 wide instead
/// of 260, the current width scaled up (rounded, held within `u32`).
pub open spec fn saved_size_spec(state: SavedWindowState, current: PhysicalSize) -> Option<PhysicalSize> {
    if state.version == STATE_VERSION {
        match (state.main.width, state.main.height) {
            (Some(w), Some(h)) => if w > 0 && h > 0 {
                Some(PhysicalSize { width: w, height: h })
            } else {
                None
            },
            _ => None,
        }
    } else if state.version == LEGACY_STATE_VERSION {
        let scaled = (current.width * LEGACY_MAIN_WINDOW_WIDTH + MAIN_WINDOW_WIDTH / 2)
            / MAIN_WINDOW_WIDTH as int;
        Some(
            PhysicalSize {
                width: if scaled > u32::MAX {
                    u32::MAX
                } else {
                    scaled as u32
                },
                height: current.height,
            },
        )
    } else {
        None
    }
}

pub fn saved_size_for_state(state: SavedWindowState, current_size: PhysicalSize) -> (r: Option<
    PhysicalSize,
>)
    ensures
        r == saved_size_spec(state, current_size),
{
    if state.version == STATE_VERSION {
        match (state.main.width, state.main.height) {
            (Some(w), Some(h)) => if w > 0 && h > 0 {
                Some(PhysicalSize { width: w, height: h })
            } else {
                None
            },
            _ => None,
        }
    } else if state.version == LEGACY_STATE_VERSION {
        let w = current_size.width as u64;
        assert(w * 360 <= 0xffff_ffffu64 * 360) by (nonlinear_arith)
            requires
                w <= 0xffff_ffffu64,
        ;
        let scaled = (w * LEGACY_MAIN_WINDOW_WIDTH + MAIN_WINDOW_WIDTH / 2) / MAIN_WINDOW_WIDTH;
        Some(
            PhysicalSize {
                width: if scaled > u32::MAX as u64 {
                    u32::MAX
                } else {
                    scaled as u32
                },
                height: current_size.height,
            },
        )
    } else {
        None
    }
}

/// One axis of a restored position: a window that was within the snap
/// distance of the far edge, and nearer to it than to the near edge, keeps its
/// gap to the far edge at its current size; any other stays where it was.
pub open spec fn anchored_start(
    start: int,
    saved_span: int,
    current_span: int,
    area_start: int,
    area_end: int,
) -> int {
    let start_gap = start - area_start;
    let end_gap = area_end - (start + saved_span);
    if abs_int(end_gap) <= SNAP_THRESHOLD && abs_int(end_gap) < abs_int(start_gap) {
        area_end - current_span - end_gap
    } else {
        start
    }
}

/// Whether a value lies within `2^40` of zero, as every coordinate and span
/// of a screen does.
pub open spec fn screen_range(v: int) -> bool {
    -0x100_0000_0000 <= v <= 0x100_0000_0000
}

/// Whether every step of `anchored_start` stays within `i64`: the two gaps,
/// their sizes, and the moved start where the window is moved.
pub open spec fn anchor_fits(start: int, saved_span: int, current_span: int, area_start: int, area_end: int) -> bool {
    let start_gap = start - area_start;
    let end = start + saved_span;
    let end_gap = area_end - end;
    let fits = |v: int| i64::MIN <= v <= i64::MAX;
    &&& fits(start_gap) && fits(end) && fits(end_gap)
    &&& start_gap != i64::MIN && end_gap != i64::MIN
    &&& (abs_int(end_gap) <= SNAP_THRESHOLD && abs_int(end_gap) < abs_int(start_gap)) ==> fits(
        area_end - current_span,
    ) && fits(area_end - current_span - end_gap)
}

pub fn resize_axis_preserving_edge_anchor(
    start: i64,
    saved_span: i64,
    current_span: i64,
    area_start: i64,
    area_end: i64,
) -> (r: i64)
    requires
        anchor_fits(start as int, saved_span as int, current_span as int, area_start as int, area_end as int),
    ensures
        r == anchored_start(
            start as int,
            saved_span as int,
            current_span as int,
            area_start as int,
            area_end as int,
        ),
{
    let start_gap = start - area_start;
    let end_gap = area_end - (start + saved_span);
    let end_abs = if end_gap < 0 {
        -end_gap
    } else {
        end_gap
    };
    let start_abs = if start_gap < 0 {
        -start_gap
    } else {
        start_gap
    };
    if end_abs <= SNAP_THRESHOLD as i64 && end_abs < start_abs {
        area_end - current_span - end_gap
    } else {
        start
    }
}

/// A saved position moved for the window's current size, keeping it against
/// the right or bottom edge where it was.
pub open spec fn anchored_position(
    position: PhysicalPosition,
    saved: PhysicalSize,
    current: PhysicalSize,
    work_area: WorkArea,
) -> PhysicalPosition {
    PhysicalPosition {
        x: clamp_i32(
            anchored_start(
                position.x as int,
                saved.width as int,
                current.width as int,
                work_area.x as int,
                work_area.x + work_area.width,
            ),
        ),
        y: clamp_i32(
            anchored_start(
                position.y as int,
                saved.height as int,
                current.height as int,
                work_area.y as int,
                work_area.y + work_area.height,
            ),
        ),
    }
}

pub fn resize_preserving_edge_anchor(
    position: PhysicalPosition,
    saved_size: PhysicalSize,
    current_size: PhysicalSize,
    work_area: WorkArea,
) -> (r: PhysicalPosition)
    ensures
        r == anchored_position(position, saved_size, current_size, work_area),
{
    let x = resize_axis_preserving_edge_anchor(
        position.x as i64,
        saved_size.width as i64,
        current_size.width as i64,
        work_area.x as i64,
        work_area.x as i64 + work_area.width as i64,
    );
    let y = resize_axis_preserving_edge_anchor(
        position.y as i64,
        saved_size.height as i64,
        current_size.height as i64,
        work_area.y as i64,
        work_area.y as i64 + work_area.height as i64,
    );
    PhysicalPosition { x: i32_from_i64(x), y: i32_from_i64(y) }
}

/// What a saved state gives on one monitor: the moved position and the
/// current size, when the saved window was visible there and stays visible
/// after the move; it must be saved again when it came from the older format
/// or its size changed.
pub open spec fn resolve_on(state: SavedWindowState, monitor: MonitorFit) -> Option<ResolvedPosition> {
    let original = PhysicalPosition { x: state.main.x, y: state.main.y };
    match monitor.current_size {
        None => None,
        Some(current) => match saved_size_spec(state, current) {
            None => None,
            Some(saved) => if !is_visible(original, saved, monitor.work_area) {
                None
            } else {
                let position = anchored_position(original, saved, current, monitor.work_area);
                if is_visible(position, current, monitor.work_area) {
                    Some(
                        ResolvedPosition {
                            position,
                            physical_size: current,
                            should_persist: state.version != STATE_VERSION || saved != current,
                        },
                    )
                } else {
                    None
                }
            },
        },
    }
}

/// The first monitor, in order, on which the saved state resolves.
pub open spec fn resolve_first(state: SavedWindowState, monitors: Seq<MonitorFit>) -> Option<
    ResolvedPosition,
>
    decreases monitors.len(),
{
    if monitors.len() == 0 {
        None
    } else {
        match resolve_on(state, monitors[0]) {
            Some(r) => Some(r),
            None => resolve_first(state, monitors.skip(1)),
        }
    }
}

fn resolve_on_monitor(state: SavedWindowState, monitor: MonitorFit) -> (r: Option<ResolvedPosition>)
    ensures
        r == resolve_on(state, monitor),
{
    let original = PhysicalPosition { x: state.main.x, y: state.main.y };
    let current = match monitor.current_size {
        None => return None,
        Some(c) => c,
    };
    let saved = match saved_size_for_state(state, current) {
        None => return None,
        Some(s) => s,
    };
    if !position_is_visible_in_work_area(original, saved, monitor.work_area) {
        return None;
    }
    let position = resize_preserving_edge_anchor(original, saved, current, monitor.work_area);
    if position_is_visible_in_work_area(position, current, monitor.work_area) {
        Some(
            ResolvedPosition {
                position,
                physical_size: current,
                should_persist: state.version != STATE_VERSION || saved != current,
            },
        )
    } else {
        None
    }
}

/// Restores a saved window state on the first monitor where it fits.
pub fn resolve_saved_position(state: SavedWindowState, monitors: &[MonitorFit]) -> (r: Option<
    ResolvedPosition,
>)
    ensures
        r == resolve_first(state, monitors@),
{
    let mut i: usize = 0;
    proof {
        assert(monitors@.skip(0) =~= monitors@);
    }
    while i < monitors.len()
        invariant
            i <= monitors@.len(),
            resolve_first(state, monitors@) == resolve_first(state, monitors@.skip(i as int)),
        decreases monitors.len() - i,
    {
        proof {
            assert(monitors@.skip(i as int)[0] == monitors@[i as int]);
            assert(monitors@.skip(i as int).skip(1) =~= monitors@.skip(i as int + 1));
        }
        match resolve_on_monitor(state, monitors[i]) {
            Some(r) => return Some(r),
            None => {},
        }
        i += 1;
    }
    None
}

/// A resolved position, once saved in the current format, restores to itself
/// with nothing more to save.
pub proof fn lemma_restore_is_idempotent(state: SavedWindowState, monitor: MonitorFit)
    requires
        resolve_on(state, monitor) is Some,
    ensures
        ({
            let r = resolve_on(state, monitor)->Some_0;
            let again = SavedWindowState {
                version: STATE_VERSION,
                main: SavedPosition {
                    x: r.position.x,
                    y: r.position.y,
                    width: Some(r.physical_size.width),
                    height: Some(r.physical_size.height),
                },
            };
            r.physical_size.width > 0 && r.physical_size.height > 0 ==> resolve_on(again, monitor)
                == Some(
                ResolvedPosition { position: r.position, physical_size: r.physical_size, should_persist: false },
            )
        }),
{
}

// ---------------------------------------------------------------------------
// Snapping to an edge
// ---------------------------------------------------------------------------

/// One axis of a snap: the nearer edge of the work area within the snap
/// distance (the start edge on a tie), with the distance moved.
pub open spec fn axis_snap(start: int, end: int, area_start: int, area_end: int, span: int) -> Option<
    (int, int),
> {
    let start_distance = abs_int(start - area_start);
    let end_distance = abs_int(end - area_end);
    let near_start = start_distance <= SNAP_THRESHOLD;
    let near_end = end_distance <= SNAP_THRESHOLD;
    if near_start && (!near_end || start_distance <= end_distance) {
        Some((area_start, start_distance))
    } else if near_end {
        Some((area_end - span, end_distance))
    } else {
        None
    }
}

fn nearest_axis_snap(start: i64, end: i64, area_start: i64, area_end: i64, span: i64) -> (r: Option<
    (i64, i64),
>)
    requires
        screen_range(start as int),
        screen_range(end as int),
        screen_range(area_start as int),
        screen_range(area_end as int),
        screen_range(span as int),
    ensures
        match r {
            Some((p, d)) => axis_snap(
                start as int,
                end as int,
                area_start as int,
                area_end as int,
                span as int,
            ) == Some((p as int, d as int)),
            None => axis_snap(
                start as int,
                end as int,
                area_start as int,
                area_end as int,
                span as int,
            ) is None,
        },
{
    let start_distance = if start - area_start < 0 {
        area_start - start
    } else {
        start - area_start
    };
    let end_distance = if end - area_end < 0 {
        area_end - end
    } else {
        end - area_end
    };
    let threshold = SNAP_THRESHOLD as i64;
    let near_start = start_distance <= threshold;
    let near_end = end_distance <= threshold;
    if near_start && (!near_end || start_distance <= end_distance) {
        Some((area_start, start_distance))
    } else if near_end {
        Some((area_end - span, end_distance))
    } else {
        None
    }
}

/// The snap of a window in one work area: each axis snaps on its own; no
/// candidate when neither does.
pub open spec fn snap_in(position: PhysicalPosition, size: PhysicalSize, work_area: WorkArea) -> Option<
    SnapCandidate,
> {
    let left = position.x as int;
    let top = position.y as int;
    let horizontal = axis_snap(
        left,
        left + size.width,
        work_area.x as int,
        work_area.x + work_area.width,
        size.width as int,
    );
    let vertical = axis_snap(
        top,
        top + size.height,
        work_area.y as int,
        work_area.y + work_area.height,
        size.height as int,
    );
    if horizontal is None && vertical is None {
        None
    } else {
        let (x, dx) = match horizontal {
            Some(h) => h,
            None => (left, 0int),
        };
        let (y, dy) = match vertical {
            Some(v) => v,
            None => (top, 0int),
        };
        Some(
            SnapCandidate {
                position: PhysicalPosition { x: clamp_i32(x), y: clamp_i32(y) },
                distance: (dx + dy) as i64,
            },
        )
    }
}

pub fn snap_to_work_area_edge(position: PhysicalPosition, size: PhysicalSize, work_area: WorkArea) -> (r:
    Option<SnapCandidate>)
    ensures
        r == snap_in(position, size, work_area),
{
    let left = position.x as i64;
    let top = position.y as i64;
    let width = size.width as i64;
    let height = size.height as i64;
    let area_left = work_area.x as i64;
    let area_top = work_area.y as i64;
    let area_right = area_left + work_area.width as i64;
    let area_bottom = area_top + work_area.height as i64;
    let mut x = left;
    let mut y = top;
    let mut distance: i64 = 0;
    let mut snapped = false;
    match nearest_axis_snap(left, left + width, area_left, area_right, width) {
        Some((snapped_x, edge_distance)) => {
            x = snapped_x;
            distance = distance + edge_distance;
            snapped = true;
        },
        None => {},
    }
    match nearest_axis_snap(top, top + height, area_top, area_bottom, height) {
        Some((snapped_y, edge_distance)) => {
            y = snapped_y;
            distance = distance + edge_distance;
            snapped = true;
        },
        None => {},
    }
    if snapped {
        Some(SnapCandidate { position: PhysicalPosition { x: i32_from_i64(x), y: i32_from_i64(y) }, distance })
    } else {
        None
    }
}

/// The snap over all monitors: the candidate that moves least, the first of
/// them on a tie.
pub open spec fn nearest_snap(
    position: PhysicalPosition,
    size: PhysicalSize,
    work_areas: Seq<WorkArea>,
) -> Option<SnapCandidate>
    decreases work_areas.len(),
{
    if work_areas.len() == 0 {
        None
    } else {
        let rest = nearest_snap(position, size, work_areas.drop_last());
        match snap_in(position, size, work_areas.last()) {
            None => rest,
            Some(c) => match rest {
                Some(best) => if best.distance <= c.distance {
                    Some(best)
                } else {
                    Some(c)
                },
                None => Some(c),
            },
        }
    }
}

pub fn snap_to_nearest_work_area_edge(
    position: PhysicalPosition,
    size: PhysicalSize,
    work_areas: &[WorkArea],
) -> (r: Option<SnapCandidate>)
    ensures
        r == nearest_snap(position, size, work_areas@),
{
    let mut best: Option<SnapCandidate> = None;
    let mut i: usize = 0;
    while i < work_areas.len()
        invariant
            i <= work_areas@.len(),
            best == nearest_snap(position, size, work_areas@.take(i as int)),
        decreases work_areas.len() - i,
    {
        proof {
            assert(work_areas@.take(i as int + 1).drop_last() =~= work_areas@.take(i as int));
        }
        match snap_to_work_area_edge(position, size, work_areas[i]) {
            None => {},
            Some(c) => {
                best = match best {
                    Some(b) => if b.distance <= c.distance {
                        Some(b)
                    } else {
                        Some(c)
                    },
                    None => Some(c),
                };
            },
        }
        i += 1;
    }
    proof {
        assert(work_areas@.take(work_areas@.len() as int) =~= work_areas@);
    }
    best
}

} // verus!
