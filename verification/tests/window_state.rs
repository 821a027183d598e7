use quotadock::window_state::{
    bottom_right_position, position_is_visible_in_work_area, resolve_saved_position,
    snap_to_nearest_work_area_edge, snap_to_work_area_edge, MonitorFit, PhysicalPosition,
    PhysicalSize, ResolvedPosition, SavedPosition, SavedWindowState, WorkArea, EDGE_MARGIN,
    LEGACY_STATE_VERSION, STATE_VERSION,
};

fn area(x: i32, y: i32, width: u32, height: u32) -> WorkArea {
    WorkArea {
        x,
        y,
        width,
        height,
    }
}

fn position(x: i32, y: i32) -> PhysicalPosition {
    PhysicalPosition { x, y }
}

fn size(width: u32, height: u32) -> PhysicalSize {
    PhysicalSize { width, height }
}

fn saved_state(version: u8, x: i32, y: i32, saved: Option<PhysicalSize>) -> SavedWindowState {
    SavedWindowState {
        version,
        main: SavedPosition {
            x,
            y,
            width: saved.map(|value| value.width),
            height: saved.map(|value| value.height),
        },
    }
}

/// The compact window (260 x 36 logical pixels) at a monitor scale, rounded as
/// the app rounds physical sizes.
fn compact_size_at(scale_factor: f64) -> PhysicalSize {
    size(
        (260.0 * scale_factor).round() as u32,
        (36.0 * scale_factor).round() as u32,
    )
}

fn resolve(state: SavedWindowState, work_area: WorkArea, scale_factor: f64) -> Option<ResolvedPosition> {
    resolve_saved_position(
        state,
        &[MonitorFit {
            work_area,
            current_size: Some(compact_size_at(scale_factor)),
        }],
    )
}

#[test]
fn bottom_right_position_uses_work_area_and_margin() {
    let result = bottom_right_position(area(0, 0, 1920, 1040), size(306, 92));

    assert_eq!(result.x, 1920 - 306 - EDGE_MARGIN);
    assert_eq!(result.y, 1040 - 92 - EDGE_MARGIN);
}

#[test]
fn bottom_right_position_supports_negative_monitor_coordinates() {
    let result = bottom_right_position(area(-1920, 0, 1920, 1040), size(306, 92));

    assert_eq!(result.x, -306 - EDGE_MARGIN);
    assert_eq!(result.y, 1040 - 92 - EDGE_MARGIN);
}

#[test]
fn visible_position_is_accepted_when_enough_window_remains_on_screen() {
    assert!(position_is_visible_in_work_area(
        position(1856, 100),
        size(306, 92),
        area(0, 0, 1920, 1040)
    ));
}

#[test]
fn compact_status_bar_position_is_restored_when_fully_visible_vertically() {
    assert!(position_is_visible_in_work_area(
        position(1648, 992),
        size(260, 36),
        area(0, 0, 1920, 1040)
    ));
}

#[test]
fn compact_status_bar_still_requires_a_useful_visible_width() {
    assert!(!position_is_visible_in_work_area(
        position(1880, 992),
        size(260, 36),
        area(0, 0, 1920, 1040)
    ));
}

#[test]
fn legacy_right_edge_anchor_moves_with_compact_width() {
    let state = saved_state(LEGACY_STATE_VERSION, 1560, 900, None);

    let resolved = resolve(state, area(0, 0, 1920, 1040), 1.0).unwrap();

    assert_eq!(resolved.position, position(1660, 900));
    assert!(resolved.should_persist);
}

#[test]
fn legacy_right_edge_margin_is_preserved() {
    let state = saved_state(LEGACY_STATE_VERSION, 1548, 900, None);

    let resolved = resolve(state, area(0, 0, 1920, 1040), 1.0).unwrap();

    assert_eq!(resolved.position, position(1648, 900));
}

#[test]
fn legacy_free_position_is_not_shifted() {
    let state = saved_state(LEGACY_STATE_VERSION, 720, 420, None);

    let resolved = resolve(state, area(0, 0, 1920, 1040), 1.0).unwrap();

    assert_eq!(resolved.position, position(720, 420));
}

#[test]
fn legacy_left_edge_anchor_is_not_shifted() {
    let state = saved_state(LEGACY_STATE_VERSION, 0, 420, None);

    let resolved = resolve(state, area(0, 0, 1920, 1040), 1.0).unwrap();

    assert_eq!(resolved.position, position(0, 420));
}

#[test]
fn legacy_right_anchor_supports_negative_monitor_coordinates() {
    let state = saved_state(LEGACY_STATE_VERSION, -360, 900, None);

    let resolved = resolve(state, area(-1920, 0, 1920, 1040), 1.0).unwrap();

    assert_eq!(resolved.position, position(-260, 900));
}

#[test]
fn legacy_right_anchor_scales_at_one_hundred_fifty_percent() {
    let state = saved_state(LEGACY_STATE_VERSION, 2020, 1200, None);

    let resolved = resolve(state, area(0, 0, 2560, 1400), 1.5).unwrap();

    assert_eq!(resolved.position, position(2170, 1200));
    assert_eq!(resolved.physical_size, size(390, 54));
}

#[test]
fn legacy_right_anchor_migrates_from_one_hundred_to_one_hundred_fifty_percent() {
    let state = saved_state(LEGACY_STATE_VERSION, 3940, 1200, None);

    let resolved = resolve(state, area(1920, 0, 2560, 1400), 1.5).unwrap();

    assert_eq!(resolved.position, position(4090, 1200));
    assert_eq!(resolved.physical_size, size(390, 54));
    assert!(resolved.should_persist);
}

#[test]
fn version_two_restore_is_idempotent_after_migration() {
    let state = saved_state(STATE_VERSION, 1660, 900, Some(size(260, 36)));

    let resolved = resolve(state, area(0, 0, 1920, 1040), 1.0).unwrap();

    assert_eq!(resolved.position, position(1660, 900));
    assert!(!resolved.should_persist);
}

#[test]
fn version_two_restore_is_idempotent_on_one_hundred_fifty_percent_monitor() {
    let state = saved_state(STATE_VERSION, 4090, 1200, Some(size(390, 54)));

    let resolved = resolve(state, area(1920, 0, 2560, 1400), 1.5).unwrap();

    assert_eq!(resolved.position, position(4090, 1200));
    assert_eq!(resolved.physical_size, size(390, 54));
    assert!(!resolved.should_persist);
}

#[test]
fn offscreen_saved_state_is_rejected_for_fallback() {
    let state = saved_state(LEGACY_STATE_VERSION, 2400, 900, None);

    assert!(resolve(state, area(0, 0, 1920, 1040), 1.0).is_none());
}

#[test]
fn offscreen_position_is_rejected() {
    assert!(!position_is_visible_in_work_area(
        position(2200, 100),
        size(306, 92),
        area(0, 0, 1920, 1040)
    ));
}

#[test]
fn position_near_left_edge_snaps_to_work_area_left() {
    let snapped =
        snap_to_work_area_edge(position(14, 180), size(276, 76), area(0, 0, 1920, 1040)).unwrap();

    assert_eq!(snapped.position, position(0, 180));
}

#[test]
fn position_near_right_and_bottom_edges_snaps_to_corner() {
    let snapped = snap_to_work_area_edge(
        position(1920 - 276 - 8, 1040 - 76 - 12),
        size(276, 76),
        area(0, 0, 1920, 1040),
    )
    .unwrap();

    assert_eq!(snapped.position, position(1920 - 276, 1040 - 76));
}

#[test]
fn position_away_from_edges_does_not_snap() {
    assert!(
        snap_to_work_area_edge(position(120, 180), size(276, 76), area(0, 0, 1920, 1040))
            .is_none()
    );
}

#[test]
fn nearest_monitor_edge_wins_and_unknown_versions_are_ignored() {
    let areas = [area(0, 0, 1920, 1040), area(1920, 0, 1920, 1040)];
    let snapped =
        snap_to_nearest_work_area_edge(position(1915, 500), size(276, 76), &areas).unwrap();
    assert_eq!(snapped.position, position(1920, 500));
    assert_eq!(snapped.distance, 5);
    assert!(resolve(saved_state(3, 100, 100, Some(size(260, 36))), area(0, 0, 1920, 1040), 1.0)
        .is_none());
}
