use quotadock::tray_icon::render_quota_icon_rgba;

#[test]
fn renders_known_quota_icon() {
    let rgba = render_quota_icon_rgba(Some(72), Some(46), 64).unwrap();

    assert_eq!(rgba.len(), 64 * 64 * 4);
    assert!(rgba.iter().any(|value| *value != 0));
}

#[test]
fn renders_full_and_low_quota_icon() {
    let rgba = render_quota_icon_rgba(Some(100), Some(8), 64).unwrap();

    assert_eq!(rgba.len(), 64 * 64 * 4);
}

#[test]
fn renders_unknown_quota_icon() {
    let rgba = render_quota_icon_rgba(None, None, 64).unwrap();

    assert_eq!(rgba.len(), 64 * 64 * 4);
}

fn pixel(rgba: &[u8], size: usize, x: usize, y: usize) -> [u8; 4] {
    let i = (y * size + x) * 4;
    [rgba[i], rgba[i + 1], rgba[i + 2], rgba[i + 3]]
}

#[test]
fn icon_has_border_ground_rule_and_text() {
    let rgba = render_quota_icon_rgba(None, None, 64).unwrap();
    assert_eq!(pixel(&rgba, 64, 0, 0), [29, 42, 45, 255]);
    assert_eq!(pixel(&rgba, 64, 63, 30), [29, 42, 45, 255]);
    assert_eq!(pixel(&rgba, 64, 2, 2), [5, 7, 10, 255]);
    assert_eq!(pixel(&rgba, 64, 8, 32), [29, 42, 45, 255]);
    // "5H--" is 30 pixels wide at scale 2, so it starts at x = 17; the top
    // row of the glyph 5 is fully lit.
    assert_eq!(pixel(&rgba, 64, 17, 9), [34, 230, 209, 255]);
    // "1W--" starts at the same column; the top row of 1 lights only its
    // middle column.
    assert_eq!(pixel(&rgba, 64, 17, 38), [5, 7, 10, 255]);
    assert_eq!(pixel(&rgba, 64, 19, 38), [155, 124, 255, 255]);
}

#[test]
fn small_sizes_are_refused() {
    assert_eq!(
        render_quota_icon_rgba(Some(1), Some(1), 31).unwrap_err(),
        "tray icon size must be at least 32"
    );
    assert_eq!(render_quota_icon_rgba(Some(1), Some(1), 32).unwrap().len(), 32 * 32 * 4);
}
