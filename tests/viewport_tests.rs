use fabricof::viewport::{calculate_window_sizes, initial_size_index, CellRect, Viewport};

#[test]
fn cell_rect_at_double_scale() {
    let vp = Viewport::new(640, 400);
    assert_eq!(vp.cell_rect(2, 3), CellRect { x: 48, y: 32, w: 16, h: 16 });
}

#[test]
fn cell_rect_at_base_scale() {
    let vp = Viewport::new(320, 200);
    assert_eq!(vp.cell_rect(0, 0), CellRect { x: 0, y: 0, w: 8, h: 8 });
    assert_eq!(vp.cell_rect(24, 39), CellRect { x: 312, y: 192, w: 8, h: 8 });
}

#[test]
fn cell_rect_truncates_per_axis() {
    // 1000 / 320 = 3.125 across, 700 / 200 = 3.5 down.
    let vp = Viewport::new(1000, 700);
    assert_eq!(vp.cell_rect(1, 1), CellRect { x: 25, y: 28, w: 25, h: 28 });
    assert_eq!(vp.cell_rect(3, 5), CellRect { x: 125, y: 84, w: 25, h: 28 });
}

#[test]
fn cell_rect_of_tiny_window() {
    let vp = Viewport::new(30, 20);
    assert_eq!(vp.cell_rect(10, 10), CellRect { x: 7, y: 8, w: 0, h: 0 });
}

#[test]
fn window_sizes_for_full_hd() {
    assert_eq!(
        calculate_window_sizes(1920, 1080),
        vec![(320, 200), (640, 400), (960, 600), (1280, 800), (1600, 1000)]
    );
}

#[test]
fn window_sizes_add_base_when_only_one_fits() {
    assert_eq!(calculate_window_sizes(320, 200), vec![(320, 200), (320, 200)]);
    assert_eq!(calculate_window_sizes(639, 1000), vec![(320, 200), (320, 200)]);
}

#[test]
fn window_sizes_for_small_screen() {
    assert_eq!(calculate_window_sizes(100, 100), vec![(320, 200)]);
}

#[test]
fn window_sizes_limited_by_narrower_axis() {
    let sizes = calculate_window_sizes(3200, 4000);
    assert_eq!(sizes.len(), 10);
    assert_eq!(sizes[9], (3200, 2000));
}

#[test]
fn initial_index_is_second_largest() {
    assert_eq!(initial_size_index(5), 3);
    assert_eq!(initial_size_index(3), 1);
    assert_eq!(initial_size_index(2), 1);
}
