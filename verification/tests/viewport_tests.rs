use acterminal::viewport::ChartViewport;

#[test]
fn window_at_newest() {
    let v = ChartViewport::new();
    assert_eq!(v.visible_range(0), (0, 0));
    assert_eq!(v.visible_range(10), (0, 10));
    assert_eq!(v.visible_range(100), (40, 100));
}

#[test]
fn clamp_keeps_window_full() {
    let mut v = ChartViewport::new();
    v.scroll_offset = 1000;
    v.clamp_scroll_offset(100);
    assert_eq!(v.scroll_offset, 40);
    assert_eq!(v.visible_range(100), (0, 60));
    v.clamp_scroll_offset(30);
    assert_eq!(v.scroll_offset, 0);
}

#[test]
fn zoom_keeps_centre() {
    let mut v = ChartViewport::new();
    v.scroll_offset = 20;
    v.zoom_to(200, 80);
    assert_eq!(v.visible_count, 80);
    // right edge 180, centre 150, new right edge 190
    assert_eq!(v.scroll_offset, 10);
    assert_eq!(v.visible_range(200), (110, 190));
    v.zoom_to(200, 80);
    assert_eq!(v.scroll_offset, 10);
}

#[test]
fn drag_moves_and_clamps() {
    let mut v = ChartViewport::new();
    v.scroll_offset = 5;
    v.start_drag();
    assert_eq!(v.drag_start_offset, 5);
    v.drag_by(100, -10);
    assert_eq!(v.scroll_offset, 15);
    v.drag_by(100, 10);
    assert_eq!(v.scroll_offset, 0);
    v.drag_by(100, -100);
    assert_eq!(v.scroll_offset, 40);
    v.reset_scroll();
    assert_eq!(v.scroll_offset, 0);
}

#[test]
fn wheel_zoom_stays_between_limits() {
    let mut v = ChartViewport::new();
    v.zoom_by(1000, 6, true);
    assert_eq!(v.visible_count, 66);
    for _ in 0..100 {
        v.zoom_by(1000, 50, true);
    }
    assert_eq!(v.visible_count, 200);
    assert!(v.scroll_offset <= 800);
    for _ in 0..100 {
        v.zoom_by(1000, 30, false);
    }
    assert_eq!(v.visible_count, 20);
    let mut w = ChartViewport::new();
    w.scroll_offset = 30;
    w.zoom_by(50, 2, false);
    assert_eq!(w.visible_count, 58);
    assert!(w.scroll_offset <= 50 - 58_usize.min(50));
}
