use ssd1322_ui::Rect;

#[test]
fn test_extent_best_fit_x() {
    let e = Rect { x: 19, y: 11, w: 13, h: 15 };
    let fit = e.best_fit_x(10);
    assert_eq!(fit.x, 10);
    assert_eq!(fit.w, 30);
    assert_eq!(fit.y, e.y);
    assert_eq!(fit.h, e.h);
}

#[test]
fn pixel_buffer_test_extent_best_fit_x() {
    let e = Rect { x: 19, y: 11, w: 13, h: 15 };
    let fit = e.best_fit_x(10);
    assert_eq!(fit.x, 10);
    assert_eq!(fit.w, 30);
    assert_eq!(fit.y, e.y);
    assert_eq!(fit.h, e.h);
}

#[test]
fn best_fit_x_identity_when_aligned() {
    let e = Rect { x: 8, y: 3, w: 16, h: 4 };
    let fit = e.best_fit_x(4);
    assert_eq!(fit, Rect { x: 8, y: 3, w: 16, h: 4 });
}

#[test]
fn best_fit_x_rounds_both_edges_outward() {
    let e = Rect { x: 5, y: 0, w: 6, h: 2 };
    let fit = e.best_fit_x(4);
    // left edge 5 -> 4, right edge 11 -> 12
    assert_eq!(fit, Rect { x: 4, y: 0, w: 8, h: 2 });
}

#[test]
fn best_fit_x_floors_negative_coordinates() {
    let e = Rect { x: -5, y: 0, w: 2, h: 1 };
    let fit = e.best_fit_x(4);
    // left edge -5 -> -8 (floor), right edge -3 -> 0 (ceiling)
    assert_eq!(fit, Rect { x: -8, y: 0, w: 8, h: 1 });
}

#[test]
fn best_fit_x_minimal_span() {
    let e = Rect { x: 7, y: 1, w: 3, h: 1 };
    let fit = e.best_fit_x(1);
    assert_eq!(fit, e);
}

#[test]
fn xywh_builds_the_rectangle() {
    let r = Rect::xywh(1, 2, 3, 4);
    assert_eq!(r, Rect { x: 1, y: 2, w: 3, h: 4 });
}

#[test]
fn with_offset_grows_every_side() {
    let r = Rect::xywh(10, 10, 5, 5).with_offset(2);
    assert_eq!(r, Rect { x: 8, y: 8, w: 9, h: 9 });
}

#[test]
fn with_offset_negative_shrinks() {
    let r = Rect::xywh(10, 10, 8, 8).with_offset(-1);
    assert_eq!(r, Rect { x: 11, y: 11, w: 6, h: 6 });
}
