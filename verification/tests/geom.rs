use phi::geom::Rectangle;

fn rect(x: i32, y: i32, w: i32, h: i32) -> Rectangle {
    Rectangle { x, y, w, h }
}

#[test]
fn rect_basics() {
    let bounding_rect = rect(2, 2, 2, 2);

    // Outside rectangles
    let outside_rect = Rectangle { x: 0, ..bounding_rect };
    assert!(!bounding_rect.contains(outside_rect));
    assert!(!bounding_rect.overlaps(outside_rect));

    let outside_rect = Rectangle { y: 0, ..bounding_rect };
    assert!(!bounding_rect.contains(outside_rect));
    assert!(!bounding_rect.overlaps(outside_rect));

    let outside_rect = Rectangle { x: 4, ..bounding_rect };
    assert!(!bounding_rect.contains(outside_rect));
    assert!(!bounding_rect.overlaps(outside_rect));

    let outside_rect = Rectangle { y: 4, ..bounding_rect };
    assert!(!bounding_rect.contains(outside_rect));
    assert!(!bounding_rect.overlaps(outside_rect));

    // Overlapping rectangles
    let overlap_rect = Rectangle { x: 1, y: 1, ..bounding_rect };
    assert!(!bounding_rect.contains(overlap_rect));
    assert!(bounding_rect.overlaps(overlap_rect));

    let overlap_rect = Rectangle { x: 3, y: 1, ..bounding_rect };
    assert!(!bounding_rect.contains(overlap_rect));
    assert!(bounding_rect.overlaps(overlap_rect));

    let overlap_rect = Rectangle { x: 1, y: 3, ..bounding_rect };
    assert!(!bounding_rect.contains(overlap_rect));
    assert!(bounding_rect.overlaps(overlap_rect));

    let overlap_rect = Rectangle { x: 3, y: 3, ..bounding_rect };
    assert!(!bounding_rect.contains(overlap_rect));
    assert!(bounding_rect.overlaps(overlap_rect));

    // Inside rectangles
    let inside_rect = rect(3, 3, 1, 1);
    assert!(bounding_rect.contains(inside_rect));
    assert!(bounding_rect.overlaps(inside_rect));
}

#[test]
fn contains_includes_edges() {
    let a = rect(0, 0, 10, 10);
    assert!(a.contains(a));
    assert!(a.contains(rect(0, 0, 10, 0)));
    assert!(a.contains(rect(10, 10, 0, 0)));
    assert!(!a.contains(rect(1, 1, 10, 2)));
}

#[test]
fn overlap_is_strict_on_shared_edges() {
    let a = rect(0, 0, 10, 10);
    // Sharing only an edge is not an overlap.
    assert!(!a.overlaps(rect(10, 0, 5, 10)));
    assert!(!a.overlaps(rect(0, 10, 10, 5)));
    assert!(a.overlaps(rect(9, 9, 5, 5)));
}

#[test]
fn overlap_is_symmetric_on_samples() {
    let samples = [
        rect(0, 0, 4, 4),
        rect(2, 2, 4, 4),
        rect(4, 0, 4, 4),
        rect(-3, -3, 3, 3),
        rect(1, 1, 0, 5),
    ];
    for a in samples.iter() {
        for b in samples.iter() {
            assert_eq!(a.overlaps(*b), b.overlaps(*a));
        }
    }
}

#[test]
fn contained_with_area_overlaps() {
    let a = rect(0, 0, 10, 10);
    let b = rect(2, 3, 4, 5);
    assert!(a.contains(b));
    assert!(a.overlaps(b));
    // A degenerate contained rectangle on the boundary does not overlap.
    let z = rect(0, 3, 0, 5);
    assert!(a.contains(z));
    assert!(!a.overlaps(z));
}

#[test]
fn move_inside_shifts_minimally() {
    let play_area = rect(0, 0, 10, 10);

    // Already inside: unchanged.
    let ship = rect(3, 4, 4, 4);
    assert_eq!(ship.move_inside(play_area), Some(ship));

    // Out past each edge: clamped to that edge, other axis untouched.
    assert_eq!(rect(-5, 3, 4, 4).move_inside(play_area), Some(rect(0, 3, 4, 4)));
    assert_eq!(rect(3, -5, 4, 4).move_inside(play_area), Some(rect(3, 0, 4, 4)));
    assert_eq!(rect(9, 3, 4, 4).move_inside(play_area), Some(rect(6, 3, 4, 4)));
    assert_eq!(rect(3, 9, 4, 4).move_inside(play_area), Some(rect(3, 6, 4, 4)));

    // Out past a corner: both axes clamped.
    assert_eq!(rect(-1, 11, 4, 4).move_inside(play_area), Some(rect(0, 6, 4, 4)));

    // Touching the high edge exactly still fits.
    assert_eq!(rect(6, 6, 4, 4).move_inside(play_area), Some(rect(6, 6, 4, 4)));
}

#[test]
fn move_inside_fails_when_too_large() {
    let play_area = rect(0, 0, 10, 10);
    assert_eq!(rect(0, 0, 11, 4).move_inside(play_area), None);
    assert_eq!(rect(0, 0, 4, 11).move_inside(play_area), None);
    assert_eq!(rect(-20, 50, 11, 11).move_inside(play_area), None);
    // A rectangle exactly as large as the parent fits.
    assert_eq!(rect(5, -2, 10, 10).move_inside(play_area), Some(rect(0, 0, 10, 10)));
}
