use dungeon_core::geom::{Vec2, overlaps, TILE_SIZE, PLAYER_SIZE};

fn v(x: i64, y: i64) -> Vec2 {
    Vec2 { x, y }
}

#[test]
fn overlapping_boxes_collide() {
    // |0 - 49| = 49 < (50 + 50) / 2 on x, 0 on y.
    assert!(overlaps(v(0, 0), v(50, 50), v(49, 0), v(50, 50)));
    assert!(overlaps(v(0, 0), v(50, 50), v(30, 30), v(50, 50)));
}

#[test]
fn zero_width_contact_is_not_a_collision() {
    // Edges exactly touching: |0 - 50| == (50 + 50) / 2.
    assert!(!overlaps(v(0, 0), v(50, 50), v(50, 0), v(50, 50)));
    assert!(!overlaps(v(0, 0), v(50, 50), v(0, 50), v(50, 50)));
}

#[test]
fn both_axes_must_overlap() {
    // Near on x, far on y.
    assert!(!overlaps(v(0, 0), v(50, 50), v(10, 200), v(50, 50)));
    // Near on y, far on x.
    assert!(!overlaps(v(0, 0), v(50, 50), v(200, 10), v(50, 50)));
}

#[test]
fn overlap_with_mixed_sizes() {
    // A vision-sized box of side 250 against a player box of side 50:
    // they overlap up to a center distance of 150 exclusive.
    assert!(overlaps(v(0, 0), v(250, 250), v(149, 0), v(50, 50)));
    assert!(!overlaps(v(0, 0), v(250, 250), v(150, 0), v(50, 50)));
}

#[test]
fn odd_total_widths_lose_nothing() {
    // Body 45 against tile 50: threshold is 47.5, so 47 overlaps and 48
    // does not.
    assert!(overlaps(v(0, 0), v(45, 45), v(47, 0), v(TILE_SIZE, TILE_SIZE)));
    assert!(!overlaps(v(0, 0), v(45, 45), v(48, 0), v(TILE_SIZE, TILE_SIZE)));
}

#[test]
fn splat_fills_both_axes() {
    let s = Vec2::splat(PLAYER_SIZE);
    assert_eq!(s.x, 50);
    assert_eq!(s.y, 50);
}
