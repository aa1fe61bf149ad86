use dungeon_core::geom::{Vec2, Dir};
use dungeon_core::knockback::{knock_back, knock_back_measurement};

fn v(x: i64, y: i64) -> Vec2 {
    Vec2 { x, y }
}

fn pushed(from: Vec2, walls: &Vec<Vec2>, dir: Dir) -> Vec2 {
    let mut pos = from;
    knock_back(dir, walls, &mut pos);
    pos
}

#[test]
fn open_floor_gives_the_full_push_in_every_direction() {
    let walls: Vec<Vec2> = Vec::new();
    assert_eq!(pushed(v(0, 0), &walls, Dir::North), v(0, 100));
    assert_eq!(pushed(v(0, 0), &walls, Dir::South), v(0, -100));
    assert_eq!(pushed(v(0, 0), &walls, Dir::East), v(100, 0));
    assert_eq!(pushed(v(0, 0), &walls, Dir::West), v(-100, 0));
}

#[test]
fn a_wall_in_the_path_clamps_to_the_margin() {
    assert_eq!(pushed(v(40, 0), &vec![v(150, 0)], Dir::East), v(100, 0));
    assert_eq!(pushed(v(0, 40), &vec![v(0, 150)], Dir::North), v(0, 100));
    assert_eq!(pushed(v(0, -40), &vec![v(0, -150)], Dir::South), v(0, -100));
    assert_eq!(pushed(v(-40, 0), &vec![v(-150, 0)], Dir::West), v(-100, 0));
}

#[test]
fn the_nearest_blocking_wall_decides() {
    // Two walls ahead: the push clamps against the nearer one.
    let walls = vec![v(300, 0), v(150, 0)];
    assert_eq!(pushed(v(40, 0), &walls, Dir::East), v(100, 0));
}

#[test]
fn a_wall_outside_the_perpendicular_band_is_ignored() {
    // The band keeps walls within 45 units of the actor's perpendicular
    // coordinate: a wall offset 60 sideways does not clamp the push.
    let walls = vec![v(150, 60)];
    assert_eq!(pushed(v(40, 0), &walls, Dir::East), v(140, 0));
}

#[test]
fn a_wall_behind_does_not_clamp() {
    // Only walls on the far side in the direction of travel count; with
    // none ahead the full displacement applies.
    let walls = vec![v(-60, 0)];
    assert_eq!(pushed(v(40, 0), &walls, Dir::East), v(140, 0));
}

#[test]
fn a_distant_wall_leaves_the_push_unclamped() {
    // The wall is ahead and in the band, but the full push still ends
    // more than the margin short of it.
    let walls = vec![v(300, 0)];
    assert_eq!(pushed(v(40, 0), &walls, Dir::East), v(140, 0));
}

#[test]
fn the_measurement_is_a_displacement() {
    let d = knock_back_measurement(v(40, 0), &vec![v(150, 0)], Dir::East);
    assert_eq!(d, v(60, 0));
    let d = knock_back_measurement(v(0, 0), &Vec::new(), Dir::South);
    assert_eq!(d, v(0, -100));
}
