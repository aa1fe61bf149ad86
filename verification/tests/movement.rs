use dungeon_core::geom::Vec2;
use dungeon_core::player::{
    spawn_player, player_movement, wall_collision_check, move_and_slide, InputState,
};
use dungeon_core::geom::Dir;

fn v(x: i64, y: i64) -> Vec2 {
    Vec2 { x, y }
}

fn keys(up: bool, down: bool, left: bool, right: bool) -> InputState {
    InputState { up, down, left, right, attack_pressed: false }
}

#[test]
fn open_floor_is_clear() {
    let walls = vec![v(200, 0), v(0, 200)];
    assert!(wall_collision_check(v(0, 0), &walls));
}

#[test]
fn a_position_inside_a_wall_is_rejected() {
    let walls = vec![v(30, 0)];
    assert!(!wall_collision_check(v(0, 0), &walls));
}

#[test]
fn player_moves_by_speed_times_delta() {
    // Speed 100 units/s for 1000 ms: 100 units east.
    let mut p = spawn_player(v(0, 0), 890);
    let walls: Vec<Vec2> = Vec::new();
    player_movement(&mut p, keys(false, false, false, true), 1000, &walls);
    assert_eq!(p.position, v(100, 0));
    assert_eq!(p.direction, Dir::East);
}

#[test]
fn facing_updates_only_while_keys_are_held() {
    let mut p = spawn_player(v(0, 0), 890);
    let walls: Vec<Vec2> = Vec::new();
    assert_eq!(p.direction, Dir::West);
    player_movement(&mut p, keys(true, false, false, false), 100, &walls);
    assert_eq!(p.direction, Dir::North);
    // No key held: previous facing kept.
    player_movement(&mut p, keys(false, false, false, false), 100, &walls);
    assert_eq!(p.direction, Dir::North);
}

#[test]
fn blocked_move_commits_nothing() {
    // A wall dead ahead: the candidate overlaps, the position stays.
    let walls = vec![v(80, 0)];
    let mut pos = v(0, 0);
    move_and_slide(&mut pos, 60, 0, &walls);
    assert_eq!(pos, v(0, 0));
}

#[test]
fn diagonal_into_a_wall_slides_along_it() {
    // The wall blocks only the x axis; the y displacement still lands
    // in the same tick.
    let walls = vec![v(80, 0)];
    let mut pos = v(0, 0);
    move_and_slide(&mut pos, 60, 60, &walls);
    assert_eq!(pos, v(0, 60));
}

#[test]
fn committed_positions_do_not_overlap_walls() {
    // Walk east in small steps toward a wall at x = 200: the committed
    // position never enters it (body 45 vs tile 50: centers closer than
    // 47.5 would overlap).
    let walls = vec![v(200, 0)];
    let mut p = spawn_player(v(0, 0), 890);
    for _ in 0..100 {
        player_movement(&mut p, keys(false, false, false, true), 100, &walls);
        assert!(wall_collision_check(p.position, &walls));
    }
    assert!(p.position.x <= 152);
}
