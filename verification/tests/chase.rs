use dungeon_core::geom::Vec2;
use dungeon_core::enemy::spawn_enemy;
use dungeon_core::pathfinding::{find_player_location, move_towards_player};

fn v(x: i64, y: i64) -> Vec2 {
    Vec2 { x, y }
}

#[test]
fn target_beyond_vision_range_is_unseen() {
    // Vision 250 against a player box of 50: the cutoff is a center
    // distance of 150.
    assert!(!find_player_location(v(400, 0), v(0, 0), 250));
    assert!(find_player_location(v(149, 0), v(0, 0), 250));
}

#[test]
fn unseen_target_produces_zero_displacement() {
    // Vision range 250, target 400 units away: the agent does not move.
    let mut e = spawn_enemy(v(0, 0), 880);
    let walls: Vec<Vec2> = Vec::new();
    move_towards_player(&mut e, v(400, 0), 1000, &walls);
    assert_eq!(e.position, v(0, 0));
}

#[test]
fn seen_target_draws_the_agent_by_speed_times_delta() {
    // Vision range 250, target 100 units east: the agent moves east by
    // speed * dt = 40 units/s * 1 s.
    let mut e = spawn_enemy(v(0, 0), 880);
    let walls: Vec<Vec2> = Vec::new();
    move_towards_player(&mut e, v(100, 0), 1000, &walls);
    assert_eq!(e.position, v(40, 0));
}

#[test]
fn chase_steers_on_both_axes() {
    let mut e = spawn_enemy(v(0, 0), 880);
    let walls: Vec<Vec2> = Vec::new();
    move_towards_player(&mut e, v(100, -100), 1000, &walls);
    assert_eq!(e.position, v(40, -40));
}

#[test]
fn chase_is_clamped_by_walls_like_any_movement() {
    // A wall at x = 70 blocks the 40-unit step east (centers 30 apart,
    // closer than 47.5), but the agent still closes on y.
    let mut e = spawn_enemy(v(0, 0), 880);
    let walls = vec![v(70, 0)];
    move_towards_player(&mut e, v(100, 100), 1000, &walls);
    assert_eq!(e.position, v(0, 40));
}
