use dungeon_core::geom::Vec2;
use dungeon_core::map::{spawn_map, exit_level, player_reached_exit_tile, GameLevel};
use dungeon_core::world::load_level;

fn v(x: i64, y: i64) -> Vec2 {
    Vec2 { x, y }
}

fn grid(rows: &[&str]) -> Vec<Vec<u8>> {
    rows.iter().map(|r| r.as_bytes().to_vec()).collect()
}

#[test]
fn walls_and_exits_come_from_their_marks() {
    // Row 0: wall, floor, exit.  Row 1: floor, floor, wall.
    let lines = grid(&["#.%", "..#"]);
    let level = spawn_map(&lines);
    assert_eq!(level.walls, vec![v(0, 0), v(100, -50)]);
    assert_eq!(level.goals, vec![v(100, 0)]);
}

#[test]
fn unknown_bytes_are_open_floor() {
    let lines = grid(&["a b", "?!~"]);
    let level = spawn_map(&lines);
    assert!(level.walls.is_empty());
    assert!(level.goals.is_empty());
}

#[test]
fn ragged_rows_parse_row_by_row() {
    let lines = grid(&["#", "...#", ""]);
    let level = spawn_map(&lines);
    assert_eq!(level.walls, vec![v(0, 0), v(150, -50)]);
}

#[test]
fn reaching_an_exit_tile_is_a_strict_overlap() {
    assert!(player_reached_exit_tile(v(0, 0), v(49, 0)));
    assert!(!player_reached_exit_tile(v(0, 0), v(50, 0)));
}

#[test]
fn a_transition_fires_on_any_goal() {
    let goals = vec![v(500, 0), v(30, 20)];
    assert!(exit_level(v(0, 0), &goals));
    assert!(!exit_level(v(200, 200), &goals));
    assert!(!exit_level(v(0, 0), &Vec::new()));
}

#[test]
fn the_first_level_spawns_both_actors() {
    let lines = grid(&["#%", ".."]);
    let world = load_level(GameLevel::Level1, &lines);
    let player = world.player.expect("the first level has a player");
    assert_eq!(player.position, v(450, -250));
    assert_eq!(player.depth, 890);
    assert_eq!(player.health, 100);
    assert_eq!(player.timer.elapsed_ms, 0);
    assert_eq!(world.enemies.len(), 1);
    assert_eq!(world.enemies[0].position, v(600, -50));
    assert_eq!(world.enemies[0].depth, 880);
    assert_eq!(world.enemies[0].health, 30);
    assert_eq!(world.walls, vec![v(0, 0)]);
    assert_eq!(world.goals, vec![v(50, 0)]);
}

#[test]
fn later_levels_hold_only_their_layout() {
    let lines = grid(&["#"]);
    let world = load_level(GameLevel::Level2, &lines);
    assert!(world.player.is_none());
    assert!(world.enemies.is_empty());
    assert_eq!(world.walls, vec![v(0, 0)]);
}
