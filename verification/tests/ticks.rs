use dungeon_core::geom::{Vec2, Dir};
use dungeon_core::player::{spawn_player, InputState};
use dungeon_core::enemy::spawn_enemy;
use dungeon_core::world::{World, world_tick, camera_follow};

fn v(x: i64, y: i64) -> Vec2 {
    Vec2 { x, y }
}

fn idle() -> InputState {
    InputState { up: false, down: false, left: false, right: false, attack_pressed: false }
}

fn attack() -> InputState {
    InputState { attack_pressed: true, ..idle() }
}

fn arena(player_at: Vec2, enemies: Vec<dungeon_core::enemy::Enemy>, walls: Vec<Vec2>) -> World {
    World { player: Some(spawn_player(player_at, 890)), enemies, walls, goals: Vec::new() }
}

/// Let the player's attack cooldown run its course before the scenario.
fn warm_cooldown(w: &mut World) {
    let p = w.player.as_mut().unwrap();
    p.timer.tick(p.timer.duration_ms);
}

#[test]
fn a_tick_moves_the_player_then_the_agents_chase() {
    let mut w = arena(v(0, 0), vec![spawn_enemy(v(200, 0), 880)], Vec::new());
    let input = InputState { right: true, ..idle() };
    let transition = world_tick(&mut w, input, 1000);
    assert!(!transition);
    // The player moved 100 east; the agent then saw it at (100, 0) and
    // closed its 40 units toward that already-moved position.
    assert_eq!(w.player.as_ref().unwrap().position, v(100, 0));
    assert_eq!(w.enemies[0].position, v(160, 0));
}

#[test]
fn a_dead_agent_is_gone_before_the_next_tick() {
    let mut w = arena(v(0, 0), vec![spawn_enemy(v(40, 0), 880)], Vec::new());
    warm_cooldown(&mut w);
    w.player.as_mut().unwrap().direction = Dir::East;
    w.enemies[0].health = 1;
    let had_decoration = w.enemies[0].decoration.is_some();
    assert!(had_decoration);
    world_tick(&mut w, attack(), 16);
    assert!(w.enemies.is_empty());
    assert!(w.player.is_some());
}

#[test]
fn a_dead_player_is_gone_before_the_next_tick() {
    let mut w = arena(v(0, 0), vec![spawn_enemy(v(10, 0), 880)], Vec::new());
    w.player.as_mut().unwrap().health = 1;
    // 1.5 simulated seconds in one tick: the agent's timer fires while
    // overlapping, the player drops to zero and is removed.
    world_tick(&mut w, idle(), 1500);
    assert!(w.player.is_none());
    // With no player, a tick runs nothing.
    let transition = world_tick(&mut w, idle(), 1500);
    assert!(!transition);
    assert_eq!(w.enemies.len(), 1);
}

#[test]
fn the_goal_check_sees_the_moved_position() {
    let mut w = arena(v(0, 0), Vec::new(), Vec::new());
    w.goals.push(v(120, 0));
    // 100 units east this tick: centers 20 apart, overlapping the goal.
    let transition = world_tick(&mut w, InputState { right: true, ..idle() }, 1000);
    assert!(transition);
}

#[test]
fn survivors_keep_their_order_and_state() {
    let mut w = arena(
        v(0, 0),
        vec![spawn_enemy(v(40, 0), 880), spawn_enemy(v(-40, 0), 880), spawn_enemy(v(1000, 0), 880)],
        Vec::new(),
    );
    warm_cooldown(&mut w);
    w.player.as_mut().unwrap().direction = Dir::North;
    w.enemies[0].health = 1;
    world_tick(&mut w, attack(), 16);
    // The first agent died; the second was struck and knocked north;
    // the third never saw the player.
    assert_eq!(w.enemies.len(), 2);
    assert_eq!(w.enemies[0].health, 29);
    assert_eq!(w.enemies[0].position, v(-40, 100));
    assert_eq!(w.enemies[1].position, v(1000, 0));
}

#[test]
fn the_camera_follows_the_player_while_it_lives() {
    let mut w = arena(v(7, -9), Vec::new(), Vec::new());
    assert_eq!(camera_follow(&w), Some(v(7, -9)));
    w.player = None;
    assert_eq!(camera_follow(&w), None);
}
