use dungeon_core::geom::{Vec2, Dir};
use dungeon_core::player::{spawn_player, attack_enemy, Player};
use dungeon_core::enemy::{spawn_enemy, attack_player};

fn v(x: i64, y: i64) -> Vec2 {
    Vec2 { x, y }
}

/// A player whose attack cooldown has already run its course, ready to
/// strike on the next press.
fn ready_player(at: Vec2) -> Player {
    let mut p = spawn_player(at, 890);
    p.timer.tick(p.timer.duration_ms);
    p
}

#[test]
fn a_fresh_player_cannot_strike_before_the_cooldown() {
    // The cooldown spawns at zero elapsed: no attack lands before the
    // whole 3 seconds have accumulated, key presses notwithstanding.
    let mut p = spawn_player(v(0, 0), 890);
    p.direction = Dir::East;
    let mut enemies = vec![spawn_enemy(v(40, 0), 880)];
    let walls: Vec<Vec2> = Vec::new();
    attack_enemy(&mut p, &mut enemies, true, 100, &walls);
    assert_eq!(enemies[0].health, 30);
    assert_eq!(enemies[0].position, v(40, 0));
    // 28 more presses bring the accumulated time to 2900 ms: still shut.
    for _ in 0..28 {
        attack_enemy(&mut p, &mut enemies, true, 100, &walls);
    }
    assert_eq!(enemies[0].health, 30);
    // The press whose tick reaches 3000 ms accumulated strikes.
    attack_enemy(&mut p, &mut enemies, true, 100, &walls);
    assert_eq!(enemies[0].health, 29);
}

#[test]
fn attack_east_with_open_floor_pushes_the_full_distance() {
    // Player at the origin facing east, agent at (40, 0), no obstacles:
    // one successful attack costs the agent one health and pushes it the
    // full 100 units to (140, 0).
    let mut p = ready_player(v(0, 0));
    p.direction = Dir::East;
    let mut enemies = vec![spawn_enemy(v(40, 0), 880)];
    let walls: Vec<Vec2> = Vec::new();
    attack_enemy(&mut p, &mut enemies, true, 16, &walls);
    assert_eq!(enemies[0].health, 29);
    assert_eq!(enemies[0].position, v(140, 0));
}

#[test]
fn attack_east_against_a_wall_clamps_to_the_margin() {
    // Same, but an obstacle centered at (150, 0): the push stops 50
    // units short of the obstacle, at (100, 0).
    let mut p = ready_player(v(0, 0));
    p.direction = Dir::East;
    let mut enemies = vec![spawn_enemy(v(40, 0), 880)];
    let walls = vec![v(150, 0)];
    attack_enemy(&mut p, &mut enemies, true, 16, &walls);
    assert_eq!(enemies[0].health, 29);
    assert_eq!(enemies[0].position, v(100, 0));
}

#[test]
fn presses_within_the_cooldown_window_strike_once() {
    // Repeated attack-key presses within the 3-second cooldown window:
    // at most one health decrement per agent per period.
    let mut p = ready_player(v(0, 0));
    p.direction = Dir::East;
    let mut enemies = vec![spawn_enemy(v(40, 0), 880)];
    // A wall at (120, 0) clamps every push to (70, 0), which keeps the
    // agent inside the attack box between strikes.
    let walls = vec![v(120, 0)];
    attack_enemy(&mut p, &mut enemies, true, 100, &walls);
    assert_eq!(enemies[0].health, 29);
    assert_eq!(enemies[0].position, v(70, 0));
    // 29 more presses, 100 ms apart: all inside the window.
    for _ in 0..29 {
        attack_enemy(&mut p, &mut enemies, true, 100, &walls);
    }
    assert_eq!(enemies[0].health, 29);
    assert_eq!(enemies[0].position, v(70, 0));
    // One more tick takes the accumulated time to 3000 ms: ready again.
    attack_enemy(&mut p, &mut enemies, true, 100, &walls);
    assert_eq!(enemies[0].health, 28);
    assert_eq!(enemies[0].position, v(70, 0));
}

#[test]
fn a_held_key_does_not_attack() {
    let mut p = ready_player(v(0, 0));
    let mut enemies = vec![spawn_enemy(v(40, 0), 880)];
    let walls: Vec<Vec2> = Vec::new();
    attack_enemy(&mut p, &mut enemies, false, 16, &walls);
    assert_eq!(enemies[0].health, 30);
    assert_eq!(enemies[0].position, v(40, 0));
}

#[test]
fn an_agent_out_of_range_is_spared() {
    // The attack box has side 150; an agent 120 units away overlaps it
    // (cutoff 100), one 200 units away does not.
    let mut p = ready_player(v(0, 0));
    p.direction = Dir::East;
    let mut enemies = vec![spawn_enemy(v(200, 0), 880)];
    let walls: Vec<Vec2> = Vec::new();
    attack_enemy(&mut p, &mut enemies, true, 16, &walls);
    assert_eq!(enemies[0].health, 30);
}

#[test]
fn every_agent_in_the_attack_box_is_struck() {
    let mut p = ready_player(v(0, 0));
    p.direction = Dir::North;
    let mut enemies = vec![spawn_enemy(v(40, 0), 880), spawn_enemy(v(-40, 0), 880), spawn_enemy(v(300, 0), 880)];
    let walls: Vec<Vec2> = Vec::new();
    attack_enemy(&mut p, &mut enemies, true, 16, &walls);
    assert_eq!(enemies[0].health, 29);
    assert_eq!(enemies[1].health, 29);
    assert_eq!(enemies[2].health, 30);
}

#[test]
fn an_overlapping_agent_hits_once_per_interval() {
    // Agent and player overlapping continuously for 4.5 simulated
    // seconds with a 1.5 s interval: exactly 3 hits.
    let mut p = spawn_player(v(0, 0), 890);
    let mut enemies = vec![spawn_enemy(v(10, 0), 880)];
    for _ in 0..9 {
        attack_player(&mut enemies, &mut p, 500);
    }
    assert_eq!(p.health, 97);
}

#[test]
fn the_timer_runs_even_out_of_reach() {
    // The repeating timer accumulates regardless of overlap: an agent
    // that drifts into reach just before the boundary still hits then.
    let mut p = spawn_player(v(0, 0), 890);
    let mut enemies = vec![spawn_enemy(v(500, 0), 880)];
    attack_player(&mut enemies, &mut p, 1400);
    assert_eq!(p.health, 100);
    enemies[0].position = v(10, 0);
    attack_player(&mut enemies, &mut p, 100);
    assert_eq!(p.health, 99);
}

#[test]
fn an_agent_just_out_of_reach_does_not_hit() {
    // The widened agent box has side 60 against the player's 50: the
    // cutoff is a center distance of 55.
    let mut p = spawn_player(v(0, 0), 890);
    let mut enemies = vec![spawn_enemy(v(55, 0), 880)];
    attack_player(&mut enemies, &mut p, 1500);
    assert_eq!(p.health, 100);
    enemies[0].position = v(54, 0);
    attack_player(&mut enemies, &mut p, 1500);
    assert_eq!(p.health, 99);
}
