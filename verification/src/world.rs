//! The simulation world and its fixed-timestep tick.
//!
//! One tick advances the systems in a strict, load-bearing order: player
//! movement, chase behavior (agent movement), agent attacks on the
//! player, the player's attack with its knockback, the goal-region
//! check, and last of all the lifecycle sweep that removes dead actors.
//! An actor marked dead by a tick's combat is gone before the next tick
//! begins, and no later system of the same tick acts through it.

use vstd::prelude::*;
use crate::geom::{Vec2, Point, in_arena, resolvable, COORD_LIMIT, STEP_LIMIT};
use crate::timers::DT_LIMIT;
use crate::player::{
    Player, PlayerModel, InputState, player_movement, player_movement_spec, attack_enemy,
    attack_gate, attack_timer_after, strike_step, step_of,
};
use crate::enemy::{
    Enemy, EnemyModel, views_of, attack_player, hit_count, enemy_timer_ticked,
    lemma_hit_count_bounds,
};
use crate::pathfinding::{move_towards_player, chase_step};
use crate::health::{health_check, live_enemies};
use crate::map::{GameLevel, Level, spawn_map, exit_level, reaches_goal, points_of, MAP_LIMIT,
    WALL_MARK, EXIT_MARK, grid_points};

verus! {

/// Largest health magnitude the world invariant allows.
pub const HEALTH_LIMIT: i64 = 1_000_000_000;

/// Largest number of agents the world invariant allows.
pub const ENEMY_LIMIT: usize = 1_000_000;

/// The simulation world: the player (absent once dead), the agents, and
/// the immutable level geometry.
pub struct World {
    pub player: Option<Player>,
    pub enemies: Vec<Enemy>,
    pub walls: Vec<Vec2>,
    pub goals: Vec<Vec2>,
}

/// The mathematical model of a `World`.
pub struct WorldModel {
    pub player: Option<PlayerModel>,
    pub enemies: Seq<EnemyModel>,
    pub walls: Seq<Vec2>,
    pub goals: Seq<Vec2>,
}

impl View for World {
    type V = WorldModel;

    open spec fn view(&self) -> WorldModel {
        WorldModel {
            player: match self.player {
                None => None,
                Some(p) => Some(p@),
            },
            enemies: views_of(self.enemies@),
            walls: self.walls@,
            goals: self.goals@,
        }
    }
}

impl WorldModel {
    /// The well-formedness a tick requires on entry: sound timers,
    /// bounded speeds and healths, and every position and obstacle
    /// within the arena bound.
    pub open spec fn wf(self) -> bool {
        &&& match self.player {
            None => true,
            Some(p) => p.wf() && in_arena(p.position) && -HEALTH_LIMIT <= p.health
                <= HEALTH_LIMIT,
        }
        &&& forall|i: int|
            0 <= i < self.enemies.len() ==> {
                &&& (#[trigger] self.enemies[i]).wf()
                &&& in_arena(self.enemies[i].position)
                &&& -HEALTH_LIMIT <= self.enemies[i].health <= HEALTH_LIMIT
            }
        &&& self.enemies.len() <= ENEMY_LIMIT
        &&& forall|i: int| 0 <= i < self.walls.len() ==> in_arena(#[trigger] self.walls[i]@)
    }

    /// Room for one tick: every actor stands at least one step plus one
    /// knockback length inside the arena bound, and every obstacle at
    /// least the clamp margin inside it.  A tick from such a world ends
    /// in a well-formed world again (`lemma_tick_preserves_wf`).
    pub open spec fn headroom(self) -> bool {
        &&& match self.player {
            None => true,
            Some(p) => point_has_headroom(p.position),
        }
        &&& forall|i: int|
            0 <= i < self.enemies.len() ==> point_has_headroom(
                (#[trigger] self.enemies[i]).position,
            )
        &&& forall|i: int|
            0 <= i < self.walls.len() ==> {
                &&& -(COORD_LIMIT - crate::knockback::KNOCKBACK_MARGIN) <= (
                #[trigger] self.walls[i]@).x <= COORD_LIMIT - crate::knockback::KNOCKBACK_MARGIN
                &&& -(COORD_LIMIT - crate::knockback::KNOCKBACK_MARGIN) <= self.walls[i]@.y
                    <= COORD_LIMIT - crate::knockback::KNOCKBACK_MARGIN
            }
    }
}

/// Whether a position leaves room for one step and one knockback inside
/// the arena bound.
pub open spec fn point_has_headroom(p: Point) -> bool {
    &&& -(COORD_LIMIT - STEP_LIMIT - crate::knockback::KNOCKBACK_DISTANCE) <= p.x <= COORD_LIMIT
        - STEP_LIMIT - crate::knockback::KNOCKBACK_DISTANCE
    &&& -(COORD_LIMIT - STEP_LIMIT - crate::knockback::KNOCKBACK_DISTANCE) <= p.y <= COORD_LIMIT
        - STEP_LIMIT - crate::knockback::KNOCKBACK_DISTANCE
}

/// What one fixed-timestep tick does to the world, and whether it raises
/// a level-transition request.  With no player present nothing runs.
/// Otherwise, in order: the player moves; each agent chases the moved
/// player; each agent's repeating timer advances and the agents in reach
/// that fired strike the player; the player's attack, if freshly pressed
/// with a finished cooldown, strikes every agent in its range box and
/// knocks it back; the transition request is the goal-region check at
/// the player's validated position; and the lifecycle sweep removes
/// every actor at or below zero health.
pub open spec fn tick_model(w: WorldModel, input: InputState, dt: int) -> (WorldModel, bool) {
    match w.player {
        None => (w, false),
        Some(p0) => {
            let p1 = player_movement_spec(p0, input, dt, w.walls);
            let chased = Seq::new(
                w.enemies.len(),
                |i: int| chase_step(w.enemies[i], p1.position, dt, w.walls),
            );
            let hits = hit_count(chased, p1.position, dt);
            let p2 = PlayerModel { health: p1.health - hits, ..p1 };
            let swung = Seq::new(chased.len(), |i: int| enemy_timer_ticked(chased[i], dt));
            let gate = attack_gate(p2, input.attack_pressed, dt);
            let struck = Seq::new(
                swung.len(),
                |i: int| strike_step(swung[i], p2.position, p2.direction, w.walls, gate),
            );
            let p3 = PlayerModel {
                timer: attack_timer_after(p2, swung, input.attack_pressed, dt),
                ..p2
            };
            let transition = reaches_goal(p2.position, w.goals);
            let survivors = live_enemies(struck);
            let player_after = if p3.health > 0 {
                Some(p3)
            } else {
                None
            };
            (
                WorldModel { player: player_after, enemies: survivors, walls: w.walls, goals: w.goals },
                transition,
            )
        },
    }
}

/// A per-tick step is no larger than the step limit.
pub proof fn lemma_step_of_bounds(speed: int, dt: int)
    requires
        0 <= speed <= crate::geom::SPEED_LIMIT,
        0 <= dt <= DT_LIMIT,
    ensures
        0 <= step_of(speed, dt) <= STEP_LIMIT,
{
    assert(0 <= speed * dt <= 1_000_000_000_000) by (nonlinear_arith)
        requires
            0 <= speed <= 1_000_000,
            0 <= dt <= 1_000_000,
    ;
    assert(0 <= speed * dt / 1000 <= 1_000_000_000) by (nonlinear_arith)
        requires
            0 <= speed * dt <= 1_000_000_000_000,
    ;
}

/// A chase step from an in-arena position lands within the resolver
/// bound: the agent moves by at most one step per axis.
pub proof fn lemma_chase_step_resolvable(e: EnemyModel, target: Point, dt: int, walls: Seq<Vec2>)
    requires
        e.wf(),
        in_arena(e.position),
        0 <= dt <= DT_LIMIT,
    ensures
        resolvable(chase_step(e, target, dt, walls).position),
{
    lemma_step_of_bounds(e.speed, dt);
}

/// A tick taken with headroom (`WorldModel::headroom`) lands in a
/// well-formed world again, so a verified caller may chain ticks for as
/// long as it re-establishes the headroom each time: positions move by
/// at most one step and one knockback length, clamped pushes stop the
/// margin short of obstacles that are themselves inside the arena,
/// timers stay sound, and the lifecycle sweep leaves only actors with
/// positive health.
pub proof fn lemma_tick_preserves_wf(w: WorldModel, input: InputState, dt: int)
    requires
        w.wf(),
        w.headroom(),
        0 <= dt <= DT_LIMIT,
    ensures
        tick_model(w, input, dt).0.wf(),
{
    match w.player {
        None => {},
        Some(p0) => {
            lemma_step_of_bounds(p0.speed, dt);
            let p1 = player_movement_spec(p0, input, dt, w.walls);
            assert(in_arena(p1.position));
            let chased = Seq::new(
                w.enemies.len(),
                |i: int| chase_step(w.enemies[i], p1.position, dt, w.walls),
            );
            let hits = hit_count(chased, p1.position, dt);
            lemma_hit_count_bounds(chased, p1.position, dt);
            let p2 = PlayerModel { health: p1.health - hits, ..p1 };
            let swung = Seq::new(chased.len(), |i: int| enemy_timer_ticked(chased[i], dt));
            let gate = attack_gate(p2, input.attack_pressed, dt);
            let struck = Seq::new(
                swung.len(),
                |i: int| strike_step(swung[i], p2.position, p2.direction, w.walls, gate),
            );
            assert forall|i: int| 0 <= i < struck.len() implies {
                &&& (#[trigger] struck[i]).wf()
                &&& in_arena(struck[i].position)
                &&& struck[i].health <= w.enemies[i].health
            } by {
                let e = w.enemies[i];
                lemma_step_of_bounds(e.speed, dt);
                vstd::arithmetic::div_mod::lemma_mod_pos_bound(
                    e.timer.elapsed + dt,
                    e.timer.interval,
                );
                crate::knockback::lemma_knock_target_in_arena(
                    chased[i].position,
                    w.walls,
                    p2.direction,
                );
            }
            let survivors = live_enemies(struck);
            crate::health::lemma_live_enemies_sub(struck);
            crate::health::lemma_live_enemies_positive(struck);
            assert forall|j: int| 0 <= j < survivors.len() implies {
                &&& (#[trigger] survivors[j]).wf()
                &&& in_arena(survivors[j].position)
                &&& -HEALTH_LIMIT <= survivors[j].health <= HEALTH_LIMIT
            } by {
                let i = choose|i: int| 0 <= i < struck.len() && survivors[j] == struck[i];
                assert(struck[i].wf() && in_arena(struck[i].position));
                assert(survivors[j].health > 0);
                assert(struck[i].health <= w.enemies[i].health <= HEALTH_LIMIT);
            }
        },
    }
}

/// Advance the simulation by one fixed tick of `dt` milliseconds, with
/// the sampled input state.  Returns whether the player reached a goal
/// region this tick, as a level-transition request for the caller.
pub fn world_tick(world: &mut World, input: InputState, dt: u64) -> (transition: bool)
    requires
        old(world)@.wf(),
        dt <= DT_LIMIT,
    ensures
        final(world)@ == tick_model(old(world)@, input, dt as int).0,
        transition == tick_model(old(world)@, input, dt as int).1,
{
    let ghost w0: WorldModel = world@;
    let ghost mut p0g: PlayerModel = arbitrary();
    let ghost mut p1g: PlayerModel = arbitrary();
    let ghost mut p2g: PlayerModel = arbitrary();
    let ghost mut p3g: PlayerModel = arbitrary();
    let ghost mut chasedg: Seq<EnemyModel> = arbitrary();
    let ghost mut swungg: Seq<EnemyModel> = arbitrary();
    let ghost mut struckg: Seq<EnemyModel> = arbitrary();
    let transition: bool;
    match world.player {
        None => {
            return false;
        },
        Some(player_at_entry) => {
            let mut player = player_at_entry;
            proof {
                p0g = player@;
                assert(w0.player == Some(p0g));
            }
            player_movement(&mut player, input, dt, &world.walls);
            proof {
                p1g = player@;
                assert(p1g == player_movement_spec(p0g, input, dt as int, w0.walls));
            }
            let ppos = player.position;

            let ghost e0: Seq<EnemyModel> = views_of(world.enemies@);
            proof {
                assert(e0 == w0.enemies);
                chasedg = Seq::new(
                    e0.len(),
                    |i: int| chase_step(e0[i], p1g.position, dt as int, w0.walls),
                );
            }
            let n = world.enemies.len();
            let mut i: usize = 0;
            while i < n
                invariant
                    0 <= i <= n,
                    n == e0.len(),
                    dt <= DT_LIMIT,
                    world.enemies@.len() == e0.len(),
                    world.walls@ == w0.walls,
                    world.goals@ == w0.goals,
                    player@ == p1g,
                    ppos@ == p1g.position,
                    chasedg == Seq::new(
                        e0.len(),
                        |j: int| chase_step(e0[j], p1g.position, dt as int, w0.walls),
                    ),
                    forall|j: int|
                        0 <= j < e0.len() ==> (#[trigger] e0[j]).wf() && in_arena(e0[j].position),
                    forall|j: int| i <= j < n ==> (#[trigger] world.enemies@[j])@ == e0[j],
                    forall|j: int| 0 <= j < i ==> (#[trigger] world.enemies@[j])@ == chasedg[j],
                decreases n - i,
            {
                let mut e = world.enemies[i];
                move_towards_player(&mut e, ppos, dt, &world.walls);
                world.enemies.set(i, e);
                i = i + 1;
            }
            proof {
                assert(views_of(world.enemies@) =~= chasedg);
                assert forall|j: int| 0 <= j < chasedg.len() implies (#[trigger] chasedg[j]).wf()
                    && resolvable(chasedg[j].position) && chasedg[j].health == e0[j].health by {
                    lemma_chase_step_resolvable(e0[j], p1g.position, dt as int, w0.walls);
                }
                lemma_hit_count_bounds(chasedg, p1g.position, dt as int);
            }

            attack_player(&mut world.enemies, &mut player, dt);
            proof {
                swungg = Seq::new(chasedg.len(), |i: int| enemy_timer_ticked(chasedg[i], dt as int));
                p2g = PlayerModel {
                    health: p1g.health - hit_count(chasedg, p1g.position, dt as int),
                    ..p1g
                };
                assert(views_of(world.enemies@) =~= swungg);
                assert(player@ == p2g);
            }

            attack_enemy(&mut player, &mut world.enemies, input.attack_pressed, dt, &world.walls);
            proof {
                let gate = attack_gate(p2g, input.attack_pressed, dt as int);
                struckg = Seq::new(
                    swungg.len(),
                    |i: int| strike_step(swungg[i], p2g.position, p2g.direction, w0.walls, gate),
                );
                p3g = PlayerModel {
                    timer: attack_timer_after(p2g, swungg, input.attack_pressed, dt as int),
                    ..p2g
                };
                assert(views_of(world.enemies@) =~= struckg);
                assert(player@ == p3g);
            }

            transition = exit_level(player.position, &world.goals);
            proof {
                assert(transition == reaches_goal(p2g.position, w0.goals));
            }
            world.player = Some(player);
        },
    }
    proof {
        assert(world@.player == Some(p3g));
    }

    health_check(&mut world.player, &mut world.enemies);

    proof {
        let tm = tick_model(w0, input, dt as int);
        match w0.player {
            None => {
                assert(false);
            },
            Some(p0) => {
                assert(p0 == p0g);
                let p1 = player_movement_spec(p0, input, dt as int, w0.walls);
                assert(p1 == p1g);
                let chased = Seq::new(
                    w0.enemies.len(),
                    |i: int| chase_step(w0.enemies[i], p1.position, dt as int, w0.walls),
                );
                assert(chased =~= chasedg);
                let hits = hit_count(chased, p1.position, dt as int);
                let p2 = PlayerModel { health: p1.health - hits, ..p1 };
                assert(p2 == p2g);
                let swung = Seq::new(chased.len(), |i: int| enemy_timer_ticked(chased[i], dt as int));
                assert(swung =~= swungg);
                let gate = attack_gate(p2, input.attack_pressed, dt as int);
                let struck = Seq::new(
                    swung.len(),
                    |i: int| strike_step(swung[i], p2.position, p2.direction, w0.walls, gate),
                );
                assert(struck =~= struckg);
                let p3 = PlayerModel {
                    timer: attack_timer_after(p2, swung, input.attack_pressed, dt as int),
                    ..p2
                };
                assert(p3 == p3g);
                assert(views_of(world.enemies@) == live_enemies(struck));
                assert(world@.player == (if p3.health > 0 {
                    Some(p3)
                } else {
                    None
                }));
                assert(world@ == tm.0);
                assert(transition == tm.1);
            },
        }
    }
    transition
}

/// The lifecycle law: whatever a tick's combat resolution did to the
/// actors' healths, every actor still in the world when the tick ends —
/// the state in which the next tick begins — has positive health.  An
/// actor driven to zero or below is gone, with its decorative child,
/// before the next tick's systems run.
pub proof fn lemma_tick_lifecycle(w: WorldModel, input: InputState, dt: int)
    ensures
        tick_model(w, input, dt).0.player matches Some(p) ==> p.health > 0,
        w.player is Some ==> forall|i: int|
            0 <= i < tick_model(w, input, dt).0.enemies.len() ==> (#[trigger] tick_model(
                w,
                input,
                dt,
            ).0.enemies[i]).health > 0,
{
    match w.player {
        None => {},
        Some(p0) => {
            let p1 = player_movement_spec(p0, input, dt, w.walls);
            let chased = Seq::new(
                w.enemies.len(),
                |i: int| chase_step(w.enemies[i], p1.position, dt, w.walls),
            );
            let hits = hit_count(chased, p1.position, dt);
            let p2 = PlayerModel { health: p1.health - hits, ..p1 };
            let swung = Seq::new(chased.len(), |i: int| enemy_timer_ticked(chased[i], dt));
            let gate = attack_gate(p2, input.attack_pressed, dt);
            let struck = Seq::new(
                swung.len(),
                |i: int| strike_step(swung[i], p2.position, p2.direction, w.walls, gate),
            );
            crate::health::lemma_live_enemies_positive(struck);
        },
    }
}

/// The position the external camera collaborator should follow: the
/// player's current validated position, while the player exists.
pub fn camera_follow(world: &World) -> (pos: Option<Vec2>)
    ensures
        match world@.player {
            None => pos is None,
            Some(p) => pos matches Some(v) && v@ == p.position,
        },
{
    match &world.player {
        None => None,
        Some(p) => Some(p.position),
    }
}

/// Set up a level from its parsed grid: the tile geometry always, and
/// for the first level the player and one agent at their fixed spawn
/// points.  The later levels hold only their tile layout.
pub fn load_level(level: GameLevel, lines: &Vec<Vec<u8>>) -> (world: World)
    requires
        lines@.len() <= MAP_LIMIT,
        forall|i: int| 0 <= i < lines@.len() ==> (#[trigger] lines@[i])@.len() <= MAP_LIMIT,
    ensures
        world@.wf(),
        points_of(world.walls@) == grid_points(lines@, WALL_MARK),
        points_of(world.goals@) == grid_points(lines@, EXIT_MARK),
        match level {
            GameLevel::Level1 => {
                &&& world@.player matches Some(p) && p.position == (Point { x: 450, y: -250 })
                    && p.depth == 890
                    && p.health == crate::player::PLAYER_START_HEALTH
                    && p.speed == crate::player::PLAYER_SPEED
                    && p.direction == crate::geom::Dir::West
                    && p.timer.duration == crate::player::ATTACK_COOLDOWN_MS
                    && p.timer.elapsed == 0
                &&& world@.enemies.len() == 1
                &&& world@.enemies[0].position == (Point { x: 600, y: -50 })
                &&& world@.enemies[0].depth == 880
                &&& world@.enemies[0].health == crate::enemy::ENEMY_START_HEALTH
                &&& world@.enemies[0].speed == crate::enemy::ENEMY_SPEED
                &&& world@.enemies[0].vision == crate::enemy::ENEMY_VISION
                &&& world@.enemies[0].timer.interval == crate::enemy::ENEMY_ATTACK_INTERVAL_MS
                &&& world@.enemies[0].timer.elapsed == 0
            },
            GameLevel::Level2 | GameLevel::Level3 => {
                &&& world@.player is None
                &&& world@.enemies.len() == 0
            },
        },
{
    let map: Level = spawn_map(lines);
    let mut enemies: Vec<Enemy> = Vec::new();
    let player: Option<Player>;
    match level {
        GameLevel::Level1 => {
            player = Some(crate::player::spawn_player(Vec2 { x: 450, y: -250 }, 890));
            enemies.push(crate::enemy::spawn_enemy(Vec2 { x: 600, y: -50 }, 880));
        },
        GameLevel::Level2 | GameLevel::Level3 => {
            player = None;
        },
    }
    World { player, enemies, walls: map.walls, goals: map.goals }
}

} // verus!
