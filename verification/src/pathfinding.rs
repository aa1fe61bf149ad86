//! Vision-based chase behavior for hostile agents.
//!
//! An agent "sees" the player when the player's fixed-size box overlaps a
//! box of side equal to the agent's vision range centered on the agent —
//! the same overlap primitive as collision, not a radial distance check.
//! A seen player is chased one axis at a time at the agent's speed, and
//! the steering intent runs through the same per-axis wall validation as
//! the player's own movement.

use vstd::prelude::*;
use crate::geom::{Vec2, Point, overlaps, overlaps_at, square, resolvable, PLAYER_SIZE};
use crate::timers::DT_LIMIT;
use crate::player::{move_and_slide, resolve_move, step_of, scaled_step};
use crate::enemy::{Enemy, EnemyModel};

verus! {

/// Chase parameters of an agent: how far it sees and how fast it moves.
#[derive(Clone, Copy, PartialEq, Eq, Structural, Debug)]
pub struct Pathinder {
    /// Side length of the vision box centered on the agent.
    pub vision: i64,
    /// Movement speed in units per second.
    pub speed: i64,
}

/// Whether an agent at `agent` with the given vision range sees a target
/// whose box is centered at `target`.
pub open spec fn sees(target: Point, agent: Point, vision: int) -> bool {
    overlaps_at(target, square(PLAYER_SIZE as int), agent, square(vision))
}

/// Vision check: the target's fixed-size box against the vision box
/// centered on the agent.
pub fn find_player_location(
    target_player_position: Vec2,
    pathfinder_position: Vec2,
    pathfinder_vision: i64,
) -> (visible: bool)
    ensures
        visible == sees(target_player_position@, pathfinder_position@, pathfinder_vision as int),
{
    overlaps(
        target_player_position,
        Vec2::splat(PLAYER_SIZE),
        pathfinder_position,
        Vec2::splat(pathfinder_vision),
    )
}

/// The steering displacement toward `target` on one axis: a full step
/// toward the target's coordinate when the agent's differs, else zero.
pub open spec fn chase_delta(from: int, to: int, step: int) -> int {
    if from < to {
        step
    } else if from > to {
        -step
    } else {
        0
    }
}

/// The agent after one chase tick: unchanged when the target is out of
/// sight; otherwise moved toward the target by `speed * dt` per axis,
/// validated per axis against the obstacles.
pub open spec fn chase_step(e: EnemyModel, target: Point, dt: int, walls: Seq<Vec2>) -> EnemyModel {
    if sees(target, e.position, e.vision) {
        let step = step_of(e.speed, dt);
        EnemyModel {
            position: resolve_move(
                e.position,
                chase_delta(e.position.x, target.x, step),
                chase_delta(e.position.y, target.y, step),
                walls,
            ),
            ..e
        }
    } else {
        e
    }
}

/// One chase tick for a single agent: if the player is within the agent's
/// vision box, steer toward the player's coordinates axis by axis, with
/// the same wall validation as player movement; otherwise stand still.
pub fn move_towards_player(
    enemy: &mut Enemy,
    player_position: Vec2,
    dt: u64,
    walls: &Vec<Vec2>,
)
    requires
        old(enemy)@.wf(),
        resolvable(old(enemy)@.position),
        dt <= DT_LIMIT,
    ensures
        final(enemy)@ == chase_step(old(enemy)@, player_position@, dt as int, walls@),
{
    if find_player_location(player_position, enemy.position, enemy.pathfinder.vision) {
        let step = scaled_step(enemy.pathfinder.speed, dt);

        let mut x_delta: i64 = 0;
        if enemy.position.x < player_position.x {
            x_delta = x_delta + step;
        }
        if enemy.position.x > player_position.x {
            x_delta = x_delta - step;
        }

        let mut y_delta: i64 = 0;
        if enemy.position.y < player_position.y {
            y_delta = y_delta + step;
        }
        if enemy.position.y > player_position.y {
            y_delta = y_delta - step;
        }

        move_and_slide(&mut enemy.position, x_delta, y_delta, walls);
    }
}

} // verus!
