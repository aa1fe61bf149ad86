//! The hostile agent actor and its attack on the player.
//!
//! Each agent carries its own repeating attack timer.  The timer
//! accumulates time every tick whether or not the player is in range;
//! only the instant it crosses the interval boundary while the agent's
//! widened box overlaps the player counts as a hit, so an agent that
//! stays in range still hits only once per interval.

use vstd::prelude::*;
use crate::geom::{Vec2, Point, overlaps, overlaps_at, square, PLAYER_SIZE, SPEED_LIMIT};
use crate::timers::{RepeatTimer, RepeatTimerModel, DT_LIMIT};
use crate::player::{Player, PlayerModel, Decoration};
use crate::pathfinding::Pathinder;

verus! {

/// An agent's movement speed, in units per second.
pub const ENEMY_SPEED: i64 = 40;

/// Milliseconds between two hits of an agent that stays in range.
pub const ENEMY_ATTACK_INTERVAL_MS: u64 = 1500;

/// Starting health of an agent.
pub const ENEMY_START_HEALTH: i64 = 30;

/// Default vision range of an agent: the side length of the box, centered
/// on the agent, inside which it sees the player.
pub const ENEMY_VISION: i64 = 250;

/// Side length of the widened agent box used when testing whether the
/// agent reaches the player (the sprite box scaled by 1.2).
pub const ENEMY_HIT_SIZE: i64 = 60;

/// A hostile agent.
#[derive(Clone, Copy, PartialEq, Eq, Structural, Debug)]
pub struct Enemy {
    /// Center of the agent's box; the last validated position.
    pub position: Vec2,
    /// Draw depth, carried but never read by the simulation.
    pub depth: i64,
    /// Repeating attack cooldown.
    pub timer: RepeatTimer,
    /// Chase parameters: vision range and movement speed.
    pub pathfinder: Pathinder,
    /// Signed health; removal is scheduled once it is zero or below.
    pub health: i64,
    /// Zero-or-one decorative child, removed together with the agent.
    pub decoration: Option<Decoration>,
}

/// The mathematical model of an `Enemy`.
pub struct EnemyModel {
    pub position: Point,
    pub depth: int,
    pub timer: RepeatTimerModel,
    pub vision: int,
    pub speed: int,
    pub health: int,
    pub decoration: Option<Decoration>,
}

impl View for Enemy {
    type V = EnemyModel;

    open spec fn view(&self) -> EnemyModel {
        EnemyModel {
            position: self.position@,
            depth: self.depth as int,
            timer: self.timer@,
            vision: self.pathfinder.vision as int,
            speed: self.pathfinder.speed as int,
            health: self.health as int,
            decoration: self.decoration,
        }
    }
}

impl EnemyModel {
    /// Structural well-formedness: a sound timer and a bounded speed.
    pub open spec fn wf(self) -> bool {
        &&& self.timer.wf()
        &&& 0 <= self.speed <= SPEED_LIMIT
    }
}

/// A fresh agent at the given spawn position and draw-depth, with the
/// default stats.  The agent owns one decorative child drawn just
/// behind it.
pub fn spawn_enemy(spawn_point: Vec2, depth: i64) -> (e: Enemy)
    ensures
        e@.wf(),
        e@.position == spawn_point@,
        e@.depth == depth,
        e@.timer.interval == ENEMY_ATTACK_INTERVAL_MS,
        e@.timer.elapsed == 0,
        e@.vision == ENEMY_VISION,
        e@.speed == ENEMY_SPEED,
        e@.health == ENEMY_START_HEALTH,
        e@.decoration == Some(Decoration { offset: Vec2 { x: 0, y: 0 }, depth: -1i64 }),
{
    Enemy {
        position: spawn_point,
        depth,
        timer: RepeatTimer::new(ENEMY_ATTACK_INTERVAL_MS),
        pathfinder: Pathinder { vision: ENEMY_VISION, speed: ENEMY_SPEED },
        health: ENEMY_START_HEALTH,
        decoration: Some(Decoration { offset: Vec2 { x: 0, y: 0 }, depth: -1i64 }),
    }
}

/// The views of a run of agents, index by index.
pub open spec fn views_of(s: Seq<Enemy>) -> Seq<EnemyModel> {
    Seq::new(s.len(), |i: int| s[i]@)
}

/// The agent with its attack timer advanced by `dt`; nothing else moves.
pub open spec fn enemy_timer_ticked(e: EnemyModel, dt: int) -> EnemyModel {
    EnemyModel { timer: e.timer.ticked(dt), ..e }
}

/// Whether this agent lands a hit this tick: it is still alive, and its
/// repeating timer crosses the interval boundary while its widened box
/// overlaps the player's box.  An agent already driven to zero health
/// earlier in the same tick no longer strikes.
pub open spec fn enemy_hits(e: EnemyModel, player_pos: Point, dt: int) -> bool {
    &&& e.health > 0
    &&& e.timer.fires(dt)
    &&& overlaps_at(e.position, square(ENEMY_HIT_SIZE as int), player_pos, square(
        PLAYER_SIZE as int,
    ))
}

/// How many of the agents land a hit this tick.
pub open spec fn hit_count(enemies: Seq<EnemyModel>, player_pos: Point, dt: int) -> int
    decreases enemies.len(),
{
    if enemies.len() == 0 {
        0
    } else {
        hit_count(enemies.drop_last(), player_pos, dt) + if enemy_hits(
            enemies.last(),
            player_pos,
            dt,
        ) {
            1int
        } else {
            0int
        }
    }
}

/// The hit count is between zero and the number of agents.
pub proof fn lemma_hit_count_bounds(enemies: Seq<EnemyModel>, player_pos: Point, dt: int)
    ensures
        0 <= hit_count(enemies, player_pos, dt) <= enemies.len(),
    decreases enemies.len(),
{
    if enemies.len() > 0 {
        lemma_hit_count_bounds(enemies.drop_last(), player_pos, dt);
    }
}

/// One combat tick of every agent against the player: each agent's
/// repeating timer advances by `dt` regardless of overlap, and the player
/// loses one health for each agent whose timer fired while in reach.
pub fn attack_player(enemies: &mut Vec<Enemy>, player: &mut Player, dt: u64)
    requires
        forall|i: int| 0 <= i < old(enemies)@.len() ==> (#[trigger] old(enemies)@[i])@.wf(),
        dt <= DT_LIMIT,
        old(player)@.health - old(enemies)@.len() >= i64::MIN,
    ensures
        final(enemies)@.len() == old(enemies)@.len(),
        forall|i: int|
            0 <= i < old(enemies)@.len() ==> (#[trigger] final(enemies)@[i])@ == enemy_timer_ticked(
                old(enemies)@[i]@,
                dt as int,
            ),
        final(player)@ == (PlayerModel {
            health: old(player)@.health - hit_count(
                views_of(old(enemies)@),
                old(player)@.position,
                dt as int,
            ),
            ..old(player)@
        }),
        forall|i: int| 0 <= i < final(enemies)@.len() ==> (#[trigger] final(enemies)@[i])@.wf(),
{
    let ghost orig: Seq<Enemy> = enemies@;
    let ghost ppos: Point = player@.position;
    let n = enemies.len();
    let mut idx: usize = 0;
    while idx < n
        invariant
            0 <= idx <= n,
            n == orig.len(),
            dt <= DT_LIMIT,
            enemies@.len() == orig.len(),
            ppos == player@.position,
            forall|i: int| 0 <= i < orig.len() ==> (#[trigger] orig[i])@.wf(),
            forall|i: int|
                idx <= i < orig.len() ==> #[trigger] enemies@[i] == orig[i],
            forall|i: int|
                0 <= i < idx ==> (#[trigger] enemies@[i])@ == enemy_timer_ticked(
                    orig[i]@,
                    dt as int,
                ),
            player@.health == old(player)@.health - hit_count(
                views_of(orig).subrange(0, idx as int),
                ppos,
                dt as int,
            ),
            player@.position == old(player)@.position,
            player@.depth == old(player)@.depth,
            player@.speed == old(player)@.speed,
            player@.direction == old(player)@.direction,
            player@.timer == old(player)@.timer,
            player@.decoration == old(player)@.decoration,
            old(player)@.health - orig.len() >= i64::MIN,
        decreases n - idx,
    {
        proof {
            lemma_hit_count_bounds(views_of(orig).subrange(0, idx as int), ppos, dt as int);
            assert(views_of(orig).subrange(0, idx as int + 1).drop_last() =~= views_of(
                orig,
            ).subrange(0, idx as int));
            assert(views_of(orig).subrange(0, idx as int + 1).last() == orig[idx as int]@);
        }
        let mut e = enemies[idx];
        let alive = e.health > 0;
        let fired = e.timer.tick(dt);
        let in_reach = overlaps(
            e.position,
            Vec2::splat(ENEMY_HIT_SIZE),
            player.position,
            Vec2::splat(PLAYER_SIZE),
        );
        if alive && in_reach && fired {
            player.health = player.health - 1;
        }
        enemies.set(idx, e);
        idx = idx + 1;
    }
    proof {
        assert(views_of(orig).subrange(0, views_of(orig).len() as int) =~= views_of(orig));
    }
}

/// An agent after a run of ticks in which only its repeating attack
/// timer advances.
pub open spec fn agent_after_run(e: EnemyModel, dts: Seq<int>) -> EnemyModel
    decreases dts.len(),
{
    if dts.len() == 0 {
        e
    } else {
        enemy_timer_ticked(agent_after_run(e, dts.drop_last()), dts.last())
    }
}

/// How many hits the agent lands on a player standing at `player_pos`
/// over a run of ticks.
pub open spec fn agent_run_hits(e: EnemyModel, player_pos: Point, dts: Seq<int>) -> int
    decreases dts.len(),
{
    if dts.len() == 0 {
        0
    } else {
        agent_run_hits(e, player_pos, dts.drop_last()) + if enemy_hits(
            agent_after_run(e, dts.drop_last()),
            player_pos,
            dts.last(),
        ) {
            1int
        } else {
            0int
        }
    }
}

/// Ticking only the timer changes only the timer, exactly as the bare
/// repeating timer would change.
proof fn lemma_agent_after_run_timer(e: EnemyModel, dts: Seq<int>)
    ensures
        agent_after_run(e, dts).timer == crate::timers::repeat_run(e.timer, dts),
        agent_after_run(e, dts) == (EnemyModel {
            timer: crate::timers::repeat_run(e.timer, dts),
            ..e
        }),
    decreases dts.len(),
{
    if dts.len() > 0 {
        lemma_agent_after_run_timer(e, dts.drop_last());
    }
}

/// The repeating-timer semantics of the agent's attack: an agent that
/// starts a fresh interval and stays overlapping the player for a whole
/// run of ticks, each no longer than the interval, lands exactly one hit
/// per completed interval of accumulated time — its total hits are the
/// accumulated time divided by the interval, never more.
pub proof fn lemma_repeating_attack(e: EnemyModel, player_pos: Point, dts: Seq<int>)
    requires
        e.wf(),
        e.timer.elapsed == 0,
        e.health > 0,
        overlaps_at(
            e.position,
            square(ENEMY_HIT_SIZE as int),
            player_pos,
            square(PLAYER_SIZE as int),
        ),
        forall|i: int| 0 <= i < dts.len() ==> 0 <= #[trigger] dts[i] <= e.timer.interval,
    ensures
        agent_run_hits(e, player_pos, dts) == crate::timers::seq_sum(dts) / e.timer.interval,
    decreases dts.len(),
{
    crate::timers::lemma_repeat_run_fires(e.timer, dts);
    if dts.len() == 0 {
        vstd::arithmetic::div_mod::lemma_fundamental_div_mod_converse(0, e.timer.interval, 0, 0);
    } else {
        assert(forall|i: int|
            0 <= i < dts.drop_last().len() ==> 0 <= #[trigger] dts.drop_last()[i]
                <= e.timer.interval);
        lemma_repeating_attack(e, player_pos, dts.drop_last());
        lemma_agent_after_run_timer(e, dts.drop_last());
        crate::timers::lemma_repeat_run_fires(e.timer, dts.drop_last());
        crate::timers::lemma_seq_sum_nonneg(dts.drop_last());
        let ii = e.timer.interval;
        let s = crate::timers::seq_sum(dts.drop_last());
        let dt = dts.last();
        let q = s / ii;
        let r = s % ii;
        vstd::arithmetic::div_mod::lemma_fundamental_div_mod(s, ii);
        vstd::arithmetic::div_mod::lemma_mod_pos_bound(s, ii);
        if r + dt >= ii {
            assert(s + dt == (q + 1) * ii + (r + dt - ii)) by (nonlinear_arith)
                requires
                    s == ii * q + r,
            ;
            vstd::arithmetic::div_mod::lemma_fundamental_div_mod_converse(
                s + dt,
                ii,
                q + 1,
                r + dt - ii,
            );
        } else {
            assert(s + dt == q * ii + (r + dt)) by (nonlinear_arith)
                requires
                    s == ii * q + r,
            ;
            vstd::arithmetic::div_mod::lemma_fundamental_div_mod_converse(s + dt, ii, q, r + dt);
        }
    }
}

} // verus!
