//! The player actor and the movement resolver.
//!
//! Movement resolves one axis at a time: the x displacement is applied
//! first and committed only if the candidate position is clear of every
//! obstacle; the y displacement is then tried from the possibly updated
//! position.  Rejecting only the blocked axis is what lets an actor slide
//! along a wall when moving diagonally into it.

use vstd::prelude::*;
use crate::geom::{
    Vec2, Point, Dir, overlaps, overlaps_at, square, resolvable,
    TILE_SIZE, BODY_SIZE, STEP_LIMIT, SPEED_LIMIT,
};
use crate::timers::{OnceTimer, OnceTimerModel, DT_LIMIT};

verus! {

/// The player's movement speed, in units per second.
pub const PLAYER_SPEED: i64 = 100;

/// Milliseconds the player's attack cooldown runs before another attack
/// is allowed.
pub const ATTACK_COOLDOWN_MS: u64 = 3000;

/// Starting health of the player.
pub const PLAYER_START_HEALTH: i64 = 100;

/// The directional keys held and the attack key edge for one tick.
#[derive(Clone, Copy, PartialEq, Eq, Structural, Debug)]
pub struct InputState {
    pub up: bool,
    pub down: bool,
    pub left: bool,
    pub right: bool,
    /// True only on the tick in which the attack key went down.
    pub attack_pressed: bool,
}

/// A purely visual child representation owned by an actor; it exists only
/// to be drawn alongside its owner and is removed with it.
#[derive(Clone, Copy, PartialEq, Eq, Structural, Debug)]
pub struct Decoration {
    /// Offset of the decoration from its owner.
    pub offset: Vec2,
    /// Draw-depth offset relative to its owner.
    pub depth: i64,
}

/// The player actor.
#[derive(Clone, Copy, PartialEq, Eq, Structural, Debug)]
pub struct Player {
    /// Center of the player's box; the last validated position.
    pub position: Vec2,
    /// Draw depth, carried but never read by the simulation.
    pub depth: i64,
    /// Movement speed in units per second.
    pub speed: i64,
    /// Facing direction: the last cardinal direction actively moved toward.
    pub direction: Dir,
    /// One-shot attack cooldown.
    pub timer: OnceTimer,
    /// Signed health; removal is scheduled once it is zero or below.
    pub health: i64,
    /// Zero-or-one decorative child, removed together with the player.
    pub decoration: Option<Decoration>,
}

/// The mathematical model of a `Player`.
pub struct PlayerModel {
    pub position: Point,
    pub depth: int,
    pub speed: int,
    pub direction: Dir,
    pub timer: OnceTimerModel,
    pub health: int,
    pub decoration: Option<Decoration>,
}

impl View for Player {
    type V = PlayerModel;

    open spec fn view(&self) -> PlayerModel {
        PlayerModel {
            position: self.position@,
            depth: self.depth as int,
            speed: self.speed as int,
            direction: self.direction,
            timer: self.timer@,
            health: self.health as int,
            decoration: self.decoration,
        }
    }
}

impl PlayerModel {
    /// Structural well-formedness: a sound timer and a bounded speed.
    pub open spec fn wf(self) -> bool {
        &&& self.timer.wf()
        &&& 0 <= self.speed <= SPEED_LIMIT
    }
}

/// A fresh player at the given spawn position and draw-depth, with the
/// default stats: full health, the standard speed, a westward facing,
/// and an attack cooldown starting at zero elapsed — no attack can land
/// before the whole cooldown has accumulated.  The player owns one
/// decorative child drawn just behind it.
pub fn spawn_player(spawn_point: Vec2, depth: i64) -> (p: Player)
    ensures
        p@.wf(),
        p@.position == spawn_point@,
        p@.depth == depth,
        p@.speed == PLAYER_SPEED,
        p@.direction == Dir::West,
        p@.timer.duration == ATTACK_COOLDOWN_MS,
        p@.timer.elapsed == 0,
        p@.health == PLAYER_START_HEALTH,
        p@.decoration == Some(Decoration { offset: Vec2 { x: 0, y: 0 }, depth: -1i64 }),
{
    Player {
        position: spawn_point,
        depth,
        speed: PLAYER_SPEED,
        direction: Dir::West,
        timer: OnceTimer::new(ATTACK_COOLDOWN_MS),
        health: PLAYER_START_HEALTH,
        decoration: Some(Decoration { offset: Vec2 { x: 0, y: 0 }, depth: -1i64 }),
    }
}

/// A position is clear when the actor's shrunken body box overlaps no
/// obstacle tile.
pub open spec fn wall_free(p: Point, walls: Seq<Vec2>) -> bool {
    forall|i: int|
        0 <= i < walls.len() ==> !overlaps_at(
            p,
            square(BODY_SIZE as int),
            #[trigger] walls[i]@,
            square(TILE_SIZE as int),
        )
}

/// Whether an actor whose body box is centered at `target` stands clear of
/// every obstacle.  Returns true when the position may be committed.
pub fn wall_collision_check(target: Vec2, walls: &Vec<Vec2>) -> (ok: bool)
    ensures
        ok == wall_free(target@, walls@),
{
    let body = Vec2::splat(BODY_SIZE);
    let tile = Vec2::splat(TILE_SIZE);
    let mut idx: usize = 0;
    while idx < walls.len()
        invariant
            0 <= idx <= walls.len(),
            body.x == BODY_SIZE && body.y == BODY_SIZE,
            tile.x == TILE_SIZE && tile.y == TILE_SIZE,
            forall|i: int|
                0 <= i < idx ==> !overlaps_at(
                    target@,
                    square(BODY_SIZE as int),
                    #[trigger] walls@[i]@,
                    square(TILE_SIZE as int),
                ),
        decreases walls.len() - idx,
    {
        if overlaps(target, body, walls[idx], tile) {
            return false;
        }
        idx = idx + 1;
    }
    true
}

/// The point `p` displaced by `(dx, dy)`.
pub open spec fn shifted(p: Point, dx: int, dy: int) -> Point {
    Point { x: p.x + dx, y: p.y + dy }
}

/// One axis of the movement resolver: commit the x displacement only if
/// the candidate position is clear.
pub open spec fn slide_x(p: Point, dx: int, walls: Seq<Vec2>) -> Point {
    if wall_free(shifted(p, dx, 0), walls) {
        shifted(p, dx, 0)
    } else {
        p
    }
}

/// The other axis, tried from the possibly already-updated position.
pub open spec fn slide_y(p: Point, dy: int, walls: Seq<Vec2>) -> Point {
    if wall_free(shifted(p, 0, dy), walls) {
        shifted(p, 0, dy)
    } else {
        p
    }
}

/// The movement resolver: x axis first, then y axis from the result.
pub open spec fn resolve_move(p: Point, dx: int, dy: int, walls: Seq<Vec2>) -> Point {
    slide_y(slide_x(p, dx, walls), dy, walls)
}

/// Apply a requested displacement to `pos`, validating each axis
/// independently against the obstacles.
pub fn move_and_slide(pos: &mut Vec2, dx: i64, dy: i64, walls: &Vec<Vec2>)
    requires
        resolvable(old(pos)@),
        -STEP_LIMIT <= dx <= STEP_LIMIT,
        -STEP_LIMIT <= dy <= STEP_LIMIT,
    ensures
        final(pos)@ == resolve_move(old(pos)@, dx as int, dy as int, walls@),
{
    let cand_x = Vec2 { x: pos.x + dx, y: pos.y };
    if wall_collision_check(cand_x, walls) {
        *pos = cand_x;
    }
    let cand_y = Vec2 { x: pos.x, y: pos.y + dy };
    if wall_collision_check(cand_y, walls) {
        *pos = cand_y;
    }
}

/// After any movement resolver call, a committed position is still clear
/// of every obstacle: the resolver never trades a validated position for
/// a colliding one.
pub proof fn lemma_resolver_no_overlap(p: Point, dx: int, dy: int, walls: Seq<Vec2>)
    requires
        wall_free(p, walls),
    ensures
        wall_free(resolve_move(p, dx, dy, walls), walls),
{
}

/// The sliding property: when a diagonal move is blocked on the x axis
/// alone, the actor still advances the full y displacement in the same
/// tick, and symmetrically for a blocked y axis.
pub proof fn lemma_slide_along_wall(p: Point, dx: int, dy: int, walls: Seq<Vec2>)
    ensures
        !wall_free(shifted(p, dx, 0), walls) && wall_free(shifted(p, 0, dy), walls)
            ==> resolve_move(p, dx, dy, walls) == shifted(p, 0, dy),
        wall_free(shifted(p, dx, 0), walls) && !wall_free(shifted(shifted(p, dx, 0), 0, dy), walls)
            ==> resolve_move(p, dx, dy, walls) == shifted(p, dx, 0),
{
}

/// The requested displacement along one axis: `speed * dt`, with time in
/// milliseconds, truncating toward zero.
pub open spec fn step_of(speed: int, dt: int) -> int {
    speed * dt / 1000
}

/// Compute `speed * dt / 1000` without overflow.
pub fn scaled_step(speed: i64, dt: u64) -> (s: i64)
    requires
        0 <= speed <= SPEED_LIMIT,
        dt <= DT_LIMIT,
    ensures
        s == step_of(speed as int, dt as int),
        0 <= s <= STEP_LIMIT,
{
    proof {
        let sp = speed as int;
        let d = dt as int;
        assert(0 <= sp * d <= 1_000_000_000_000) by (nonlinear_arith)
            requires
                0 <= sp <= 1_000_000,
                0 <= d <= 1_000_000,
        ;
    }
    let product: i64 = speed * (dt as i64);
    product / 1000
}

/// The facing direction after one tick of held keys.  Each held key
/// overwrites the facing in a fixed order, so when several are held the
/// last write wins; with no key held the previous facing is kept.
pub open spec fn facing_after(input: InputState, prev: Dir) -> Dir {
    if input.right {
        Dir::East
    } else if input.left {
        Dir::West
    } else if input.down {
        Dir::South
    } else if input.up {
        Dir::North
    } else {
        prev
    }
}

/// The x displacement requested by the held keys: right minus left.
pub open spec fn input_dx(input: InputState, step: int) -> int {
    (if input.right { step } else { 0 }) - (if input.left { step } else { 0 })
}

/// The y displacement requested by the held keys: up minus down.
pub open spec fn input_dy(input: InputState, step: int) -> int {
    (if input.up { step } else { 0 }) - (if input.down { step } else { 0 })
}

/// The player after one movement tick: facing updated from the held keys,
/// position resolved per axis against the obstacles.
pub open spec fn player_movement_spec(
    p: PlayerModel,
    input: InputState,
    dt: int,
    walls: Seq<Vec2>,
) -> PlayerModel {
    let step = step_of(p.speed, dt);
    PlayerModel {
        position: resolve_move(p.position, input_dx(input, step), input_dy(input, step), walls),
        direction: facing_after(input, p.direction),
        ..p
    }
}

/// One movement tick for the player: converts held keys, speed and the
/// elapsed time into a per-axis validated position update, and records the
/// facing direction as a side effect of the keys held.
pub fn player_movement(player: &mut Player, input: InputState, dt: u64, walls: &Vec<Vec2>)
    requires
        old(player)@.wf(),
        resolvable(old(player)@.position),
        dt <= DT_LIMIT,
    ensures
        final(player)@ == player_movement_spec(old(player)@, input, dt as int, walls@),
{
    let step = scaled_step(player.speed, dt);

    let mut y_delta: i64 = 0;
    if input.up {
        y_delta = y_delta + step;
        player.direction = Dir::North;
    }
    if input.down {
        y_delta = y_delta - step;
        player.direction = Dir::South;
    }

    let mut x_delta: i64 = 0;
    if input.left {
        x_delta = x_delta - step;
        player.direction = Dir::West;
    }
    if input.right {
        x_delta = x_delta + step;
        player.direction = Dir::East;
    }

    move_and_slide(&mut player.position, x_delta, y_delta, walls);
}

/// Side length of the player's attack-range box: three times the base
/// sprite size, centered on the player.
pub const ATTACK_RANGE_SIZE: i64 = 150;

/// Whether an agent's box overlaps the player's attack-range box.
pub open spec fn in_attack_range(player_pos: Point, agent_pos: Point) -> bool {
    overlaps_at(
        player_pos,
        square(ATTACK_RANGE_SIZE as int),
        agent_pos,
        square(crate::geom::ENEMY_SIZE as int),
    )
}

/// Whether the attack goes through this tick: the attack key was freshly
/// pressed and the cooldown, advanced by this tick's time, has finished.
pub open spec fn attack_gate(p: PlayerModel, attack_pressed: bool, dt: int) -> bool {
    attack_pressed && p.timer.ticked(dt).is_finished()
}

/// One agent's fate under an open attack gate: an agent in range loses
/// one health and is knocked back along the player's facing axis; any
/// other agent is untouched.
pub open spec fn strike_step(
    e: crate::enemy::EnemyModel,
    player_pos: Point,
    dir: Dir,
    walls: Seq<Vec2>,
    gate: bool,
) -> crate::enemy::EnemyModel {
    if gate && in_attack_range(player_pos, e.position) {
        crate::enemy::EnemyModel {
            health: e.health - 1,
            position: crate::knockback::knock_target(e.position, walls, dir),
            ..e
        }
    } else {
        e
    }
}

/// Whether an open attack gate finds at least one agent in range; only
/// then is the cooldown spent.
pub open spec fn any_struck(
    enemies: Seq<crate::enemy::EnemyModel>,
    player_pos: Point,
    gate: bool,
) -> bool {
    gate && exists|i: int| 0 <= i < enemies.len() && in_attack_range(player_pos, enemies[i].position)
}

/// The player's cooldown after one attack tick: advanced by `dt`, and
/// wound back to zero when a strike landed.
pub open spec fn attack_timer_after(
    p: PlayerModel,
    enemies: Seq<crate::enemy::EnemyModel>,
    attack_pressed: bool,
    dt: int,
) -> crate::timers::OnceTimerModel {
    if any_struck(enemies, p.position, attack_gate(p, attack_pressed, dt)) {
        p.timer.ticked(dt).reset()
    } else {
        p.timer.ticked(dt)
    }
}

/// One combat tick of the player against the agents: the cooldown is
/// advanced; if the attack key was freshly pressed and the cooldown has
/// finished, every agent overlapping the attack-range box loses one
/// health and is knocked back along the player's current facing, and the
/// cooldown is reset to zero elapsed.  Held keys, an unfinished cooldown
/// or an empty attack box leave every agent untouched.
pub fn attack_enemy(
    player: &mut Player,
    enemies: &mut Vec<crate::enemy::Enemy>,
    attack_pressed: bool,
    dt: u64,
    walls: &Vec<Vec2>,
)
    requires
        old(player)@.wf(),
        dt <= DT_LIMIT,
        forall|i: int| 0 <= i < old(enemies)@.len() ==> (#[trigger] old(enemies)@[i])@.wf(),
        forall|i: int|
            0 <= i < old(enemies)@.len() ==> resolvable((#[trigger] old(enemies)@[i])@.position),
        forall|i: int|
            0 <= i < old(enemies)@.len() ==> (#[trigger] old(enemies)@[i])@.health > i64::MIN,
        forall|i: int| 0 <= i < walls@.len() ==> crate::geom::in_arena(#[trigger] walls@[i]@),
    ensures
        final(enemies)@.len() == old(enemies)@.len(),
        forall|i: int|
            0 <= i < old(enemies)@.len() ==> (#[trigger] final(enemies)@[i])@ == strike_step(
                old(enemies)@[i]@,
                old(player)@.position,
                old(player)@.direction,
                walls@,
                attack_gate(old(player)@, attack_pressed, dt as int),
            ),
        final(player)@ == (PlayerModel {
            timer: attack_timer_after(
                old(player)@,
                crate::enemy::views_of(old(enemies)@),
                attack_pressed,
                dt as int,
            ),
            ..old(player)@
        }),
        forall|i: int| 0 <= i < final(enemies)@.len() ==> (#[trigger] final(enemies)@[i])@.wf(),
{
    player.timer.tick(dt);
    let gate = attack_pressed && player.timer.finished();

    let ghost orig: Seq<crate::enemy::Enemy> = enemies@;
    let ghost ppos: Point = player@.position;
    let ghost pdir: Dir = player@.direction;
    let mut struck_any: bool = false;
    let n = enemies.len();
    let mut idx: usize = 0;
    while idx < n
        invariant
            0 <= idx <= n,
            n == orig.len(),
            enemies@.len() == orig.len(),
            ppos == player@.position,
            pdir == player@.direction,
            gate == attack_gate(old(player)@, attack_pressed, dt as int),
            forall|i: int| 0 <= i < orig.len() ==> (#[trigger] orig[i])@.wf(),
            forall|i: int| 0 <= i < orig.len() ==> resolvable((#[trigger] orig[i])@.position),
            forall|i: int| 0 <= i < orig.len() ==> (#[trigger] orig[i])@.health > i64::MIN,
            forall|i: int| 0 <= i < walls@.len() ==> crate::geom::in_arena(#[trigger] walls@[i]@),
            forall|i: int| idx <= i < orig.len() ==> #[trigger] enemies@[i] == orig[i],
            forall|i: int|
                0 <= i < idx ==> (#[trigger] enemies@[i])@ == strike_step(
                    orig[i]@,
                    ppos,
                    pdir,
                    walls@,
                    gate,
                ),
            struck_any == (gate && exists|i: int|
                0 <= i < idx && in_attack_range(ppos, orig[i]@.position)),
        decreases n - idx,
    {
        let mut e = enemies[idx];
        let in_range = overlaps(
            player.position,
            Vec2::splat(ATTACK_RANGE_SIZE),
            e.position,
            Vec2::splat(crate::geom::ENEMY_SIZE),
        );
        if gate && in_range {
            e.health = e.health - 1;
            crate::knockback::knock_back(player.direction, walls, &mut e.position);
            struck_any = true;
            proof {
                assert(in_attack_range(ppos, orig[idx as int]@.position));
            }
        }
        enemies.set(idx, e);
        idx = idx + 1;
    }

    if struck_any {
        player.timer.reset();
    }
    proof {
        let vs = crate::enemy::views_of(orig);
        if struck_any {
            let i = choose|i: int| 0 <= i < orig.len() && in_attack_range(ppos, orig[i]@.position);
            assert(0 <= i < vs.len() && in_attack_range(ppos, vs[i].position));
        }
        if any_struck(vs, ppos, gate) {
            let i = choose|i: int| 0 <= i < vs.len() && in_attack_range(ppos, vs[i].position);
            assert(0 <= i < orig.len() && in_attack_range(ppos, orig[i]@.position));
        }
    }
}

/// Cooldown gating: from the instant a strike spends the cooldown
/// (elapsed wound back to zero), and for as long as the accumulated
/// simulated time of the following ticks stays below the cooldown
/// duration, the attack gate stays shut on every one of those ticks —
/// however often the attack key is pressed — and every agent is left
/// untouched by every one of those ticks.  So repeated attack-key
/// presses within one cooldown window produce at most one health
/// decrement per agent per cooldown period.
pub proof fn lemma_cooldown_gating(
    p: PlayerModel,
    dts: Seq<int>,
    k: int,
    pressed: bool,
    e: crate::enemy::EnemyModel,
    walls: Seq<Vec2>,
)
    requires
        p.wf(),
        p.timer.elapsed == 0,
        forall|i: int| 0 <= i < dts.len() ==> 0 <= #[trigger] dts[i],
        crate::timers::seq_sum(dts) < p.timer.duration,
        0 <= k < dts.len(),
    ensures
        !attack_gate(
            PlayerModel { timer: crate::timers::once_run(p.timer, dts.take(k)), ..p },
            pressed,
            dts[k],
        ),
        strike_step(
            e,
            p.position,
            p.direction,
            walls,
            attack_gate(
                PlayerModel { timer: crate::timers::once_run(p.timer, dts.take(k)), ..p },
                pressed,
                dts[k],
            ),
        ) == e,
{
    assert(forall|i: int| 0 <= i < dts.take(k).len() ==> 0 <= #[trigger] dts.take(k)[i]);
    crate::timers::lemma_once_run_elapsed(p.timer, dts.take(k));
    crate::timers::lemma_seq_sum_take_step(dts, k);
    crate::timers::lemma_seq_sum_take_le(dts, k + 1);
    crate::timers::lemma_seq_sum_nonneg(dts.take(k));
}

} // verus!
