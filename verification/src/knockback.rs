//! The knockback resolver.
//!
//! A struck actor is pushed a fixed distance along the axis implied by
//! the attacker's facing direction.  Obstacles in the perpendicular band
//! the actor would travel through are filtered out, the nearest one on
//! the far side in the direction of travel is selected, and the push is
//! clamped so the actor stops a fixed margin short of it.  When no
//! obstacle qualifies, the full unclamped push is applied.

use vstd::prelude::*;
use crate::geom::{
    Vec2, Point, Dir, overlaps_at, overlaps_1d, square, resolvable, in_arena,
    TILE_SIZE, ENEMY_SIZE, COORD_LIMIT, POS_LIMIT,
};
use crate::player::shifted;

verus! {

/// Length of the unclamped knockback push, in units.
pub const KNOCKBACK_DISTANCE: i64 = 100;

/// Half-width of the perpendicular band of obstacles considered to be in
/// the actor's way.
pub const KNOCKBACK_BAND: i64 = 45;

/// Minimum center-to-center separation kept between the pushed actor and
/// the obstacle that stopped it.
pub const KNOCKBACK_MARGIN: i64 = 50;

/// Whether obstacle `w` lies in the perpendicular band around the struck
/// actor at `p`: for a north/south push its x-coordinate is within the
/// band half-width of the actor's, and symmetrically on y for east/west.
pub open spec fn in_band(w: Point, p: Point, dir: Dir) -> bool {
    match dir {
        Dir::North | Dir::South => -KNOCKBACK_BAND < w.x - p.x < KNOCKBACK_BAND,
        Dir::East | Dir::West => -KNOCKBACK_BAND < w.y - p.y < KNOCKBACK_BAND,
    }
}

/// Whether obstacle `w` lies on the far side of the actor in the
/// direction of travel.
pub open spec fn ahead(w: Point, p: Point, dir: Dir) -> bool {
    match dir {
        Dir::North => w.y > p.y,
        Dir::South => w.y < p.y,
        Dir::East => w.x > p.x,
        Dir::West => w.x < p.x,
    }
}

/// An obstacle limits the push when it is both in the band and ahead.
pub open spec fn blocks(w: Point, p: Point, dir: Dir) -> bool {
    in_band(w, p, dir) && ahead(w, p, dir)
}

/// The obstacle's coordinate along the travel axis.
pub open spec fn axis_coord(w: Point, dir: Dir) -> int {
    match dir {
        Dir::North | Dir::South => w.y,
        Dir::East | Dir::West => w.x,
    }
}

/// Whether travel-axis coordinate `a` is at least as near to the actor as
/// `b`, looking in the direction of travel.
pub open spec fn nearer(a: int, b: int, dir: Dir) -> bool {
    match dir {
        Dir::North | Dir::East => a <= b,
        Dir::South | Dir::West => a >= b,
    }
}

/// The travel-axis coordinate of the nearest obstacle that blocks a push
/// from `p` in direction `dir`, if any blocks it at all.
pub open spec fn nearest_block(walls: Seq<Vec2>, p: Point, dir: Dir) -> Option<int>
    decreases walls.len(),
{
    if walls.len() == 0 {
        None
    } else {
        let rest = nearest_block(walls.drop_last(), p, dir);
        let w = walls.last()@;
        if blocks(w, p, dir) {
            let c = axis_coord(w, dir);
            match rest {
                None => Some(c),
                Some(m) => if nearer(c, m, dir) {
                    Some(c)
                } else {
                    Some(m)
                },
            }
        } else {
            rest
        }
    }
}

/// What `nearest_block` returns: `None` exactly when no obstacle blocks,
/// and otherwise the coordinate of a blocking obstacle that is at least
/// as near as every blocking obstacle.
pub proof fn lemma_nearest_block(walls: Seq<Vec2>, p: Point, dir: Dir)
    ensures
        nearest_block(walls, p, dir) is None ==> forall|i: int|
            0 <= i < walls.len() ==> !blocks(#[trigger] walls[i]@, p, dir),
        nearest_block(walls, p, dir) matches Some(m) ==> {
            &&& exists|i: int|
                0 <= i < walls.len() && blocks(#[trigger] walls[i]@, p, dir) && axis_coord(
                    walls[i]@,
                    dir,
                ) == m
            &&& forall|i: int|
                0 <= i < walls.len() && blocks(#[trigger] walls[i]@, p, dir) ==> nearer(
                    m,
                    axis_coord(walls[i]@, dir),
                    dir,
                )
        },
    decreases walls.len(),
{
    if walls.len() > 0 {
        lemma_nearest_block(walls.drop_last(), p, dir);
        assert(walls.last() == walls[walls.len() - 1]);
        assert(forall|i: int| 0 <= i < walls.len() - 1 ==> walls.drop_last()[i] == walls[i]);
        match nearest_block(walls, p, dir) {
            None => {},
            Some(m) => if blocks(walls.last()@, p, dir) {
                match nearest_block(walls.drop_last(), p, dir) {
                    Some(m0) => {
                        if nearer(axis_coord(walls.last()@, dir), m0, dir) {
                            assert(axis_coord(walls[walls.len() - 1]@, dir) == m);
                        } else {
                            let j = choose|j: int|
                                0 <= j < walls.drop_last().len() && blocks(
                                    #[trigger] walls.drop_last()[j]@,
                                    p,
                                    dir,
                                ) && axis_coord(walls.drop_last()[j]@, dir) == m0;
                            assert(blocks(walls[j]@, p, dir) && axis_coord(walls[j]@, dir) == m);
                        }
                    },
                    None => {
                        assert(axis_coord(walls[walls.len() - 1]@, dir) == m);
                    },
                }
            } else {
                let j = choose|j: int|
                    0 <= j < walls.drop_last().len() && blocks(
                        #[trigger] walls.drop_last()[j]@,
                        p,
                        dir,
                    ) && axis_coord(walls.drop_last()[j]@, dir) == m;
                assert(blocks(walls[j]@, p, dir) && axis_coord(walls[j]@, dir) == m);
            },
        }
    }
}

/// The unclamped push target: the actor's position displaced by the full
/// knockback distance along the facing axis.
pub open spec fn full_target(p: Point, dir: Dir) -> Point {
    match dir {
        Dir::North => shifted(p, 0, KNOCKBACK_DISTANCE as int),
        Dir::South => shifted(p, 0, -KNOCKBACK_DISTANCE as int),
        Dir::East => shifted(p, KNOCKBACK_DISTANCE as int, 0),
        Dir::West => shifted(p, -KNOCKBACK_DISTANCE as int, 0),
    }
}

/// Where a knockback from `p` in direction `dir` puts the struck actor:
/// the full push, unless the nearest blocking obstacle would be passed or
/// approached closer than the margin, in which case the actor stops
/// exactly the margin short of that obstacle.  With no blocking obstacle
/// the full push applies.
pub open spec fn knock_target(p: Point, walls: Seq<Vec2>, dir: Dir) -> Point {
    match nearest_block(walls, p, dir) {
        None => full_target(p, dir),
        Some(m) => match dir {
            Dir::North => if p.y + KNOCKBACK_DISTANCE + KNOCKBACK_MARGIN > m {
                Point { x: p.x, y: m - KNOCKBACK_MARGIN }
            } else {
                full_target(p, dir)
            },
            Dir::South => if p.y - KNOCKBACK_DISTANCE - KNOCKBACK_MARGIN < m {
                Point { x: p.x, y: m + KNOCKBACK_MARGIN }
            } else {
                full_target(p, dir)
            },
            Dir::East => if p.x + KNOCKBACK_DISTANCE + KNOCKBACK_MARGIN > m {
                Point { x: m - KNOCKBACK_MARGIN, y: p.y }
            } else {
                full_target(p, dir)
            },
            Dir::West => if p.x - KNOCKBACK_DISTANCE - KNOCKBACK_MARGIN < m {
                Point { x: m + KNOCKBACK_MARGIN, y: p.y }
            } else {
                full_target(p, dir)
            },
        },
    }
}

/// The view of a concrete nearest-coordinate accumulator.
spec fn opt_coord_view(o: Option<i64>) -> Option<int> {
    match o {
        None => None,
        Some(c) => Some(c as int),
    }
}

/// Whether `w` blocks a push from `p` in direction `dir`: in the
/// perpendicular band and on the far side in the direction of travel.
fn wall_blocks(w: Vec2, p: Vec2, dir: Dir) -> (b: bool)
    requires
        in_arena(w@),
        resolvable(p@),
    ensures
        b == blocks(w@, p@, dir),
{
    match dir {
        Dir::North => p.x - KNOCKBACK_BAND < w.x && w.x < p.x + KNOCKBACK_BAND && w.y > p.y,
        Dir::South => p.x - KNOCKBACK_BAND < w.x && w.x < p.x + KNOCKBACK_BAND && w.y < p.y,
        Dir::East => p.y - KNOCKBACK_BAND < w.y && w.y < p.y + KNOCKBACK_BAND && w.x > p.x,
        Dir::West => p.y - KNOCKBACK_BAND < w.y && w.y < p.y + KNOCKBACK_BAND && w.x < p.x,
    }
}

/// The knockback displacement for a struck actor at `enemy_position`,
/// given the obstacle set and the attacker's facing direction.  Applied
/// to the actor's position it yields exactly the clamped push target.
pub fn knock_back_measurement(
    enemy_position: Vec2,
    walls: &Vec<Vec2>,
    player_direction: Dir,
) -> (d: Vec2)
    requires
        resolvable(enemy_position@),
        forall|i: int| 0 <= i < walls@.len() ==> in_arena(#[trigger] walls@[i]@),
    ensures
        shifted(enemy_position@, d@.x, d@.y) == knock_target(
            enemy_position@,
            walls@,
            player_direction,
        ),
{
    let ghost p: Point = enemy_position@;
    let mut nearest: Option<i64> = None;
    let mut idx: usize = 0;
    while idx < walls.len()
        invariant
            0 <= idx <= walls.len(),
            resolvable(p),
            p == enemy_position@,
            forall|i: int| 0 <= i < walls@.len() ==> in_arena(#[trigger] walls@[i]@),
            opt_coord_view(nearest) == nearest_block(
                walls@.subrange(0, idx as int),
                p,
                player_direction,
            ),
            match nearest {
                None => true,
                Some(c) => -COORD_LIMIT <= c <= COORD_LIMIT,
            },
        decreases walls.len() - idx,
    {
        proof {
            assert(walls@.subrange(0, idx as int + 1).drop_last() =~= walls@.subrange(
                0,
                idx as int,
            ));
            assert(walls@.subrange(0, idx as int + 1).last() == walls@[idx as int]);
        }
        let w = walls[idx];
        if wall_blocks(w, enemy_position, player_direction) {
            let c: i64 = match player_direction {
                Dir::North | Dir::South => w.y,
                Dir::East | Dir::West => w.x,
            };
            nearest = match nearest {
                None => Some(c),
                Some(m) => match player_direction {
                    Dir::North | Dir::East => if c <= m {
                        Some(c)
                    } else {
                        Some(m)
                    },
                    Dir::South | Dir::West => if c >= m {
                        Some(c)
                    } else {
                        Some(m)
                    },
                },
            };
        }
        idx = idx + 1;
    }
    proof {
        assert(walls@.subrange(0, walls@.len() as int) =~= walls@);
    }

    match nearest {
        None => match player_direction {
            Dir::North => Vec2 { x: 0, y: KNOCKBACK_DISTANCE },
            Dir::South => Vec2 { x: 0, y: -KNOCKBACK_DISTANCE },
            Dir::East => Vec2 { x: KNOCKBACK_DISTANCE, y: 0 },
            Dir::West => Vec2 { x: -KNOCKBACK_DISTANCE, y: 0 },
        },
        Some(m) => match player_direction {
            Dir::North => if enemy_position.y + KNOCKBACK_DISTANCE + KNOCKBACK_MARGIN > m {
                Vec2 { x: 0, y: m - enemy_position.y - KNOCKBACK_MARGIN }
            } else {
                Vec2 { x: 0, y: KNOCKBACK_DISTANCE }
            },
            Dir::South => if enemy_position.y - KNOCKBACK_DISTANCE - KNOCKBACK_MARGIN < m {
                Vec2 { x: 0, y: m - enemy_position.y + KNOCKBACK_MARGIN }
            } else {
                Vec2 { x: 0, y: -KNOCKBACK_DISTANCE }
            },
            Dir::East => if enemy_position.x + KNOCKBACK_DISTANCE + KNOCKBACK_MARGIN > m {
                Vec2 { x: m - enemy_position.x - KNOCKBACK_MARGIN, y: 0 }
            } else {
                Vec2 { x: KNOCKBACK_DISTANCE, y: 0 }
            },
            Dir::West => if enemy_position.x - KNOCKBACK_DISTANCE - KNOCKBACK_MARGIN < m {
                Vec2 { x: m - enemy_position.x + KNOCKBACK_MARGIN, y: 0 }
            } else {
                Vec2 { x: -KNOCKBACK_DISTANCE, y: 0 }
            },
        },
    }
}

/// Whether obstacle `w` overlaps the corridor of the push on the
/// perpendicular axis: its box and the actor's box meet on the axis at
/// right angles to the travel direction.
pub open spec fn perp_overlaps(w: Point, p: Point, dir: Dir) -> bool {
    match dir {
        Dir::North | Dir::South => overlaps_1d(p.x, ENEMY_SIZE as int, w.x, TILE_SIZE as int),
        Dir::East | Dir::West => overlaps_1d(p.y, ENEMY_SIZE as int, w.y, TILE_SIZE as int),
    }
}

/// Whether the push target `t` keeps at least the clamp margin, along the
/// travel axis, to the nearest blocking obstacle coordinate `m`.
pub open spec fn margin_kept(t: Point, m: int, dir: Dir) -> bool {
    match dir {
        Dir::North => m - t.y >= KNOCKBACK_MARGIN,
        Dir::South => t.y - m >= KNOCKBACK_MARGIN,
        Dir::East => m - t.x >= KNOCKBACK_MARGIN,
        Dir::West => t.x - m >= KNOCKBACK_MARGIN,
    }
}

/// The knockback clamp invariant: for every attacker direction and
/// obstacle layout in which (a) the struck actor's box starts clear of
/// every obstacle and (b) every obstacle that meets the push corridor on
/// the perpendicular axis lies inside the perpendicular band, the actor's
/// box after the knockback overlaps no obstacle, and sits at least the
/// clamp margin short of the nearest blocking obstacle along the travel
/// axis.
///
/// Condition (b) is needed because the band is slightly narrower than the
/// actor's own box: an obstacle offset sideways by at least the band
/// half-width but less than the two half-sizes escapes the filter yet can
/// still be grazed by the push.
pub proof fn lemma_knockback_clear(p: Point, walls: Seq<Vec2>, dir: Dir)
    requires
        forall|i: int|
            0 <= i < walls.len() ==> !overlaps_at(
                p,
                square(ENEMY_SIZE as int),
                #[trigger] walls[i]@,
                square(TILE_SIZE as int),
            ),
        forall|i: int|
            0 <= i < walls.len() ==> (perp_overlaps(#[trigger] walls[i]@, p, dir) ==> in_band(
                walls[i]@,
                p,
                dir,
            )),
    ensures
        forall|i: int|
            0 <= i < walls.len() ==> !overlaps_at(
                knock_target(p, walls, dir),
                square(ENEMY_SIZE as int),
                #[trigger] walls[i]@,
                square(TILE_SIZE as int),
            ),
        nearest_block(walls, p, dir) matches Some(m) ==> margin_kept(
            knock_target(p, walls, dir),
            m,
            dir,
        ),
{
    lemma_nearest_block(walls, p, dir);
    let t = knock_target(p, walls, dir);
    match nearest_block(walls, p, dir) {
        None => {
            assert(match dir {
                Dir::North => t.x == p.x && t.y == p.y + 100,
                Dir::South => t.x == p.x && t.y == p.y - 100,
                Dir::East => t.y == p.y && t.x == p.x + 100,
                Dir::West => t.y == p.y && t.x == p.x - 100,
            });
            assert forall|i: int|
                0 <= i < walls.len() implies !overlaps_at(
                t,
                square(ENEMY_SIZE as int),
                #[trigger] walls[i]@,
                square(TILE_SIZE as int),
            ) by {
                let w = walls[i]@;
                assert(!blocks(w, p, dir));
                if perp_overlaps(w, p, dir) {
                    assert(in_band(w, p, dir));
                    assert(!ahead(w, p, dir));
                }
            }
        },
        Some(m) => {
            let j = choose|j: int|
                0 <= j < walls.len() && blocks(#[trigger] walls[j]@, p, dir) && axis_coord(
                    walls[j]@,
                    dir,
                ) == m;
            assert(!overlaps_at(p, square(ENEMY_SIZE as int), walls[j]@, square(TILE_SIZE as int)));
            assert(perp_overlaps(walls[j]@, p, dir));
            assert(match dir {
                Dir::North => m >= p.y + 50,
                Dir::South => m <= p.y - 50,
                Dir::East => m >= p.x + 50,
                Dir::West => m <= p.x - 50,
            });
            assert(match dir {
                Dir::North => t.x == p.x && p.y <= t.y <= m - 50,
                Dir::South => t.x == p.x && m + 50 <= t.y <= p.y,
                Dir::East => t.y == p.y && p.x <= t.x <= m - 50,
                Dir::West => t.y == p.y && m + 50 <= t.x <= p.x,
            });
            assert forall|i: int|
                0 <= i < walls.len() implies !overlaps_at(
                t,
                square(ENEMY_SIZE as int),
                #[trigger] walls[i]@,
                square(TILE_SIZE as int),
            ) by {
                let w = walls[i]@;
                assert(!overlaps_at(p, square(ENEMY_SIZE as int), w, square(TILE_SIZE as int)));
                if perp_overlaps(w, p, dir) {
                    assert(in_band(w, p, dir));
                    if ahead(w, p, dir) {
                        assert(blocks(w, p, dir));
                        assert(nearer(m, axis_coord(w, dir), dir));
                    }
                }
            }
        },
    }
}

/// A push that starts one knockback length inside the arena, against
/// obstacles at least the clamp margin inside it, ends inside the arena.
pub proof fn lemma_knock_target_in_arena(p: Point, walls: Seq<Vec2>, dir: Dir)
    requires
        -(COORD_LIMIT - KNOCKBACK_DISTANCE) <= p.x <= COORD_LIMIT - KNOCKBACK_DISTANCE,
        -(COORD_LIMIT - KNOCKBACK_DISTANCE) <= p.y <= COORD_LIMIT - KNOCKBACK_DISTANCE,
        forall|i: int|
            0 <= i < walls.len() ==> {
                &&& -(COORD_LIMIT - KNOCKBACK_MARGIN) <= (#[trigger] walls[i]@).x <= COORD_LIMIT
                    - KNOCKBACK_MARGIN
                &&& -(COORD_LIMIT - KNOCKBACK_MARGIN) <= walls[i]@.y <= COORD_LIMIT
                    - KNOCKBACK_MARGIN
            },
    ensures
        in_arena(knock_target(p, walls, dir)),
{
    lemma_nearest_block(walls, p, dir);
    match nearest_block(walls, p, dir) {
        None => {},
        Some(m) => {
            let j = choose|j: int|
                0 <= j < walls.len() && blocks(#[trigger] walls[j]@, p, dir) && axis_coord(
                    walls[j]@,
                    dir,
                ) == m;
            assert(-(COORD_LIMIT - KNOCKBACK_MARGIN) <= m <= COORD_LIMIT - KNOCKBACK_MARGIN);
        },
    }
}

/// Every coordinate of the push target stays within one knockback length
/// of the arena and resolver bounds.
pub proof fn lemma_knock_target_bounds(p: Point, walls: Seq<Vec2>, dir: Dir)
    requires
        resolvable(p),
        forall|i: int| 0 <= i < walls.len() ==> in_arena(#[trigger] walls[i]@),
    ensures
        -(POS_LIMIT + KNOCKBACK_DISTANCE) <= knock_target(p, walls, dir).x <= POS_LIMIT
            + KNOCKBACK_DISTANCE,
        -(POS_LIMIT + KNOCKBACK_DISTANCE) <= knock_target(p, walls, dir).y <= POS_LIMIT
            + KNOCKBACK_DISTANCE,
{
    lemma_nearest_block(walls, p, dir);
    match nearest_block(walls, p, dir) {
        None => {},
        Some(m) => {
            let j = choose|j: int|
                0 <= j < walls.len() && blocks(#[trigger] walls[j]@, p, dir) && axis_coord(
                    walls[j]@,
                    dir,
                ) == m;
            assert(-COORD_LIMIT <= m <= COORD_LIMIT);
        },
    }
}

/// Push the struck actor at `enemy_position` away along the attacker's
/// facing axis, clamped against the nearest blocking obstacle.
pub fn knock_back(player_direction: Dir, walls: &Vec<Vec2>, enemy_position: &mut Vec2)
    requires
        resolvable(old(enemy_position)@),
        forall|i: int| 0 <= i < walls@.len() ==> in_arena(#[trigger] walls@[i]@),
    ensures
        final(enemy_position)@ == knock_target(old(enemy_position)@, walls@, player_direction),
{
    proof {
        lemma_knock_target_bounds(enemy_position@, walls@, player_direction);
    }
    let d = knock_back_measurement(*enemy_position, walls, player_direction);
    *enemy_position = Vec2 { x: enemy_position.x + d.x, y: enemy_position.y + d.y };
}

} // verus!
