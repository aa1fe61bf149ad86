//! Collision primitives: integer 2D vectors, cardinal directions, and the
//! strict axis-aligned box overlap test that every other component uses.

use vstd::prelude::*;

verus! {

/// Side length of a static obstacle tile.
pub const TILE_SIZE: i64 = 50;

/// Largest coordinate magnitude a position or obstacle may have when a
/// tick begins.  Keeps every intermediate sum well inside `i64`.
pub const COORD_LIMIT: i64 = 1_000_000_000_000;

/// Largest coordinate magnitude the per-axis resolvers accept; positions
/// grow by at most one step per tick, so this leaves ample room.
pub const POS_LIMIT: i64 = 2_000_000_000_000;

/// Largest single-axis displacement a tick may request.
pub const STEP_LIMIT: i64 = 1_000_000_000;

/// Largest movement speed, in units per second.
pub const SPEED_LIMIT: i64 = 1_000_000;

/// Whether a coordinate is within the tick-entry bound.
pub open spec fn coord_in_arena(c: int) -> bool {
    -COORD_LIMIT <= c <= COORD_LIMIT
}

/// Whether a point is within the tick-entry bound on both axes.
pub open spec fn in_arena(p: Point) -> bool {
    coord_in_arena(p.x) && coord_in_arena(p.y)
}

/// Whether a coordinate is within the wider bound the resolvers accept.
pub open spec fn coord_resolvable(c: int) -> bool {
    -POS_LIMIT <= c <= POS_LIMIT
}

/// Whether a point is within the wider bound the resolvers accept.
pub open spec fn resolvable(p: Point) -> bool {
    coord_resolvable(p.x) && coord_resolvable(p.y)
}

/// Side length of the player's (and an agent's) sprite box.
pub const PLAYER_SIZE: i64 = 50;

/// Side length of an agent's sprite box.
pub const ENEMY_SIZE: i64 = 50;

/// Side length of the slightly shrunken box used when validating a move
/// against the obstacle tiles (nine tenths of the sprite box).
pub const BODY_SIZE: i64 = 45;

/// A position or displacement on the plane, in world units.
#[derive(Clone, Copy, PartialEq, Eq, Structural, Debug)]
pub struct Vec2 {
    pub x: i64,
    pub y: i64,
}

/// The mathematical model of a `Vec2`: a point with unbounded coordinates.
pub struct Point {
    pub x: int,
    pub y: int,
}

impl View for Vec2 {
    type V = Point;

    open spec fn view(&self) -> Point {
        Point { x: self.x as int, y: self.y as int }
    }
}

impl Vec2 {
    /// The vector with both coordinates equal to `v`.
    pub fn splat(v: i64) -> (r: Vec2)
        ensures
            r.x == v,
            r.y == v,
    {
        Vec2 { x: v, y: v }
    }
}

/// A square box size of side `s`, as a model point.
pub open spec fn square(s: int) -> Point {
    Point { x: s, y: s }
}

/// One axis of the strict overlap test: two intervals centered at `ca` and
/// `cb` with full widths `sa` and `sb` overlap strictly.  Written without a
/// division so that odd widths lose nothing.
pub open spec fn overlaps_1d(ca: int, sa: int, cb: int, sb: int) -> bool {
    -(sa + sb) < 2 * (ca - cb) < sa + sb
}

/// Two axis-aligned boxes, given by center and full width/height, overlap
/// iff they overlap strictly on both axes.  Zero-width contact is not an
/// overlap.
pub open spec fn overlaps_at(a: Point, sa: Point, b: Point, sb: Point) -> bool {
    overlaps_1d(a.x, sa.x, b.x, sb.x) && overlaps_1d(a.y, sa.y, b.y, sb.y)
}

/// Strict overlap test of two axis-aligned boxes given by center and full
/// width/height.  Total over all inputs: the comparison is carried out in a
/// wider integer type, so no bound on the arguments is needed.
pub fn overlaps(a: Vec2, sa: Vec2, b: Vec2, sb: Vec2) -> (r: bool)
    ensures
        r == overlaps_at(a@, sa@, b@, sb@),
{
    let dx: i128 = 2 * (a.x as i128 - b.x as i128);
    let wx: i128 = sa.x as i128 + sb.x as i128;
    let dy: i128 = 2 * (a.y as i128 - b.y as i128);
    let wy: i128 = sa.y as i128 + sb.y as i128;
    -wx < dx && dx < wx && -wy < dy && dy < wy
}

/// One of the four cardinal facing directions.
#[derive(Clone, Copy, PartialEq, Eq, Structural, Debug)]
pub enum Dir {
    North,
    East,
    South,
    West,
}

} // verus!
