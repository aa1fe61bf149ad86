//! The obstacle index and goal regions of a level, parsed from a text
//! grid: one byte per tile, row by row, where `#` marks a wall tile and
//! `%` marks an exit tile; any other byte is open floor.  A tile at
//! column `x` of row `y` is centered at `(x, -y)` tile lengths from the
//! origin.

use vstd::prelude::*;
use crate::geom::{Vec2, Point, overlaps, overlaps_at, square, in_arena, TILE_SIZE};

verus! {

/// The byte that marks a wall tile in level data.
pub const WALL_MARK: u8 = 35;

/// The byte that marks an exit tile in level data.
pub const EXIT_MARK: u8 = 37;

/// Largest number of rows, and of tiles per row, a level grid may have.
pub const MAP_LIMIT: usize = 1_000_000;

/// The levels of the game.
#[derive(Clone, Copy, PartialEq, Eq, Structural, Debug)]
pub enum GameLevel {
    Level1,
    Level2,
    Level3,
}

/// The world-space center of the tile at column `x` of row `y`.
pub open spec fn tile_center(x: int, y: int) -> Point {
    Point { x: TILE_SIZE * x, y: -TILE_SIZE * y }
}

/// The views of a run of tile centers, index by index.
pub open spec fn points_of(v: Seq<Vec2>) -> Seq<Point> {
    Seq::new(v.len(), |i: int| v[i]@)
}

/// The centers of the tiles of row `y` whose byte is `mark`, in column
/// order.
pub open spec fn row_points(line: Seq<u8>, y: int, mark: u8) -> Seq<Point>
    decreases line.len(),
{
    if line.len() == 0 {
        Seq::empty()
    } else {
        row_points(line.drop_last(), y, mark) + if line.last() == mark {
            seq![tile_center(line.len() - 1, y)]
        } else {
            Seq::empty()
        }
    }
}

/// The centers of all tiles of the grid whose byte is `mark`, row by row.
pub open spec fn grid_points(lines: Seq<Vec<u8>>, mark: u8) -> Seq<Point>
    decreases lines.len(),
{
    if lines.len() == 0 {
        Seq::empty()
    } else {
        grid_points(lines.drop_last(), mark) + row_points(
            lines.last()@,
            lines.len() - 1,
            mark,
        )
    }
}

/// Extending a row prefix by one tile appends that tile's center when its
/// byte is the mark, and nothing otherwise.
proof fn lemma_row_points_step(line: Seq<u8>, x: int, y: int, mark: u8)
    requires
        0 <= x < line.len(),
    ensures
        row_points(line.subrange(0, x + 1), y, mark) == row_points(line.subrange(0, x), y, mark)
            + (if line[x] == mark {
            seq![tile_center(x, y)]
        } else {
            Seq::<Point>::empty()
        }),
{
    assert(line.subrange(0, x + 1).drop_last() =~= line.subrange(0, x));
    assert(line.subrange(0, x + 1).last() == line[x]);
}

/// Extending a grid prefix by one row appends that row's marked centers.
proof fn lemma_grid_points_step(lines: Seq<Vec<u8>>, y: int, mark: u8)
    requires
        0 <= y < lines.len(),
    ensures
        grid_points(lines.subrange(0, y + 1), mark) == grid_points(lines.subrange(0, y), mark)
            + row_points(lines[y]@, y, mark),
{
    assert(lines.subrange(0, y + 1).drop_last() =~= lines.subrange(0, y));
    assert(lines.subrange(0, y + 1).last() == lines[y]);
}

/// The static geometry of one level: wall tile centers and exit tile
/// centers, immutable for the lifetime of the level.
pub struct Level {
    pub walls: Vec<Vec2>,
    pub goals: Vec<Vec2>,
}

/// Parse a level grid into its obstacle index and goal regions: the walls
/// are exactly the `#` tiles and the goals exactly the `%` tiles, row by
/// row and column by column; every other byte is open floor.
pub fn spawn_map(lines: &Vec<Vec<u8>>) -> (level: Level)
    requires
        lines@.len() <= MAP_LIMIT,
        forall|i: int| 0 <= i < lines@.len() ==> (#[trigger] lines@[i])@.len() <= MAP_LIMIT,
    ensures
        points_of(level.walls@) == grid_points(lines@, WALL_MARK),
        points_of(level.goals@) == grid_points(lines@, EXIT_MARK),
        forall|i: int| 0 <= i < level.walls@.len() ==> in_arena(#[trigger] level.walls@[i]@),
        forall|i: int| 0 <= i < level.goals@.len() ==> in_arena(#[trigger] level.goals@[i]@),
{
    let mut walls: Vec<Vec2> = Vec::new();
    let mut goals: Vec<Vec2> = Vec::new();
    let mut y: usize = 0;
    while y < lines.len()
        invariant
            0 <= y <= lines@.len(),
            lines@.len() <= MAP_LIMIT,
            forall|i: int| 0 <= i < lines@.len() ==> (#[trigger] lines@[i])@.len() <= MAP_LIMIT,
            points_of(walls@) == grid_points(lines@.subrange(0, y as int), WALL_MARK),
            points_of(goals@) == grid_points(lines@.subrange(0, y as int), EXIT_MARK),
            forall|i: int| 0 <= i < walls@.len() ==> in_arena(#[trigger] walls@[i]@),
            forall|i: int| 0 <= i < goals@.len() ==> in_arena(#[trigger] goals@[i]@),
        decreases lines@.len() - y,
    {
        let line = &lines[y];
        let mut x: usize = 0;
        while x < line.len()
            invariant
                0 <= x <= line@.len(),
                0 <= y < lines@.len(),
                lines@.len() <= MAP_LIMIT,
                line@ == lines@[y as int]@,
                line@.len() <= MAP_LIMIT,
                points_of(walls@) == grid_points(lines@.subrange(0, y as int), WALL_MARK)
                    + row_points(line@.subrange(0, x as int), y as int, WALL_MARK),
                points_of(goals@) == grid_points(lines@.subrange(0, y as int), EXIT_MARK)
                    + row_points(line@.subrange(0, x as int), y as int, EXIT_MARK),
                forall|i: int| 0 <= i < walls@.len() ==> in_arena(#[trigger] walls@[i]@),
                forall|i: int| 0 <= i < goals@.len() ==> in_arena(#[trigger] goals@[i]@),
            decreases line@.len() - x,
        {
            proof {
                lemma_row_points_step(line@, x as int, y as int, WALL_MARK);
                lemma_row_points_step(line@, x as int, y as int, EXIT_MARK);
            }
            let b = line[x];
            let ghost walls_pre: Seq<Vec2> = walls@;
            let ghost goals_pre: Seq<Vec2> = goals@;
            if b == WALL_MARK {
                let w = Vec2 { x: (x as i64) * TILE_SIZE, y: -(y as i64) * TILE_SIZE };
                proof {
                    assert(w@ == tile_center(x as int, y as int));
                }
                walls.push(w);
                proof {
                    assert(points_of(walls@) =~= points_of(walls_pre).push(w@));
                    assert(points_of(walls_pre).push(w@) =~= grid_points(
                        lines@.subrange(0, y as int),
                        WALL_MARK,
                    ) + row_points(line@.subrange(0, x as int + 1), y as int, WALL_MARK));
                    assert(points_of(goals@) =~= grid_points(
                        lines@.subrange(0, y as int),
                        EXIT_MARK,
                    ) + row_points(line@.subrange(0, x as int + 1), y as int, EXIT_MARK));
                }
            } else if b == EXIT_MARK {
                let g = Vec2 { x: (x as i64) * TILE_SIZE, y: -(y as i64) * TILE_SIZE };
                proof {
                    assert(g@ == tile_center(x as int, y as int));
                }
                goals.push(g);
                proof {
                    assert(points_of(goals@) =~= points_of(goals_pre).push(g@));
                    assert(points_of(goals_pre).push(g@) =~= grid_points(
                        lines@.subrange(0, y as int),
                        EXIT_MARK,
                    ) + row_points(line@.subrange(0, x as int + 1), y as int, EXIT_MARK));
                    assert(points_of(walls@) =~= grid_points(
                        lines@.subrange(0, y as int),
                        WALL_MARK,
                    ) + row_points(line@.subrange(0, x as int + 1), y as int, WALL_MARK));
                }
            } else {
                proof {
                    assert(points_of(walls@) =~= grid_points(
                        lines@.subrange(0, y as int),
                        WALL_MARK,
                    ) + row_points(line@.subrange(0, x as int + 1), y as int, WALL_MARK));
                    assert(points_of(goals@) =~= grid_points(
                        lines@.subrange(0, y as int),
                        EXIT_MARK,
                    ) + row_points(line@.subrange(0, x as int + 1), y as int, EXIT_MARK));
                }
            }
            x = x + 1;
        }
        proof {
            lemma_grid_points_step(lines@, y as int, WALL_MARK);
            lemma_grid_points_step(lines@, y as int, EXIT_MARK);
            assert(line@.subrange(0, x as int) =~= lines@[y as int]@);
            assert(points_of(walls@) =~= grid_points(
                lines@.subrange(0, y as int + 1),
                WALL_MARK,
            ));
            assert(points_of(goals@) =~= grid_points(
                lines@.subrange(0, y as int + 1),
                EXIT_MARK,
            ));
        }
        y = y + 1;
    }
    proof {
        assert(lines@.subrange(0, lines@.len() as int) =~= lines@);
    }
    Level { walls, goals }
}

/// Whether the player's box overlaps the exit tile's box; both use the
/// full tile size.
pub fn player_reached_exit_tile(player_position: Vec2, exit_tile_position: Vec2) -> (reached: bool)
    ensures
        reached == overlaps_at(
            player_position@,
            square(TILE_SIZE as int),
            exit_tile_position@,
            square(TILE_SIZE as int),
        ),
{
    overlaps(
        player_position,
        Vec2::splat(TILE_SIZE),
        exit_tile_position,
        Vec2::splat(TILE_SIZE),
    )
}

/// Whether the player stands on some goal region of the level.
pub open spec fn reaches_goal(player_pos: Point, goals: Seq<Vec2>) -> bool {
    exists|i: int|
        0 <= i < goals.len() && overlaps_at(
            player_pos,
            square(TILE_SIZE as int),
            #[trigger] goals[i]@,
            square(TILE_SIZE as int),
        )
}

/// The goal-region check: a level-transition request is raised exactly
/// when the player's box overlaps some exit tile.
pub fn exit_level(player_position: Vec2, goals: &Vec<Vec2>) -> (transition: bool)
    ensures
        transition == reaches_goal(player_position@, goals@),
{
    let mut idx: usize = 0;
    while idx < goals.len()
        invariant
            0 <= idx <= goals.len(),
            forall|i: int|
                0 <= i < idx ==> !overlaps_at(
                    player_position@,
                    square(TILE_SIZE as int),
                    #[trigger] goals@[i]@,
                    square(TILE_SIZE as int),
                ),
        decreases goals.len() - idx,
    {
        if player_reached_exit_tile(player_position, goals[idx]) {
            return true;
        }
        idx = idx + 1;
    }
    false
}

} // verus!
