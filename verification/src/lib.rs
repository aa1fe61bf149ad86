//! Simulation core of a 2D tile-grid action game: axis-aligned collision
//! resolution for moving actors against static obstacles, a vision-based
//! chase behavior for hostile agents, a melee combat resolver with
//! cooldowns, and a directional knockback resolver that pushes a struck
//! actor away from its attacker while clamping the push against nearby
//! static obstacles.
//!
//! All geometry is integer-valued: positions are centers of axis-aligned
//! boxes, sizes are full side lengths, and two boxes collide only when
//! they overlap strictly on both axes.  Time advances in whole
//! milliseconds, handed to each tick by the caller.

pub mod enemy;
pub mod geom;
pub mod health;
pub mod knockback;
pub mod map;
pub mod pathfinding;
pub mod player;
pub mod timers;
pub mod world;
