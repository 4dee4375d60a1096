//! The per-frame enemy spawner. Once per simulated frame it draws a uniform
//! integer in `[0, 99]`; on a draw of 95 or more it creates one enemy with a
//! random size, speed and horizontal position, fully above the visible area.

use vstd::prelude::*;

use crate::entity::Entity;
use crate::rng::rand_range_i64;

verus! {

/// Smallest enemy box side, in millipixels (16 pixels).
pub const ENEMY_SIZE_MIN: i64 = 16_000;

/// Largest enemy box side, in millipixels (64 pixels).
pub const ENEMY_SIZE_MAX: i64 = 64_000;

/// Slowest enemy fall, in millipixels per second (50 pixels per second).
pub const ENEMY_SPEED_MIN: i64 = 50_000;

/// Fastest enemy fall, in millipixels per second (150 pixels per second).
pub const ENEMY_SPEED_MAX: i64 = 150_000;

/// What every freshly spawned enemy looks like: a random box side and fall
/// speed inside the fixed ranges, a horizontal position that keeps the box on
/// a screen of width `w` (when the screen is at least as wide as the box),
/// a vertical position fully above the visible area, and no collision mark.
pub open spec fn spawned_enemy(e: Entity, w: int) -> bool {
    &&& ENEMY_SIZE_MIN <= e.size <= ENEMY_SIZE_MAX
    &&& ENEMY_SPEED_MIN <= e.speed <= ENEMY_SPEED_MAX
    &&& e.y == -e.size
    &&& e.size / 2 <= e.x
    &&& e.x <= (if w - e.size / 2 >= e.size / 2 {
        w - e.size / 2
    } else {
        e.size / 2
    })
    &&& !e.collided
}

/// The spawn rule over the roll alone: a uniform draw from `[0, 99]` spawns
/// exactly when it is 95 or more, a chance of one in twenty per frame.
pub fn spawn_roll_hits(roll: i64) -> (r: bool)
    requires
        0 <= roll <= 99,
    ensures
        r == (roll >= 95),
{
    roll >= 95
}

/// The enemy the three value draws build, exactly: the drawn box side, fall
/// speed and horizontal position, a vertical position fully above the
/// visible area, and no collision mark.
pub fn enemy_from_draws(size: i64, speed: i64, x: i64, screen_w: i64) -> (e: Entity)
    requires
        ENEMY_SIZE_MIN <= size <= ENEMY_SIZE_MAX,
        ENEMY_SPEED_MIN <= speed <= ENEMY_SPEED_MAX,
        size / 2 <= x <= (if screen_w - size / 2 >= size / 2 {
            screen_w - size / 2
        } else {
            size / 2
        }),
    ensures
        e.x == x,
        e.y == -size,
        e.size == size,
        e.speed == speed,
        e.collided == false,
        spawned_enemy(e, screen_w as int),
        e.wf(),
{
    Entity { x, y: -size, size, speed, collided: false }
}

/// Draws the spawn roll and, on a hit, the three enemy values; the decision
/// and the construction live in `spawn_roll_hits` and `enemy_from_draws`,
/// both exact, so all that stays trusted here is that the real draws are the
/// ones fed in. Whether an enemy appears depends on the roll alone.
pub fn maybe_spawn(rng: &mut rand::rngs::StdRng, screen_w: i64) -> (r: Option<Entity>)
    requires
        screen_w >= 1,
    ensures
        r matches Some(e) ==> spawned_enemy(e, screen_w as int) && e.wf(),
{
    let roll = rand_range_i64(rng, 0, 99);
    if spawn_roll_hits(roll) {
        let size = rand_range_i64(rng, ENEMY_SIZE_MIN, ENEMY_SIZE_MAX);
        let speed = rand_range_i64(rng, ENEMY_SPEED_MIN, ENEMY_SPEED_MAX);
        let half = size / 2;
        let hi = if screen_w - half >= half {
            screen_w - half
        } else {
            half
        };
        let x = rand_range_i64(rng, half, hi);
        Some(enemy_from_draws(size, speed, x, screen_w))
    } else {
        None
    }
}

} // verus!
