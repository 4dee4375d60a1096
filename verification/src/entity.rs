//! The shared entity representation for the player ship, projectiles and
//! enemies: a square bounding box centered on a position, a travel speed, and
//! a one-shot collision mark. Positions and sizes are millipixels; speeds are
//! millipixels per second.

use vstd::prelude::*;

use crate::geom::{clip, clip_i128, travel, travel_i128};

verus! {

/// One simulated object. `size` is the side of its square bounding box and
/// `collided` is set at most once, the frame a terminating collision is found.
#[derive(Clone, Copy, PartialEq, Eq, Structural, Debug)]
pub struct Entity {
    pub x: i64,
    pub y: i64,
    pub size: i64,
    pub speed: i64,
    pub collided: bool,
}

impl Entity {
    /// Every entity is created with a positive box and a non-negative speed.
    pub open spec fn wf(self) -> bool {
        self.size > 0 && self.speed >= 0
    }

    /// The entity moved `dt` milliseconds down the screen (enemies fall).
    pub open spec fn moved_down(self, dt: int) -> Entity {
        Entity { y: clip(self.y + travel(self.speed as int, dt)) as i64, ..self }
    }

    /// The entity moved `dt` milliseconds up the screen (projectiles rise).
    pub open spec fn moved_up(self, dt: int) -> Entity {
        Entity { y: clip(self.y - travel(self.speed as int, dt)) as i64, ..self }
    }

    /// Advances a falling entity by `speed * dt / 1000` millipixels; its size
    /// and speed never change.
    pub fn advance_down(&mut self, dt_ms: u32)
        requires
            old(self).wf(),
        ensures
            *final(self) == old(self).moved_down(dt_ms as int),
            final(self).size == old(self).size,
            final(self).speed == old(self).speed,
            final(self).x == old(self).x,
            final(self).collided == old(self).collided,
            final(self).wf(),
    {
        let d = travel_i128(self.speed, dt_ms);
        self.y = clip_i128(self.y as i128 + d);
    }

    /// Advances a rising entity by `speed * dt / 1000` millipixels; its size
    /// and speed never change.
    pub fn advance_up(&mut self, dt_ms: u32)
        requires
            old(self).wf(),
        ensures
            *final(self) == old(self).moved_up(dt_ms as int),
            final(self).size == old(self).size,
            final(self).speed == old(self).speed,
            final(self).x == old(self).x,
            final(self).collided == old(self).collided,
            final(self).wf(),
    {
        let d = travel_i128(self.speed, dt_ms);
        self.y = clip_i128(self.y as i128 - d);
    }

    /// Strict interior overlap of the two square boxes: the open horizontal
    /// spans intersect and the open vertical spans intersect, so boxes that
    /// merely touch along an edge do not overlap.
    pub open spec fn overlaps(self, other: Entity) -> bool {
        &&& 2 * abs_diff(self.x as int, other.x as int) < self.size + other.size
        &&& 2 * abs_diff(self.y as int, other.y as int) < self.size + other.size
    }

    /// Decides `overlaps` exactly; the doubled distances avoid halving the
    /// sizes and every intermediate fits easily in `i128`.
    pub fn collides_with(&self, other: &Entity) -> (r: bool)
        ensures
            r == self.overlaps(*other),
    {
        let dx: i128 = self.x as i128 - other.x as i128;
        let adx: i128 = if dx < 0 { -dx } else { dx };
        let dy: i128 = self.y as i128 - other.y as i128;
        let ady: i128 = if dy < 0 { -dy } else { dy };
        let sum: i128 = self.size as i128 + other.size as i128;
        2 * adx < sum && 2 * ady < sum
    }
}

/// The distance between two coordinates.
pub open spec fn abs_diff(a: int, b: int) -> int {
    if a >= b {
        a - b
    } else {
        b - a
    }
}

/// Moves every enemy in the collection down by its own frame travel.
pub fn advance_enemies(enemies: &mut Vec<Entity>, dt_ms: u32)
    requires
        forall|k: int| 0 <= k < old(enemies)@.len() ==> (#[trigger] old(enemies)@[k]).wf(),
    ensures
        final(enemies)@.len() == old(enemies)@.len(),
        forall|k: int|
            0 <= k < old(enemies)@.len() ==> #[trigger] final(enemies)@[k] == old(
                enemies,
            )@[k].moved_down(dt_ms as int),
{
    let n = enemies.len();
    let mut i: usize = 0;
    while i < n
        invariant
            n == enemies@.len() == old(enemies)@.len(),
            i <= n,
            forall|k: int| 0 <= k < n ==> (#[trigger] old(enemies)@[k]).wf(),
            forall|k: int| i <= k < n ==> #[trigger] enemies@[k] == old(enemies)@[k],
            forall|k: int|
                0 <= k < i ==> #[trigger] enemies@[k] == old(enemies)@[k].moved_down(dt_ms as int),
        decreases n - i,
    {
        let mut e = enemies[i];
        e.advance_down(dt_ms);
        enemies.set(i, e);
        i += 1;
    }
}

/// Moves every projectile in the collection up by its own frame travel.
pub fn advance_projectiles(projectiles: &mut Vec<Entity>, dt_ms: u32)
    requires
        forall|k: int| 0 <= k < old(projectiles)@.len() ==> (#[trigger] old(projectiles)@[k]).wf(),
    ensures
        final(projectiles)@.len() == old(projectiles)@.len(),
        forall|k: int|
            0 <= k < old(projectiles)@.len() ==> #[trigger] final(projectiles)@[k] == old(
                projectiles,
            )@[k].moved_up(dt_ms as int),
{
    let n = projectiles.len();
    let mut i: usize = 0;
    while i < n
        invariant
            n == projectiles@.len() == old(projectiles)@.len(),
            i <= n,
            forall|k: int| 0 <= k < n ==> (#[trigger] old(projectiles)@[k]).wf(),
            forall|k: int| i <= k < n ==> #[trigger] projectiles@[k] == old(projectiles)@[k],
            forall|k: int|
                0 <= k < i ==> #[trigger] projectiles@[k] == old(projectiles)@[k].moved_up(
                    dt_ms as int,
                ),
        decreases n - i,
    {
        let mut e = projectiles[i];
        e.advance_up(dt_ms);
        projectiles.set(i, e);
        i += 1;
    }
}

} // verus!
