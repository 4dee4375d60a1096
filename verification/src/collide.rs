//! The collision resolver: one pass per frame over every (enemy, projectile)
//! pair. An enemy that is not yet marked is matched with the first unmarked
//! projectile whose box overlaps its own; both are marked, the score grows by
//! the enemy's rounded pixel size, and the high score follows the score. The
//! pass is specified exactly by `resolve_from`, a fold over the enemies in
//! order.

use vstd::prelude::*;

use crate::entity::Entity;
use crate::geom::{sat_add_u32, sat_add_u32_exec};

verus! {

/// Points awarded for destroying an enemy: its box side rounded to the
/// nearest whole pixel.
pub open spec fn score_value(size: int) -> int {
    (size + 500) / 1000
}

/// A projectile strikes an enemy when neither is marked yet and their boxes
/// overlap.
pub open spec fn hit(p: Entity, e: Entity) -> bool {
    !p.collided && !e.collided && p.overlaps(e)
}

/// The entity with its one-shot collision flag set.
pub open spec fn mark(e: Entity) -> Entity {
    Entity { collided: true, ..e }
}

/// The index of the first projectile at or after `j` that strikes `e`.
pub open spec fn first_hit(ps: Seq<Entity>, e: Entity, j: int) -> Option<int>
    decreases ps.len() - j,
{
    if j < 0 || j >= ps.len() {
        None
    } else if hit(ps[j], e) {
        Some(j)
    } else {
        first_hit(ps, e, j + 1)
    }
}

/// Where an explosion is to be shown: the struck enemy's position and size.
#[derive(Clone, Copy, PartialEq, Eq, Structural, Debug)]
pub struct Explosion {
    pub x: i64,
    pub y: i64,
    pub size: i64,
}

/// Everything one resolver pass reads and writes, as mathematical values.
#[verifier::ext_equal]
pub struct ResolveState {
    pub projectiles: Seq<Entity>,
    pub enemies: Seq<Entity>,
    pub score: int,
    pub high_score: int,
    pub explosions: Seq<Explosion>,
}

/// The resolver pass from enemy `i` on: each unmarked enemy in order is
/// matched with the first unmarked overlapping projectile; on a match both
/// are marked, the score grows by `score_value` of the enemy's size
/// (saturating), the high score becomes the larger of itself and the new
/// score, and one explosion is recorded at the enemy.
pub open spec fn resolve_from(s: ResolveState, i: int) -> ResolveState
    decreases s.enemies.len() - i,
{
    if i < 0 || i >= s.enemies.len() {
        s
    } else {
        let e = s.enemies[i];
        let next = if e.collided {
            s
        } else {
            match first_hit(s.projectiles, e, 0) {
                None => s,
                Some(j) => {
                    let sc = sat_add_u32(s.score, score_value(e.size as int));
                    ResolveState {
                        projectiles: s.projectiles.update(j, mark(s.projectiles[j])),
                        enemies: s.enemies.update(i, mark(e)),
                        score: sc,
                        high_score: if sc > s.high_score {
                            sc
                        } else {
                            s.high_score
                        },
                        explosions: s.explosions.push(
                            Explosion { x: e.x, y: e.y, size: e.size },
                        ),
                    }
                },
            }
        };
        resolve_from(next, i + 1)
    }
}

/// A found first hit really is a hit, and lies in range.
proof fn lemma_first_hit_some(ps: Seq<Entity>, e: Entity, j0: int, j: int)
    requires
        first_hit(ps, e, j0) == Some(j),
    ensures
        j0 <= j < ps.len(),
        hit(ps[j], e),
        !ps[j].collided,
        !e.collided,
    decreases ps.len() - j0,
{
    if j0 < 0 || j0 >= ps.len() {
    } else if hit(ps[j0], e) {
    } else {
        lemma_first_hit_some(ps, e, j0 + 1, j);
    }
}

/// Law: in one resolver pass no projectile and no enemy is awarded more than
/// once, and a collision flag, once set, is never cleared. An entity that is
/// already marked when the pass starts is left exactly as it is; every other
/// entity either keeps all its fields or only gains the mark; the score never
/// drops, the high score never drops, and the high score stays at or above
/// the score.
pub proof fn lemma_resolve_marks_once(s: ResolveState, i: int)
    requires
        forall|k: int| 0 <= k < s.enemies.len() ==> (#[trigger] s.enemies[k]).wf(),
        0 <= s.score <= u32::MAX,
        0 <= s.high_score <= u32::MAX,
    ensures
        ({
            let end = resolve_from(s, i);
            &&& end.enemies.len() == s.enemies.len()
            &&& end.projectiles.len() == s.projectiles.len()
            &&& forall|k: int|
                0 <= k < s.enemies.len() ==> (#[trigger] end.enemies[k]) == s.enemies[k]
                    || end.enemies[k] == mark(s.enemies[k])
            &&& forall|k: int|
                0 <= k < s.projectiles.len() ==> (#[trigger] end.projectiles[k])
                    == s.projectiles[k] || end.projectiles[k] == mark(s.projectiles[k])
            &&& forall|k: int|
                0 <= k < s.enemies.len() && s.enemies[k].collided ==> (#[trigger] end.enemies[k])
                    == s.enemies[k]
            &&& forall|k: int|
                0 <= k < s.projectiles.len() && s.projectiles[k].collided ==> (
                #[trigger] end.projectiles[k]) == s.projectiles[k]
            &&& end.score >= s.score
            &&& end.high_score >= s.high_score
            &&& (s.high_score >= s.score ==> end.high_score >= end.score)
            &&& end.score <= u32::MAX
            &&& end.high_score <= u32::MAX
        }),
    decreases s.enemies.len() - i,
{
    if i < 0 || i >= s.enemies.len() {
    } else {
        let e = s.enemies[i];
        if e.collided {
            lemma_resolve_marks_once(s, i + 1);
        } else {
            match first_hit(s.projectiles, e, 0) {
                None => {
                    lemma_resolve_marks_once(s, i + 1);
                },
                Some(j) => {
                    lemma_first_hit_some(s.projectiles, e, 0, j);
                    let sc = sat_add_u32(s.score, score_value(e.size as int));
                    let next = ResolveState {
                        projectiles: s.projectiles.update(j, mark(s.projectiles[j])),
                        enemies: s.enemies.update(i, mark(e)),
                        score: sc,
                        high_score: if sc > s.high_score {
                            sc
                        } else {
                            s.high_score
                        },
                        explosions: s.explosions.push(
                            Explosion { x: e.x, y: e.y, size: e.size },
                        ),
                    };
                    assert(forall|k: int|
                        0 <= k < next.enemies.len() ==> (#[trigger] next.enemies[k]).wf());
                    lemma_resolve_marks_once(next, i + 1);
                },
            }
        }
    }
}

/// Finds the first projectile that strikes `e`, scanning from the front.
fn find_first_hit(projectiles: &Vec<Entity>, e: &Entity) -> (r: Option<usize>)
    ensures
        match r {
            Some(j) => j < projectiles@.len() && first_hit(projectiles@, *e, 0) == Some(j as int),
            None => first_hit(projectiles@, *e, 0) is None,
        },
{
    let n = projectiles.len();
    let mut j: usize = 0;
    while j < n
        invariant
            j <= n == projectiles@.len(),
            first_hit(projectiles@, *e, 0) == first_hit(projectiles@, *e, j as int),
        decreases n - j,
    {
        let p = &projectiles[j];
        if !p.collided && !e.collided && p.collides_with(e) {
            return Some(j);
        }
        j += 1;
    }
    None
}

/// One full resolver pass, exactly as `resolve_from` states, starting from
/// the current score and high score and an empty list of explosions.
pub fn resolve_collisions(
    projectiles: &mut Vec<Entity>,
    enemies: &mut Vec<Entity>,
    score: &mut u32,
    high_score: &mut u32,
) -> (explosions: Vec<Explosion>)
    requires
        forall|k: int| 0 <= k < old(enemies)@.len() ==> (#[trigger] old(enemies)@[k]).wf(),
    ensures
        ({
            let end = resolve_from(
                ResolveState {
                    projectiles: old(projectiles)@,
                    enemies: old(enemies)@,
                    score: *old(score) as int,
                    high_score: *old(high_score) as int,
                    explosions: Seq::empty(),
                },
                0,
            );
            &&& final(projectiles)@ == end.projectiles
            &&& final(enemies)@ == end.enemies
            &&& *final(score) as int == end.score
            &&& *final(high_score) as int == end.high_score
            &&& explosions@ == end.explosions
        }),
{
    let ghost start = ResolveState {
        projectiles: projectiles@,
        enemies: enemies@,
        score: *score as int,
        high_score: *high_score as int,
        explosions: Seq::<Explosion>::empty(),
    };
    let ghost target = resolve_from(start, 0);
    let mut explosions: Vec<Explosion> = Vec::new();
    let n = enemies.len();
    let mut i: usize = 0;
    while i < n
        invariant
            i <= n == enemies@.len(),
            forall|k: int| 0 <= k < n ==> (#[trigger] enemies@[k]).wf(),
            resolve_from(
                ResolveState {
                    projectiles: projectiles@,
                    enemies: enemies@,
                    score: *score as int,
                    high_score: *high_score as int,
                    explosions: explosions@,
                },
                i as int,
            ) == target,
        decreases n - i,
    {
        let ghost before = ResolveState {
            projectiles: projectiles@,
            enemies: enemies@,
            score: *score as int,
            high_score: *high_score as int,
            explosions: explosions@,
        };
        let e = enemies[i];
        if !e.collided {
            match find_first_hit(projectiles, &e) {
                Some(j) => {
                    let p = projectiles[j];
                    projectiles.set(j, Entity { collided: true, ..p });
                    enemies.set(i, Entity { collided: true, ..e });
                    let points: i128 = (e.size as i128 + 500) / 1000;
                    *score = sat_add_u32_exec(*score, points);
                    if *score > *high_score {
                        *high_score = *score;
                    }
                    explosions.push(Explosion { x: e.x, y: e.y, size: e.size });
                    proof {
                        let next = ResolveState {
                            projectiles: projectiles@,
                            enemies: enemies@,
                            score: *score as int,
                            high_score: *high_score as int,
                            explosions: explosions@,
                        };
                        assert(resolve_from(before, i as int) == resolve_from(next, i + 1));
                    }
                },
                None => {
                    proof {
                        assert(resolve_from(before, i as int) == resolve_from(before, i + 1));
                    }
                },
            }
        } else {
            proof {
                assert(resolve_from(before, i as int) == resolve_from(before, i + 1));
            }
        }
        i += 1;
    }
    explosions
}

} // verus!
