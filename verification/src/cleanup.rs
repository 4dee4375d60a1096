//! Lifecycle cleanup: after motion and collision resolution, each collection
//! is swept twice — first the entities that have left the play area are
//! dropped, then the ones whose collision flag is set. Survivors keep their
//! relative order here, which is one allowed refinement of the unordered
//! removal the rules ask for.

use vstd::prelude::*;

use crate::entity::Entity;

verus! {

/// An enemy has fallen out of play once its center is a full box side past
/// the lower bound. The bound handed in is the screen width, not the height
/// — a long-standing quirk of the game, kept deliberately rather than
/// silently corrected.
pub open spec fn enemy_out(e: Entity, bound: int) -> bool {
    e.y >= bound + e.size
}

/// A projectile has left through the top once its center is half its box
/// side above the upper edge.
pub open spec fn projectile_out(e: Entity) -> bool {
    2 * e.y <= -e.size
}

/// The subsequence of `s` whose elements satisfy `pred`, in order.
pub open spec fn kept(s: Seq<Entity>, pred: spec_fn(Entity) -> bool) -> Seq<Entity>
    decreases s.len(),
{
    if s.len() == 0 {
        Seq::empty()
    } else {
        let rest = kept(s.drop_last(), pred);
        if pred(s.last()) {
            rest.push(s.last())
        } else {
            rest
        }
    }
}

/// Both cleanup passes over the enemies: out-of-play entities go first, then
/// the marked ones.
pub open spec fn cleaned_enemies(s: Seq<Entity>, bound: int) -> Seq<Entity> {
    kept(kept(s, |e: Entity| !enemy_out(e, bound)), |e: Entity| !e.collided)
}

/// Both cleanup passes over the projectiles: out-of-play entities go first,
/// then the marked ones.
pub open spec fn cleaned_projectiles(s: Seq<Entity>) -> Seq<Entity> {
    kept(kept(s, |e: Entity| !projectile_out(e)), |e: Entity| !e.collided)
}

/// Every element kept by `kept` satisfies the predicate it was kept by.
proof fn lemma_kept_all(s: Seq<Entity>, pred: spec_fn(Entity) -> bool)
    ensures
        forall|k: int| 0 <= k < kept(s, pred).len() ==> pred(#[trigger] kept(s, pred)[k]),
    decreases s.len(),
{
    if s.len() == 0 {
    } else {
        lemma_kept_all(s.drop_last(), pred);
        let rest = kept(s.drop_last(), pred);
        assert forall|k: int| 0 <= k < kept(s, pred).len() implies pred(
            #[trigger] kept(s, pred)[k],
        ) by {
            if pred(s.last()) {
                assert(kept(s, pred) == rest.push(s.last()));
                if k < rest.len() {
                    assert(kept(s, pred)[k] == rest[k]);
                } else {
                    assert(kept(s, pred)[k] == s.last());
                }
            } else {
                assert(kept(s, pred) == rest);
            }
        }
    }
}

/// A property of every element survives `kept`.
proof fn lemma_kept_preserves(s: Seq<Entity>, pred: spec_fn(Entity) -> bool, prop: spec_fn(
    Entity,
) -> bool)
    requires
        forall|k: int| 0 <= k < s.len() ==> prop(#[trigger] s[k]),
    ensures
        forall|k: int| 0 <= k < kept(s, pred).len() ==> prop(#[trigger] kept(s, pred)[k]),
    decreases s.len(),
{
    if s.len() == 0 {
    } else {
        assert(forall|k: int| 0 <= k < s.drop_last().len() ==> prop(#[trigger] s.drop_last()[k]));
        lemma_kept_preserves(s.drop_last(), pred, prop);
        let rest = kept(s.drop_last(), pred);
        assert forall|k: int| 0 <= k < kept(s, pred).len() implies prop(
            #[trigger] kept(s, pred)[k],
        ) by {
            if pred(s.last()) {
                assert(kept(s, pred) == rest.push(s.last()));
                if k < rest.len() {
                    assert(kept(s, pred)[k] == rest[k]);
                } else {
                    assert(kept(s, pred)[k] == s.last());
                    assert(prop(s[s.len() - 1]));
                }
            } else {
                assert(kept(s, pred) == rest);
            }
        }
    }
}

/// A sequence whose elements all satisfy the predicate comes back unchanged.
proof fn lemma_kept_id(s: Seq<Entity>, pred: spec_fn(Entity) -> bool)
    requires
        forall|k: int| 0 <= k < s.len() ==> pred(#[trigger] s[k]),
    ensures
        kept(s, pred) == s,
    decreases s.len(),
{
    if s.len() == 0 {
        assert(kept(s, pred) =~= s);
    } else {
        assert(forall|k: int| 0 <= k < s.drop_last().len() ==> pred(#[trigger] s.drop_last()[k]));
        lemma_kept_id(s.drop_last(), pred);
        assert(kept(s, pred) =~= s);
    }
}

/// Law: cleanup is idempotent. With no motion or collision step in between,
/// running both removal passes a second time removes nothing further from
/// either collection.
pub proof fn lemma_cleanup_idempotent(enemies: Seq<Entity>, projectiles: Seq<Entity>, bound: int)
    ensures
        cleaned_enemies(cleaned_enemies(enemies, bound), bound) == cleaned_enemies(enemies, bound),
        cleaned_projectiles(cleaned_projectiles(projectiles)) == cleaned_projectiles(projectiles),
{
    let e_in = |e: Entity| !enemy_out(e, bound);
    let unmarked = |e: Entity| !e.collided;
    let e1 = kept(enemies, e_in);
    lemma_kept_all(enemies, e_in);
    lemma_kept_all(e1, unmarked);
    lemma_kept_preserves(e1, unmarked, e_in);
    lemma_kept_id(cleaned_enemies(enemies, bound), e_in);
    lemma_kept_id(cleaned_enemies(enemies, bound), unmarked);

    let p_in = |e: Entity| !projectile_out(e);
    let p1 = kept(projectiles, p_in);
    lemma_kept_all(projectiles, p_in);
    lemma_kept_all(p1, unmarked);
    lemma_kept_preserves(p1, unmarked, p_in);
    lemma_kept_id(cleaned_projectiles(projectiles), p_in);
    lemma_kept_id(cleaned_projectiles(projectiles), unmarked);
}

/// Cleanup only ever drops entities, so well-formedness of every survivor
/// follows from well-formedness of the originals.
pub proof fn lemma_cleanup_wf(enemies: Seq<Entity>, projectiles: Seq<Entity>, bound: int)
    requires
        forall|k: int| 0 <= k < enemies.len() ==> (#[trigger] enemies[k]).wf(),
        forall|k: int| 0 <= k < projectiles.len() ==> (#[trigger] projectiles[k]).wf(),
    ensures
        forall|k: int|
            0 <= k < cleaned_enemies(enemies, bound).len() ==> (#[trigger] cleaned_enemies(
                enemies,
                bound,
            )[k]).wf(),
        forall|k: int|
            0 <= k < cleaned_projectiles(projectiles).len() ==> (#[trigger] cleaned_projectiles(
                projectiles,
            )[k]).wf(),
{
    let wfp = |e: Entity| e.wf();
    let e_in = |e: Entity| !enemy_out(e, bound);
    let p_in = |e: Entity| !projectile_out(e);
    let unmarked = |e: Entity| !e.collided;
    lemma_kept_preserves(enemies, e_in, wfp);
    lemma_kept_preserves(kept(enemies, e_in), unmarked, wfp);
    lemma_kept_preserves(projectiles, p_in, wfp);
    lemma_kept_preserves(kept(projectiles, p_in), unmarked, wfp);
}

/// Drops every enemy that is out of play or marked, in the two passes that
/// `cleaned_enemies` states.
pub fn cleanup_enemies(enemies: &mut Vec<Entity>, bound: i64)
    ensures
        final(enemies)@ == cleaned_enemies(old(enemies)@, bound as int),
{
    retain_enemies_in_play(enemies, bound);
    retain_unmarked(enemies);
}

/// Drops every projectile that is out of play or marked, in the two passes
/// that `cleaned_projectiles` states.
pub fn cleanup_projectiles(projectiles: &mut Vec<Entity>)
    ensures
        final(projectiles)@ == cleaned_projectiles(old(projectiles)@),
{
    retain_projectiles_in_play(projectiles);
    retain_unmarked(projectiles);
}

/// First enemy pass: keep what is still in play.
#[verifier::loop_isolation(false)]
fn retain_enemies_in_play(enemies: &mut Vec<Entity>, bound: i64)
    ensures
        final(enemies)@ == kept(old(enemies)@, |e: Entity| !enemy_out(e, bound as int)),
{
    let ghost pred = |e: Entity| !enemy_out(e, bound as int);
    let n = enemies.len();
    let mut out: Vec<Entity> = Vec::new();
    let mut i: usize = 0;
    while i < n
        invariant
            i <= n == enemies@.len(),
            out@ == kept(enemies@.take(i as int), pred),
        decreases n - i,
    {
        let e = enemies[i];
        if !(e.y as i128 >= bound as i128 + e.size as i128) {
            out.push(e);
        }
        proof {
            let prefix = enemies@.take(i as int + 1);
            assert(prefix.drop_last() =~= enemies@.take(i as int));
            assert(prefix.last() == enemies@[i as int]);
            assert(kept(prefix, pred) == (if pred(enemies@[i as int]) {
                kept(enemies@.take(i as int), pred).push(enemies@[i as int])
            } else {
                kept(enemies@.take(i as int), pred)
            }));
        }
        i += 1;
    }
    proof {
        assert(enemies@.take(n as int) =~= enemies@);
    }
    *enemies = out;
}

/// First projectile pass: keep what is still in play.
#[verifier::loop_isolation(false)]
fn retain_projectiles_in_play(projectiles: &mut Vec<Entity>)
    ensures
        final(projectiles)@ == kept(old(projectiles)@, |e: Entity| !projectile_out(e)),
{
    let ghost pred = |e: Entity| !projectile_out(e);
    let n = projectiles.len();
    let mut out: Vec<Entity> = Vec::new();
    let mut i: usize = 0;
    while i < n
        invariant
            i <= n == projectiles@.len(),
            out@ == kept(projectiles@.take(i as int), pred),
        decreases n - i,
    {
        let e = projectiles[i];
        if !(2 * e.y as i128 <= -(e.size as i128)) {
            out.push(e);
        }
        proof {
            let prefix = projectiles@.take(i as int + 1);
            assert(prefix.drop_last() =~= projectiles@.take(i as int));
            assert(prefix.last() == projectiles@[i as int]);
            assert(kept(prefix, pred) == (if pred(projectiles@[i as int]) {
                kept(projectiles@.take(i as int), pred).push(projectiles@[i as int])
            } else {
                kept(projectiles@.take(i as int), pred)
            }));
        }
        i += 1;
    }
    proof {
        assert(projectiles@.take(n as int) =~= projectiles@);
    }
    *projectiles = out;
}

/// Second pass over either collection: keep what is not marked.
#[verifier::loop_isolation(false)]
fn retain_unmarked(entities: &mut Vec<Entity>)
    ensures
        final(entities)@ == kept(old(entities)@, |e: Entity| !e.collided),
{
    let ghost pred = |e: Entity| !e.collided;
    let n = entities.len();
    let mut out: Vec<Entity> = Vec::new();
    let mut i: usize = 0;
    while i < n
        invariant
            i <= n == entities@.len(),
            out@ == kept(entities@.take(i as int), pred),
        decreases n - i,
    {
        let e = entities[i];
        if !e.collided {
            out.push(e);
        }
        proof {
            let prefix = entities@.take(i as int + 1);
            assert(prefix.drop_last() =~= entities@.take(i as int));
            assert(prefix.last() == entities@[i as int]);
            assert(kept(prefix, pred) == (if pred(entities@[i as int]) {
                kept(entities@.take(i as int), pred).push(entities@[i as int])
            } else {
                kept(entities@.take(i as int), pred)
            }));
        }
        i += 1;
    }
    proof {
        assert(entities@.take(n as int) =~= entities@);
    }
    *entities = out;
}

} // verus!
