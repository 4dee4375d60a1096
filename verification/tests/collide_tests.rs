use shooter_core::collide::resolve_collisions;
use shooter_core::entity::Entity;

fn at(x: i64, y: i64, size: i64) -> Entity {
    Entity { x, y, size, speed: 50_000, collided: false }
}

#[test]
fn match_marks_both_and_scores_rounded_size() {
    let mut projectiles = vec![at(400_000, 376_000, 32_000)];
    let mut enemies = vec![at(400_000, 376_000, 40_000)];
    let mut score: u32 = 0;
    let mut high: u32 = 0;
    let explosions = resolve_collisions(&mut projectiles, &mut enemies, &mut score, &mut high);
    assert!(projectiles[0].collided);
    assert!(enemies[0].collided);
    assert_eq!(score, 40);
    assert_eq!(high, 40);
    assert_eq!(explosions.len(), 1);
    assert_eq!(explosions[0].x, 400_000);
    assert_eq!(explosions[0].y, 376_000);
    assert_eq!(explosions[0].size, 40_000);
}

#[test]
fn score_rounds_to_nearest_pixel() {
    let mut score: u32 = 0;
    let mut high: u32 = 0;
    let mut projectiles = vec![at(0, 0, 32_000)];
    let mut enemies = vec![at(0, 0, 16_500)];
    resolve_collisions(&mut projectiles, &mut enemies, &mut score, &mut high);
    assert_eq!(score, 17);

    let mut projectiles = vec![at(0, 0, 32_000)];
    let mut enemies = vec![at(0, 0, 16_499)];
    let mut score2: u32 = 0;
    resolve_collisions(&mut projectiles, &mut enemies, &mut score2, &mut high);
    assert_eq!(score2, 16);
}

#[test]
fn projectile_awarded_at_most_once() {
    // One projectile overlapping two enemies: only the first enemy in order
    // is matched; the projectile is marked and skipped afterwards.
    let mut projectiles = vec![at(100_000, 100_000, 32_000)];
    let mut enemies = vec![at(100_000, 100_000, 40_000), at(110_000, 100_000, 40_000)];
    let mut score: u32 = 0;
    let mut high: u32 = 0;
    let explosions = resolve_collisions(&mut projectiles, &mut enemies, &mut score, &mut high);
    assert!(projectiles[0].collided);
    assert!(enemies[0].collided);
    assert!(!enemies[1].collided);
    assert_eq!(score, 40);
    assert_eq!(explosions.len(), 1);
}

#[test]
fn enemy_matched_with_first_projectile_only() {
    let mut projectiles = vec![at(100_000, 100_000, 32_000), at(101_000, 100_000, 32_000)];
    let mut enemies = vec![at(100_000, 100_000, 40_000)];
    let mut score: u32 = 0;
    let mut high: u32 = 0;
    resolve_collisions(&mut projectiles, &mut enemies, &mut score, &mut high);
    assert!(projectiles[0].collided);
    assert!(!projectiles[1].collided);
    assert!(enemies[0].collided);
    assert_eq!(score, 40);
}

#[test]
fn already_marked_entities_are_inert() {
    // A marked flag is never reset, and a marked entity earns nothing more.
    let mut projectiles = vec![at(0, 0, 32_000)];
    let mut enemies = vec![Entity { collided: true, ..at(0, 0, 40_000) }];
    let mut score: u32 = 0;
    let mut high: u32 = 0;
    let explosions = resolve_collisions(&mut projectiles, &mut enemies, &mut score, &mut high);
    assert!(!projectiles[0].collided);
    assert!(enemies[0].collided);
    assert_eq!(score, 0);
    assert_eq!(explosions.len(), 0);
}

#[test]
fn two_pairs_both_score() {
    let mut projectiles = vec![at(100_000, 100_000, 32_000), at(500_000, 100_000, 32_000)];
    let mut enemies = vec![at(100_000, 100_000, 24_000), at(500_000, 100_000, 64_000)];
    let mut score: u32 = 10;
    let mut high: u32 = 20;
    let explosions = resolve_collisions(&mut projectiles, &mut enemies, &mut score, &mut high);
    assert_eq!(score, 10 + 24 + 64);
    assert_eq!(high, 98);
    assert_eq!(explosions.len(), 2);
}

#[test]
fn high_score_follows_score_upward_only() {
    let mut projectiles = vec![at(0, 0, 32_000)];
    let mut enemies = vec![at(0, 0, 40_000)];
    let mut score: u32 = 10;
    let mut high: u32 = 1000;
    resolve_collisions(&mut projectiles, &mut enemies, &mut score, &mut high);
    assert_eq!(score, 50);
    assert_eq!(high, 1000);
}

#[test]
fn score_saturates_at_the_top() {
    let mut projectiles = vec![at(0, 0, 32_000)];
    let mut enemies = vec![at(0, 0, 64_000)];
    let mut score: u32 = u32::MAX - 5;
    let mut high: u32 = u32::MAX - 5;
    resolve_collisions(&mut projectiles, &mut enemies, &mut score, &mut high);
    assert_eq!(score, u32::MAX);
    assert_eq!(high, u32::MAX);
}

#[test]
fn no_overlap_no_change() {
    let mut projectiles = vec![at(0, 0, 32_000)];
    let mut enemies = vec![at(500_000, 500_000, 40_000)];
    let mut score: u32 = 7;
    let mut high: u32 = 9;
    let explosions = resolve_collisions(&mut projectiles, &mut enemies, &mut score, &mut high);
    assert!(!projectiles[0].collided);
    assert!(!enemies[0].collided);
    assert_eq!(score, 7);
    assert_eq!(high, 9);
    assert!(explosions.is_empty());
}
