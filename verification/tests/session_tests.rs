use shooter_core::entity::Entity;
use shooter_core::spawn::{enemy_from_draws, spawn_roll_hits};
use shooter_core::session::{FrameInput, GameScreen, Session};

const W: i64 = 800_000;
const H: i64 = 800_000;

fn idle() -> FrameInput {
    FrameInput::default()
}

fn start_playing(seed: u64, stored: u32) -> Session {
    let mut s = Session::new(seed, stored, W, H);
    let mut input = idle();
    input.start = true;
    let out = s.frame(&input, 0, W, H);
    assert!(matches!(s.screen, GameScreen::Playing));
    assert!(!out.quit);
    s
}

fn enemy(x: i64, y: i64, size: i64, speed: i64) -> Entity {
    Entity { x, y, size, speed, collided: false }
}

#[test]
fn new_session_starts_on_menu() {
    let s = Session::new(1, 40, W, H);
    assert!(matches!(s.screen, GameScreen::MainMenu));
    assert_eq!(s.score, 0);
    assert_eq!(s.high_score, 40);
    assert!(!s.reached_high_score);
    assert!(s.enemies.is_empty());
    assert!(s.projectiles.is_empty());
    assert_eq!(s.player.x, 400_000);
    assert_eq!(s.player.y, 400_000);
}

#[test]
fn menu_quit_is_passed_to_host() {
    let mut s = Session::new(1, 0, W, H);
    let mut input = idle();
    input.quit = true;
    let out = s.frame(&input, 16, W, H);
    assert!(out.quit);
    assert!(matches!(s.screen, GameScreen::MainMenu));
}

#[test]
fn start_resets_field_and_score() {
    let mut s = start_playing(7, 25);
    // Let some frames pass so enemies may spawn, then die and return.
    s.enemies.push(enemy(400_000, 400_000, 40_000, 50_000));
    s.score = 12;
    let out = s.frame(&idle(), 0, W, H);
    assert!(matches!(s.screen, GameScreen::GameOver));
    assert!(out.persist_high_score.is_none());
    let mut input = idle();
    input.acknowledge = true;
    s.frame(&input, 16, W, H);
    assert!(matches!(s.screen, GameScreen::MainMenu));
    let mut input = idle();
    input.start = true;
    s.frame(&input, 16, W, H);
    assert!(matches!(s.screen, GameScreen::Playing));
    assert_eq!(s.score, 0);
    assert!(s.enemies.is_empty());
    assert!(s.projectiles.is_empty());
    assert_eq!(s.player.x, 400_000);
    assert_eq!(s.player.y, 400_000);
    assert_eq!(s.high_score, 25);
}

#[test]
fn overlapping_enemy_ends_the_game() {
    // An enemy dropped straight onto the ship's box: the next frame leaves
    // Playing for GameOver.
    let mut s = start_playing(3, 0);
    s.enemies.push(enemy(400_000, 400_000, 40_000, 50_000));
    let out = s.frame(&idle(), 0, W, H);
    assert!(matches!(s.screen, GameScreen::GameOver));
    // Score 0 equals the stored high score 0, so the record flag and the
    // write both fire.
    assert!(s.reached_high_score);
    assert_eq!(out.persist_high_score, Some(0));
}

#[test]
fn game_over_without_record_writes_nothing() {
    let mut s = start_playing(3, 100);
    s.enemies.push(enemy(400_000, 400_000, 40_000, 50_000));
    let out = s.frame(&idle(), 0, W, H);
    assert!(matches!(s.screen, GameScreen::GameOver));
    assert!(!s.reached_high_score);
    assert!(out.persist_high_score.is_none());
}

#[test]
fn fired_projectile_destroys_matching_enemy() {
    // A projectile fired from the ship with an enemy right on its start
    // position: both leave the field and the score grows by the enemy's
    // rounded size.
    let mut s = start_playing(5, 0);
    s.enemies.push(enemy(400_000, 376_000, 40_000, 50_000));
    let mut input = idle();
    input.fire = true;
    let out = s.frame(&input, 0, W, H);
    assert!(matches!(s.screen, GameScreen::Playing));
    assert_eq!(s.score, 40);
    assert_eq!(s.high_score, 40);
    assert!(s.projectiles.is_empty());
    assert!(s.enemies.iter().all(|e| e.y < 0), "the struck enemy must be gone");
    assert!(out.fired);
    assert_eq!(out.explosions.len(), 1);
    assert_eq!(out.explosions[0].x, 400_000);
    assert_eq!(out.explosions[0].y, 376_000);
    assert_eq!(out.explosions[0].size, 40_000);
    assert!(out.persist_high_score.is_none());
}

#[test]
fn firing_creates_one_projectile_above_the_ship() {
    let mut s = start_playing(5, 0);
    let mut input = idle();
    input.fire = true;
    let out = s.frame(&input, 0, W, H);
    assert!(out.fired);
    assert_eq!(s.projectiles.len(), 1);
    let p = &s.projectiles[0];
    assert_eq!(p.x, 400_000);
    assert_eq!(p.y, 376_000);
    assert_eq!(p.size, 32_000);
    assert_eq!(p.speed, 400_000);
    assert!(!p.collided);
}

#[test]
fn equal_score_and_stored_high_score_still_set_the_record_flag() {
    // Starting score 40 against a stored high score of 40: the game-over
    // write happens (a no-op in value) and the flag is still set.
    let mut s = start_playing(11, 40);
    s.score = 40;
    s.enemies.push(enemy(400_000, 400_000, 40_000, 50_000));
    let out = s.frame(&idle(), 0, W, H);
    assert!(matches!(s.screen, GameScreen::GameOver));
    assert!(s.reached_high_score);
    assert_eq!(out.persist_high_score, Some(40));
}

#[test]
fn acknowledge_clears_record_flag() {
    let mut s = start_playing(3, 0);
    s.enemies.push(enemy(400_000, 400_000, 40_000, 50_000));
    s.frame(&idle(), 0, W, H);
    assert!(s.reached_high_score);
    let mut input = idle();
    input.acknowledge = true;
    s.frame(&input, 16, W, H);
    assert!(matches!(s.screen, GameScreen::MainMenu));
    assert!(!s.reached_high_score);
}

#[test]
fn pause_freezes_everything_until_resume() {
    let mut s = start_playing(9, 0);
    s.enemies.push(enemy(100_000, 100_000, 40_000, 120_000));
    s.projectiles.push(enemy(700_000, 700_000, 32_000, 400_000));
    s.score = 3;
    s.high_score = 3;
    let mut pause = idle();
    pause.pause = true;
    s.frame(&pause, 16, W, H);
    assert!(matches!(s.screen, GameScreen::Paused));

    // Whatever frames arrive now, nothing in the simulation moves.
    let frozen_player = s.player;
    let frozen_enemies = s.enemies.clone();
    let frozen_projectiles = s.projectiles.clone();
    let frozen_score = s.score;
    for dt in [1u32, 16, 500, 10_000, 0, 250] {
        let mut held = idle();
        held.left = true;
        held.down = true;
        held.fire = true;
        let out = s.frame(&held, dt, W, H);
        assert!(matches!(s.screen, GameScreen::Paused));
        assert_eq!(s.player, frozen_player);
        assert_eq!(s.enemies, frozen_enemies);
        assert_eq!(s.projectiles, frozen_projectiles);
        assert_eq!(s.score, frozen_score);
        assert!(out.explosions.is_empty());
        assert!(!out.quit);
    }

    s.frame(&pause, 16, W, H);
    assert!(matches!(s.screen, GameScreen::Playing));
    assert_eq!(s.player, frozen_player);
    assert_eq!(s.enemies, frozen_enemies);
    assert_eq!(s.score, frozen_score);
}

#[test]
fn spawned_enemies_respect_their_ranges() {
    // Run many zero-length frames so the spawner fires a few times; every
    // enemy it created must sit fully above the screen with its size, speed
    // and horizontal position inside the documented ranges.
    let mut s = start_playing(12_345, 0);
    for _ in 0..500 {
        s.frame(&idle(), 0, W, H);
        assert!(matches!(s.screen, GameScreen::Playing));
    }
    assert!(!s.enemies.is_empty(), "five hundred frames at one in twenty should spawn");
    for e in &s.enemies {
        assert!(16_000 <= e.size && e.size <= 64_000);
        assert!(50_000 <= e.speed && e.speed <= 150_000);
        assert_eq!(e.y, -e.size);
        assert!(e.size / 2 <= e.x && e.x <= W - e.size / 2);
        assert!(!e.collided);
    }
}

#[test]
fn enemy_cleanup_uses_screen_width_bound() {
    // The removal bound follows the screen width, as shipped: on a tall
    // narrow screen an enemy still far above the bottom edge is dropped as
    // soon as it passes width plus size.
    let w: i64 = 400_000;
    let h: i64 = 1_000_000;
    let mut s = Session::new(2, 0, w, h);
    let mut input = idle();
    input.start = true;
    s.frame(&input, 0, w, h);
    s.enemies.push(enemy(100_000, 450_000, 32_000, 50_000));
    s.frame(&idle(), 0, w, h);
    assert!(matches!(s.screen, GameScreen::Playing));
    assert!(s.enemies.iter().all(|e| e.y < 440_000), "the low enemy must be dropped");
}

#[test]
fn held_directions_move_and_clamp_the_ship() {
    let mut s = start_playing(21, 0);
    let mut input = idle();
    input.right = true;
    // Hold right for far longer than the screen is wide.
    s.frame(&input, 60_000, W, H);
    assert!(matches!(s.screen, GameScreen::Playing) || matches!(s.screen, GameScreen::GameOver));
    if matches!(s.screen, GameScreen::Playing) {
        assert_eq!(s.player.x, W - 16_000);
        assert_eq!(s.player.y, 400_000);
    }
}

#[test]
fn spawn_roll_threshold_is_ninety_five() {
    assert!(!spawn_roll_hits(0));
    assert!(!spawn_roll_hits(50));
    assert!(!spawn_roll_hits(94));
    assert!(spawn_roll_hits(95));
    assert!(spawn_roll_hits(96));
    assert!(spawn_roll_hits(99));
}

#[test]
fn spawned_enemy_is_built_from_the_draws() {
    let e = enemy_from_draws(40_000, 120_000, 300_000, W);
    assert_eq!(e.x, 300_000);
    assert_eq!(e.y, -40_000);
    assert_eq!(e.size, 40_000);
    assert_eq!(e.speed, 120_000);
    assert!(!e.collided);
}
