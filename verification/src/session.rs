//! The per-session state and the per-frame step. A `Session` owns the player,
//! the two entity collections, the score ledger and the screen state machine;
//! `frame` advances it by one host frame. Only the `Playing` screen runs the
//! simulation; the other screens merely watch for their transition triggers.

use vstd::prelude::*;

use crate::cleanup::{cleaned_enemies, cleaned_projectiles, cleanup_enemies, cleanup_projectiles};
use crate::collide::{resolve_collisions, resolve_from, Explosion, ResolveState};
use crate::collide::lemma_resolve_marks_once;
use crate::collide::mark;
use crate::entity::{advance_enemies, advance_projectiles, Entity};
use crate::geom::{clamp, clamp_i64, clip, clip_i128, travel, travel_i128};
use crate::geom::lemma_clamp_bounds;
use crate::rng::rng_from_seed;
use crate::spawn::{maybe_spawn, spawned_enemy};

verus! {

/// The player ship's travel speed, in millipixels per second.
pub const MOVEMENT_SPEED: i64 = 200_000;

/// The player ship's box side, in millipixels.
pub const PLAYER_SIZE: i64 = 32_000;

/// A projectile's box side, in millipixels.
pub const PROJECTILE_SIZE: i64 = 32_000;

/// How far above the ship a projectile starts, in millipixels.
pub const FIRE_OFFSET: i64 = 24_000;

/// The four mutually exclusive screens; exactly one is active per frame.
#[derive(Clone, Copy, PartialEq, Eq, Structural, Debug)]
pub enum GameScreen {
    MainMenu,
    Playing,
    Paused,
    GameOver,
}

/// One frame's worth of input: held directions, and the edge-triggered
/// actions of whichever screen is active.
#[derive(Clone, Copy, Default, Debug)]
pub struct FrameInput {
    pub left: bool,
    pub right: bool,
    pub up: bool,
    pub down: bool,
    pub fire: bool,
    pub pause: bool,
    pub start: bool,
    pub quit: bool,
    pub acknowledge: bool,
}

/// What a frame asks of the host: leaving the process, playing the fire
/// sound, showing explosions, and writing a freshly set high score.
pub struct FrameOutput {
    pub quit: bool,
    pub fired: bool,
    pub explosions: Vec<Explosion>,
    pub persist_high_score: Option<u32>,
}

/// One play session and its screen state. The random source lives here so
/// that it is seeded exactly once, at process start.
pub struct Session {
    pub screen: GameScreen,
    pub player: Entity,
    pub projectiles: Vec<Entity>,
    pub enemies: Vec<Entity>,
    pub score: u32,
    pub high_score: u32,
    pub reached_high_score: bool,
    pub rng: rand::rngs::StdRng,
}

/// The player after one frame of held-direction travel, before clamping.
/// Both axes move independently by the fixed ship speed.
pub open spec fn player_moved(p: Entity, input: FrameInput, dt: int) -> Entity {
    let d = travel(MOVEMENT_SPEED as int, dt);
    let dx = (if input.right {
        d
    } else {
        0
    }) - (if input.left {
        d
    } else {
        0
    });
    let dy = (if input.down {
        d
    } else {
        0
    }) - (if input.up {
        d
    } else {
        0
    });
    Entity { x: clip(p.x + dx) as i64, y: clip(p.y + dy) as i64, ..p }
}

/// The player pushed back inside the screen, each axis against the current
/// dimensions, with its own half-size as the margin.
pub open spec fn player_clamped(p: Entity, w: int, h: int) -> Entity {
    let half = p.size / 2;
    Entity {
        x: clamp(p.x as int, half, w - half) as i64,
        y: clamp(p.y as int, half, h - half) as i64,
        ..p
    }
}

/// The projectile a fire action creates: at the ship, a little above it,
/// twice the ship's speed, a fixed size, and no mark.
pub open spec fn fired_projectile(p: Entity) -> Entity {
    Entity {
        x: p.x,
        y: clip(p.y - FIRE_OFFSET as int) as i64,
        size: PROJECTILE_SIZE,
        speed: clip(2 * p.speed) as i64,
        collided: false,
    }
}

/// The simulation half of two sessions agrees: player, collections, ledger
/// and record flag. (The random source is deliberately left out.)
pub open spec fn same_sim(a: Session, b: Session) -> bool {
    &&& a.player == b.player
    &&& a.projectiles@ == b.projectiles@
    &&& a.enemies@ == b.enemies@
    &&& a.score == b.score
    &&& a.high_score == b.high_score
    &&& a.reached_high_score == b.reached_high_score
}

/// What a frame on the main menu does: a start action clears both
/// collections, recenters the player and zeroes the score; a quit action is
/// passed to the host; nothing else changes and no simulation runs.
pub open spec fn menu_outcome(
    pre: Session,
    post: Session,
    input: FrameInput,
    out: FrameOutput,
    w: int,
    h: int,
) -> bool {
    &&& (if input.start {
        &&& post.screen == GameScreen::Playing
        &&& post.player == (Entity { x: (w / 2) as i64, y: (h / 2) as i64, ..pre.player })
        &&& post.projectiles@ == Seq::<Entity>::empty()
        &&& post.enemies@ == Seq::<Entity>::empty()
        &&& post.score == 0
        &&& post.high_score == pre.high_score
        &&& post.reached_high_score == pre.reached_high_score
    } else {
        &&& post.screen == GameScreen::MainMenu
        &&& same_sim(pre, post)
    })
    &&& out.quit == input.quit
    &&& out.fired == false
    &&& out.explosions@ == Seq::<Explosion>::empty()
    &&& out.persist_high_score is None
}

/// What a paused frame does: nothing but wait for the resume action. Every
/// entity position, the score and the ledger are frozen.
pub open spec fn paused_outcome(
    pre: Session,
    post: Session,
    input: FrameInput,
    out: FrameOutput,
) -> bool {
    &&& post.screen == (if input.pause {
        GameScreen::Playing
    } else {
        GameScreen::Paused
    })
    &&& same_sim(pre, post)
    &&& out.quit == false
    &&& out.fired == false
    &&& out.explosions@ == Seq::<Explosion>::empty()
    &&& out.persist_high_score is None
}

/// What a game-over frame does: an acknowledge action returns to the menu
/// and clears the record flag; otherwise everything stays as it is.
pub open spec fn gameover_outcome(
    pre: Session,
    post: Session,
    input: FrameInput,
    out: FrameOutput,
) -> bool {
    &&& (if input.acknowledge {
        &&& post.screen == GameScreen::MainMenu
        &&& post.player == pre.player
        &&& post.projectiles@ == pre.projectiles@
        &&& post.enemies@ == pre.enemies@
        &&& post.score == pre.score
        &&& post.high_score == pre.high_score
        &&& post.reached_high_score == false
    } else {
        &&& post.screen == GameScreen::GameOver
        &&& same_sim(pre, post)
    })
    &&& out.quit == false
    &&& out.fired == false
    &&& out.explosions@ == Seq::<Explosion>::empty()
    &&& out.persist_high_score is None
}

/// The resolver input a playing frame builds, given the spawn draw `sp`:
/// the fired projectile (if any) joins the projectiles, the spawned enemy
/// (if any) joins the enemies, and then everything moves by one frame.
pub open spec fn sim_start(pre: Session, input: FrameInput, dt: int, sp: Option<Entity>) -> ResolveState {
    let moved = player_moved(pre.player, input, dt);
    let projs0 = if input.fire {
        pre.projectiles@.push(fired_projectile(moved))
    } else {
        pre.projectiles@
    };
    let enemies0 = match sp {
        Option::None => pre.enemies@,
        Option::Some(e) => pre.enemies@.push(e),
    };
    ResolveState {
        projectiles: Seq::new(projs0.len(), |k: int| projs0[k].moved_up(dt)),
        enemies: Seq::new(enemies0.len(), |k: int| enemies0[k].moved_down(dt)),
        score: pre.score as int,
        high_score: pre.high_score as int,
        explosions: Seq::empty(),
    }
}

/// The state the resolver pass leaves behind on a playing frame.
pub open spec fn sim_result(pre: Session, input: FrameInput, dt: int, sp: Option<Entity>) -> ResolveState {
    resolve_from(sim_start(pre, input, dt, sp), 0)
}

/// What a playing frame does, given the spawn draw `sp`: the player moves
/// and is clamped; a fire action adds one projectile at the pre-clamp ship
/// position; the spawned enemy, if any, joins the enemies; everything moves;
/// the resolver pass runs; both collections are cleaned; and if any
/// remaining enemy overlaps the ship the screen goes to game over, writing
/// the high score out when the score has just matched it. A pause action
/// takes effect unless the frame ended the game.
pub open spec fn playing_outcome(
    pre: Session,
    post: Session,
    input: FrameInput,
    out: FrameOutput,
    dt: int,
    w: int,
    h: int,
    sp: Option<Entity>,
) -> bool {
    let p1 = player_clamped(player_moved(pre.player, input, dt), w, h);
    let r = sim_result(pre, input, dt, sp);
    let enemies2 = cleaned_enemies(r.enemies, w);
    let projs2 = cleaned_projectiles(r.projectiles);
    let player_hit = exists|k: int| 0 <= k < enemies2.len() && p1.overlaps(#[trigger] enemies2[k]);
    let new_record = player_hit && r.score == r.high_score;
    &&& (sp matches Some(e) ==> spawned_enemy(e, w) && e.wf())
    &&& post.player == p1
    &&& post.enemies@ == enemies2
    &&& post.projectiles@ == projs2
    &&& post.score as int == r.score
    &&& post.high_score as int == r.high_score
    &&& post.screen == (if player_hit {
        GameScreen::GameOver
    } else if input.pause {
        GameScreen::Paused
    } else {
        GameScreen::Playing
    })
    &&& post.reached_high_score == (new_record || pre.reached_high_score)
    &&& out.quit == false
    &&& out.fired == input.fire
    &&& out.explosions@ == r.explosions
    &&& out.persist_high_score == (if new_record {
        Some(post.high_score)
    } else {
        Option::<u32>::None
    })
}

/// Law: whatever directions are held and however the screen dimensions have
/// changed since the last frame, the clamped player satisfies the bounds
/// invariant on every axis whose screen span can hold its box: each
/// coordinate lies between the half-size and the dimension less the
/// half-size.
pub proof fn lemma_player_bounds(p: Entity, input: FrameInput, dt: int, w: int, h: int)
    requires
        p.size > 0,
    ensures
        ({
            let c = player_clamped(player_moved(p, input, dt), w, h);
            let half = p.size / 2;
            &&& (half <= w - half ==> half <= c.x <= w - half)
            &&& (half <= h - half ==> half <= c.y <= h - half)
            &&& c.size == p.size
            &&& c.speed == p.speed
        }),
{
    let moved = player_moved(p, input, dt);
    let half = p.size / 2;
    if half <= w - half {
        lemma_clamp_bounds(moved.x as int, half, w - half);
    }
    if half <= h - half {
        lemma_clamp_bounds(moved.y as int, half, h - half);
    }
}

/// Moves the player by the held directions, without clamping yet.
pub fn move_player(p: &Entity, input: &FrameInput, dt_ms: u32) -> (r: Entity)
    requires
        p.wf(),
    ensures
        r == player_moved(*p, *input, dt_ms as int),
        r.size == p.size,
        r.speed == p.speed,
        r.wf(),
{
    let d = travel_i128(MOVEMENT_SPEED, dt_ms);
    let mut dx: i128 = 0;
    let mut dy: i128 = 0;
    if input.right {
        dx = dx + d;
    }
    if input.left {
        dx = dx - d;
    }
    if input.down {
        dy = dy + d;
    }
    if input.up {
        dy = dy - d;
    }
    Entity {
        x: clip_i128(p.x as i128 + dx),
        y: clip_i128(p.y as i128 + dy),
        size: p.size,
        speed: p.speed,
        collided: p.collided,
    }
}

/// Clamps the player against the current screen, and keeps it inside
/// whenever the screen is at least as large as the ship.
pub fn clamp_player(p: &Entity, screen_w: i64, screen_h: i64) -> (r: Entity)
    requires
        p.wf(),
        screen_w >= 1,
        screen_h >= 1,
    ensures
        r == player_clamped(*p, screen_w as int, screen_h as int),
        r.size == p.size,
        r.speed == p.speed,
        r.wf(),
        ({
            let half = p.size / 2;
            &&& (half <= screen_w - half ==> half <= r.x <= screen_w - half)
            &&& (half <= screen_h - half ==> half <= r.y <= screen_h - half)
        }),
{
    let half = p.size / 2;
    proof {
        if half <= screen_w - half {
            lemma_clamp_bounds(p.x as int, half as int, screen_w as int - half);
        }
        if half <= screen_h - half {
            lemma_clamp_bounds(p.y as int, half as int, screen_h as int - half);
        }
    }
    Entity {
        x: clamp_i64(p.x, half, screen_w - half),
        y: clamp_i64(p.y, half, screen_h - half),
        size: p.size,
        speed: p.speed,
        collided: p.collided,
    }
}

/// Builds the projectile a fire action creates at the ship's position.
pub fn fire_projectile(p: &Entity) -> (r: Entity)
    requires
        p.wf(),
    ensures
        r == fired_projectile(*p),
        r.wf(),
        !r.collided,
{
    Entity {
        x: p.x,
        y: clip_i128(p.y as i128 - FIRE_OFFSET as i128),
        size: PROJECTILE_SIZE,
        speed: clip_i128(2 * p.speed as i128),
        collided: false,
    }
}

/// Whether any enemy's box overlaps the player's.
fn player_hit(player: &Entity, enemies: &Vec<Entity>) -> (r: bool)
    ensures
        r == exists|k: int|
            0 <= k < enemies@.len() && (*player).overlaps(#[trigger] enemies@[k]),
{
    let n = enemies.len();
    let mut i: usize = 0;
    while i < n
        invariant
            i <= n == enemies@.len(),
            forall|k: int| 0 <= k < i ==> !(*player).overlaps(#[trigger] enemies@[k]),
        decreases n - i,
    {
        if player.collides_with(&enemies[i]) {
            proof {
                assert((*player).overlaps(enemies@[i as int]));
            }
            return true;
        }
        i += 1;
    }
    false
}

impl Session {
    /// Everything a session guarantees between frames: well-formed entities
    /// everywhere and a high score at or above the score.
    pub open spec fn wf(self) -> bool {
        &&& self.player.wf()
        &&& forall|k: int| 0 <= k < self.enemies@.len() ==> (#[trigger] self.enemies@[k]).wf()
        &&& forall|k: int|
            0 <= k < self.projectiles@.len() ==> (#[trigger] self.projectiles@[k]).wf()
        &&& self.high_score >= self.score
    }

    /// A fresh session at process start: on the menu, the ship at the screen
    /// center, an empty field, score zero, and the stored high score loaded.
    pub fn new(seed: u64, stored_high_score: u32, screen_w: i64, screen_h: i64) -> (s: Session)
        requires
            screen_w >= 1,
            screen_h >= 1,
        ensures
            s.wf(),
            s.screen == GameScreen::MainMenu,
            s.player == (Entity {
                x: (screen_w as int / 2) as i64,
                y: (screen_h as int / 2) as i64,
                size: PLAYER_SIZE,
                speed: MOVEMENT_SPEED,
                collided: false,
            }),
            s.projectiles@ == Seq::<Entity>::empty(),
            s.enemies@ == Seq::<Entity>::empty(),
            s.score == 0,
            s.high_score == stored_high_score,
            s.reached_high_score == false,
    {
        Session {
            screen: GameScreen::MainMenu,
            player: Entity {
                x: screen_w / 2,
                y: screen_h / 2,
                size: PLAYER_SIZE,
                speed: MOVEMENT_SPEED,
                collided: false,
            },
            projectiles: Vec::new(),
            enemies: Vec::new(),
            score: 0,
            high_score: stored_high_score,
            reached_high_score: false,
            rng: rng_from_seed(seed),
        }
    }

    /// One host frame: dispatches on the active screen, runs the simulation
    /// only while playing, and never lets the score shrink nor the high
    /// score fall behind it.
    pub fn frame(
        &mut self,
        input: &FrameInput,
        dt_ms: u32,
        screen_w: i64,
        screen_h: i64,
    ) -> (out: FrameOutput)
        requires
            old(self).wf(),
            screen_w >= 1,
            screen_h >= 1,
        ensures
            final(self).wf(),
            final(self).high_score >= old(self).high_score,
            old(self).screen == GameScreen::MainMenu ==> menu_outcome(
                *old(self),
                *final(self),
                *input,
                out,
                screen_w as int,
                screen_h as int,
            ),
            old(self).screen == GameScreen::Paused ==> paused_outcome(
                *old(self),
                *final(self),
                *input,
                out,
            ),
            old(self).screen == GameScreen::GameOver ==> gameover_outcome(
                *old(self),
                *final(self),
                *input,
                out,
            ),
            old(self).screen == GameScreen::Playing ==> final(self).score >= old(self).score,
            old(self).screen == GameScreen::Playing ==> exists|sp: Option<Entity>|
                #[trigger] playing_outcome(
                    *old(self),
                    *final(self),
                    *input,
                    out,
                    dt_ms as int,
                    screen_w as int,
                    screen_h as int,
                    sp,
                ),
    {
        let screen = self.screen;
        match screen {
            GameScreen::MainMenu => {
                if input.start {
                    self.projectiles = Vec::new();
                    self.enemies = Vec::new();
                    self.player.x = screen_w / 2;
                    self.player.y = screen_h / 2;
                    self.score = 0;
                    self.screen = GameScreen::Playing;
                }
                FrameOutput {
                    quit: input.quit,
                    fired: false,
                    explosions: Vec::new(),
                    persist_high_score: None,
                }
            },
            GameScreen::Paused => {
                if input.pause {
                    self.screen = GameScreen::Playing;
                }
                FrameOutput {
                    quit: false,
                    fired: false,
                    explosions: Vec::new(),
                    persist_high_score: None,
                }
            },
            GameScreen::GameOver => {
                if input.acknowledge {
                    self.screen = GameScreen::MainMenu;
                    self.reached_high_score = false;
                }
                FrameOutput {
                    quit: false,
                    fired: false,
                    explosions: Vec::new(),
                    persist_high_score: None,
                }
            },
            GameScreen::Playing => self.playing_frame(input, dt_ms, screen_w, screen_h),
        }
    }

    /// The simulation branch of `frame`; see `playing_outcome` for exactly
    /// what one playing frame does.
    #[verifier::rlimit(80)]
    fn playing_frame(
        &mut self,
        input: &FrameInput,
        dt_ms: u32,
        screen_w: i64,
        screen_h: i64,
    ) -> (out: FrameOutput)
        requires
            old(self).wf(),
            old(self).screen == GameScreen::Playing,
            screen_w >= 1,
            screen_h >= 1,
        ensures
            final(self).wf(),
            final(self).score >= old(self).score,
            final(self).high_score >= old(self).high_score,
            exists|sp: Option<Entity>|
                #[trigger] playing_outcome(
                    *old(self),
                    *final(self),
                    *input,
                    out,
                    dt_ms as int,
                    screen_w as int,
                    screen_h as int,
                    sp,
                ),
    {
        let ghost pre = *old(self);
        let ghost dt = dt_ms as int;

        // Held directions move the ship; a fired projectile starts at this
        // pre-clamp position, before the bounds are applied.
        let moved = move_player(&self.player, input, dt_ms);
        self.player = moved;
        if input.fire {
            let b = fire_projectile(&self.player);
            self.projectiles.push(b);
        }
        let clamped = clamp_player(&self.player, screen_w, screen_h);
        self.player = clamped;
        let ghost projs0 = self.projectiles@;

        // Spawn, then integrate motion for everything that now exists.
        let sp = maybe_spawn(&mut self.rng, screen_w);
        let ghost gsp = sp;
        match sp {
            Some(e) => self.enemies.push(e),
            None => {},
        }
        let ghost enemies0 = self.enemies@;
        advance_enemies(&mut self.enemies, dt_ms);
        advance_projectiles(&mut self.projectiles, dt_ms);

        proof {
            assert(self.enemies@ =~= Seq::new(enemies0.len(), |k: int| enemies0[k].moved_down(dt)));
            assert(self.projectiles@ =~= Seq::new(projs0.len(), |k: int| projs0[k].moved_up(dt)));
            assert(forall|k: int|
                0 <= k < self.enemies@.len() ==> (#[trigger] self.enemies@[k]).wf());
        }
        let ghost start = ResolveState {
            projectiles: self.projectiles@,
            enemies: self.enemies@,
            score: self.score as int,
            high_score: self.high_score as int,
            explosions: Seq::empty(),
        };

        let explosions = resolve_collisions(
            &mut self.projectiles,
            &mut self.enemies,
            &mut self.score,
            &mut self.high_score,
        );
        let ghost r = resolve_from(start, 0);
        proof {
            lemma_resolve_marks_once(start, 0);
            assert(forall|k: int|
                0 <= k < self.enemies@.len() ==> (#[trigger] self.enemies@[k]).wf()) by {
                assert(forall|k: int|
                    0 <= k < r.enemies.len() ==> r.enemies[k] == start.enemies[k] || r.enemies[k]
                        == mark(start.enemies[k]));
            }
            assert(forall|k: int|
                0 <= k < self.projectiles@.len() ==> (#[trigger] self.projectiles@[k]).wf()) by {
                assert(forall|k: int|
                    0 <= k < r.projectiles.len() ==> r.projectiles[k] == start.projectiles[k]
                        || r.projectiles[k] == mark(start.projectiles[k]));
            }
        }

        cleanup_enemies(&mut self.enemies, screen_w);
        cleanup_projectiles(&mut self.projectiles);
        proof {
            crate::cleanup::lemma_cleanup_wf(r.enemies, r.projectiles, screen_w as int);
        }

        let hit = player_hit(&self.player, &self.enemies);
        let mut persist: Option<u32> = None;
        if hit {
            self.screen = GameScreen::GameOver;
            if self.score == self.high_score {
                persist = Some(self.high_score);
                self.reached_high_score = true;
            }
        } else if input.pause {
            self.screen = GameScreen::Paused;
        }
        let out = FrameOutput {
            quit: false,
            fired: input.fire,
            explosions,
            persist_high_score: persist,
        };
        proof {
            let now = *self;
            let w = screen_w as int;
            let h = screen_h as int;
            assert(start =~= sim_start(pre, *input, dt, gsp));
            let rr = sim_result(pre, *input, dt, gsp);
            assert(rr == r);
            assert(now.player == player_clamped(player_moved(pre.player, *input, dt), w, h));
            assert(now.enemies@ == cleaned_enemies(rr.enemies, w));
            assert(now.projectiles@ == cleaned_projectiles(rr.projectiles));
            assert(now.score as int == rr.score);
            assert(now.high_score as int == rr.high_score);
            assert(out.explosions@ == rr.explosions);
            assert(playing_outcome(pre, now, *input, out, dt, w, h, gsp));
        }
        out
    }
}

} // verus!
