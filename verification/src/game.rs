//! The simulation engine: the full game state and the per-tick update,
//! input handling and spawn rules that drive it.

use vstd::prelude::*;
use crate::entities::{
    Archetype, Boss, Bullet, Command, Enemy, Explosion, Powerup, PowerupKind, hit_points,
    score_value, spec_hit_points, spec_score_value, WIDTH, HEIGHT, LASER_HITBOX_WIDTH,
    MAX_LIVES, MAX_PLAYER_BULLETS, POWERUP_DURATION, ENEMY_SHOOT_PERIOD, ENEMY_BULLET_CAP,
    BOSS_BULLET_CAP, BOSS_SHOOT_PERIOD, BOSS_MOVE_PERIOD, POWERUP_SPAWN_SECS, HEALTH_ENEMY_SECS,
};
use crate::rng::random_below;

verus! {

/// The whole state of one run. The fields are the snapshot the
/// presentation driver renders.
pub struct Game {
    /// Player column, clamped to `[0, WIDTH - 1]`.
    pub player: usize,
    /// The current regular enemy wave.
    pub enemies: Vec<Enemy>,
    /// All bullets in flight, the player's and the enemies' alike.
    pub bullets: Vec<Bullet>,
    /// Powerups on screen; the spawn policy keeps at most one.
    pub powerups: Vec<Powerup>,
    /// Transient explosion markers.
    pub explosions: Vec<Explosion>,
    /// Monotonically non-decreasing score of the run.
    pub score: u32,
    /// Best score of any earlier run, as loaded at start.
    pub high_score: u32,
    /// Current level; grows by one per cleared wave.
    pub level: usize,
    /// Lives left; the run ends at zero, and five is the cap.
    pub lives: usize,
    /// Ticks since the enemies last moved.
    pub enemy_move_counter: usize,
    /// The effect currently modifying the player's fire, if any.
    pub powerup_active: Option<PowerupKind>,
    /// Ticks the active effect has left.
    pub powerup_timer: u8,
    /// Elapsed second at which the last powerup appeared.
    pub last_powerup_secs: u64,
    /// Elapsed second at which the last bonus health enemy appeared.
    pub last_health_enemy_secs: u64,
    /// Ticks since the powerups last moved.
    pub powerup_move_counter: usize,
    /// While set, ticks and commands other than unpausing do nothing.
    pub paused: bool,
    /// The boss encounter, present only on boss levels.
    pub boss: Option<Boss>,
}

impl Game {
    /// The state invariant: every entity is well formed, lives respect
    /// their cap, at most one powerup is on screen, an active countdown
    /// implies an active effect, the movement cadence counters stay below
    /// their thresholds, and a boss never coexists with a regular wave.
    pub open spec fn wf(self) -> bool {
        &&& self.player < WIDTH
        &&& self.lives <= MAX_LIVES
        &&& forall|i: int| 0 <= i < self.bullets@.len() ==> (#[trigger] self.bullets@[i]).wf()
        &&& forall|i: int| 0 <= i < self.enemies@.len() ==> (#[trigger] self.enemies@[i]).wf()
        &&& forall|i: int| 0 <= i < self.powerups@.len() ==> (#[trigger] self.powerups@[i]).wf()
        &&& forall|i: int|
            0 <= i < self.explosions@.len() ==> (#[trigger] self.explosions@[i]).wf()
        &&& self.powerups@.len() <= 1
        &&& self.powerup_timer > 0 ==> self.powerup_active is Some
        &&& self.enemy_move_counter < 20
        &&& self.powerup_move_counter < 20
        &&& match self.boss {
            Some(b) => b.wf() && self.enemies@.len() == 0,
            None => true,
        }
    }

    /// A fresh run: player centred, no entities, three lives, and the
    /// level at its starting value so the first wave is already sizeable.
    pub fn new(high_score: u32) -> (g: Game)
        ensures
            g.wf(),
            g.player == WIDTH / 2,
            g.enemies@.len() == 0,
            g.bullets@.len() == 0,
            g.powerups@.len() == 0,
            g.explosions@.len() == 0,
            g.score == 0,
            g.high_score == high_score,
            g.level == 4,
            g.lives == 3,
            g.enemy_move_counter == 0,
            g.powerup_active is None,
            g.powerup_timer == 0,
            g.last_powerup_secs == 0,
            g.last_health_enemy_secs == 0,
            g.powerup_move_counter == 0,
            !g.paused,
            g.boss is None,
    {
        Game {
            player: WIDTH / 2,
            enemies: Vec::new(),
            bullets: Vec::new(),
            powerups: Vec::new(),
            explosions: Vec::new(),
            score: 0,
            high_score,
            level: 4,
            lives: 3,
            enemy_move_counter: 0,
            powerup_active: None,
            powerup_timer: 0,
            last_powerup_secs: 0,
            last_health_enemy_secs: 0,
            powerup_move_counter: 0,
            paused: false,
            boss: None,
        }
    }

    /// The run is over exactly when no lives are left.
    pub fn is_game_over(&self) -> (r: bool)
        ensures
            r == (self.lives == 0),
    {
        self.lives == 0
    }
}

/// The boss a cleared level brings: centred near the top, healthy in
/// proportion to the level, in its first phase.
pub open spec fn spec_spawn_boss(level: usize) -> Boss {
    let mh = if 50 + level * 10 <= u16::MAX { (50 + level * 10) as u16 } else { u16::MAX };
    Boss {
        x: WIDTH / 2,
        y: 3,
        health: mh,
        max_health: mh,
        phase: 1,
        shoot_timer: 0,
        direction: 1,
        move_timer: 0,
    }
}

impl Game {
    /// Replace the cleared wave with the level's boss. Bosses spawn only
    /// once the regular wave is gone, which keeps the boss and a wave
    /// mutually exclusive.
    pub fn spawn_boss(&mut self)
        requires
            old(self).wf(),
            old(self).enemies@.len() == 0,
        ensures
            final(self).wf(),
            final(self).boss == Some(spec_spawn_boss(old(self).level)),
            *final(self) == (Game { boss: final(self).boss, ..*old(self) }),
    {
        let level_part = if self.level <= (u16::MAX as usize - 50) / 10 {
            (self.level * 10) as u16
        } else {
            u16::MAX - 50
        };
        let max_health: u16 = 50 + level_part;
        assert(max_health == spec_spawn_boss(self.level).max_health);
        self.boss = Some(Boss {
            x: WIDTH / 2,
            y: 3,
            health: max_health,
            max_health,
            phase: 1,
            shoot_timer: 0,
            direction: 1,
            move_timer: 0,
        });
    }
}

/// The state the bullet pass of one tick threads from bullet to bullet.
pub struct BulletsPass {
    pub bullets: Seq<Bullet>,
    pub powerups: Seq<Powerup>,
    pub powerup_active: Option<PowerupKind>,
    pub powerup_timer: u8,
    pub lives: usize,
}

/// The bullet pass state a tick starts from: no bullets resolved yet.
pub open spec fn spec_bullets_init(g: Game) -> BulletsPass {
    BulletsPass {
        bullets: Seq::empty(),
        powerups: g.powerups@,
        powerup_active: g.powerup_active,
        powerup_timer: g.powerup_timer,
        lives: g.lives,
    }
}

/// Resolve one bullet: it advances one row (player bullets up, enemy
/// bullets down, saturating at the arena's edge rows); a player bullet
/// landing exactly on the powerup collects it; an enemy bullet reaching
/// the player's row within the three-column band around the player costs
/// one life and is spent; and only bullets strictly inside rows
/// `1..HEIGHT` stay in flight.
pub open spec fn spec_bullet_step(st: BulletsPass, b: Bullet, player: usize) -> BulletsPass {
    let m = Bullet {
        y: if b.from_enemy {
            b.y.saturating_add(1)
        } else {
            b.y.saturating_sub(1)
        },
        ..b
    };
    let collected = !m.from_enemy && st.powerups.len() > 0 && st.powerups[0].x == m.x
        && st.powerups[0].y == m.y;
    let powerups = if collected {
        Seq::<Powerup>::empty()
    } else {
        st.powerups
    };
    let powerup_active = if collected {
        Some(st.powerups[0].kind)
    } else {
        st.powerup_active
    };
    let powerup_timer = if collected {
        POWERUP_DURATION
    } else {
        st.powerup_timer
    };
    if m.from_enemy && m.y == HEIGHT - 1 && (m.x == player || m.x == player - 1 || m.x == player
        + 1) {
        BulletsPass {
            bullets: st.bullets,
            powerups,
            powerup_active,
            powerup_timer,
            lives: st.lives.saturating_sub(1),
        }
    } else if 0 < m.y && m.y < HEIGHT {
        BulletsPass { bullets: st.bullets.push(m), powerups, powerup_active, powerup_timer, lives: st.lives }
    } else {
        BulletsPass { bullets: st.bullets, powerups, powerup_active, powerup_timer, lives: st.lives }
    }
}

/// Fold [`spec_bullet_step`] over the bullets in flight, in order.
pub open spec fn spec_bullets_pass(bs: Seq<Bullet>, player: usize, st: BulletsPass) -> BulletsPass
    decreases bs.len(),
{
    if bs.len() == 0 {
        st
    } else {
        spec_bullet_step(spec_bullets_pass(bs.drop_last(), player, st), bs.last(), player)
    }
}

/// Ticks between movement steps of powerups and enemies: higher levels
/// move faster, with a floor of five ticks.
pub open spec fn spec_cadence(level: usize) -> int {
    20 - if level < 15 {
        level as int
    } else {
        15
    }
}

/// One movement step of the powerups on screen (the spawn policy keeps
/// at most one): it drifts one row down, and falls away past the bottom.
pub open spec fn spec_moved_powerups(ps: Seq<Powerup>) -> Seq<Powerup> {
    if ps.len() == 0 {
        ps
    } else {
        let m = Powerup { y: (ps[0].y + 1) as usize, ..ps[0] };
        if m.y < HEIGHT {
            seq![m]
        } else {
            Seq::empty()
        }
    }
}

/// The state the enemy pass of one tick threads from enemy to enemy.
pub struct EnemiesPass {
    pub enemies: Seq<Enemy>,
    pub bullets: Seq<Bullet>,
    pub explosions: Seq<Explosion>,
    pub score: u32,
    pub lives: usize,
}

/// The enemy pass state a tick starts from: no enemies resolved yet.
pub open spec fn spec_enemies_init(g: Game) -> EnemiesPass {
    EnemiesPass {
        enemies: Seq::empty(),
        bullets: g.bullets@,
        explosions: g.explosions@,
        score: g.score,
        lives: g.lives,
    }
}

/// Whether a bullet strikes an enemy: a player bullet on the enemy's row
/// whose hit band, `LASER_HITBOX_WIDTH` columns across, covers the
/// enemy's column.
pub open spec fn spec_bullet_hits_enemy(b: Bullet, e: Enemy) -> bool {
    !b.from_enemy && b.x - LASER_HITBOX_WIDTH / 2 <= e.x <= b.x + LASER_HITBOX_WIDTH / 2
        && b.y == e.y
}

pub open spec fn spec_any_hit(bs: Seq<Bullet>, e: Enemy) -> bool {
    exists|i: int| 0 <= i < bs.len() && spec_bullet_hits_enemy(bs[i], e)
}

/// Resolve one enemy: a striking player bullet costs it one hit point
/// (the bullet flies on); at zero it dies, leaving an explosion, its
/// archetype's score, and a bonus life if it was a health carrier. A
/// shooter or bomber then runs its shoot cooldown and, at the threshold,
/// fires one or three downward bullets, subject to the global enemy
/// bullet cap. Survivors are kept in order.
pub open spec fn spec_enemy_step(st: EnemiesPass, e: Enemy) -> EnemiesPass {
    let hit = spec_any_hit(st.bullets, e);
    let killed = hit && e.health == 1;
    let e1 = if hit {
        Enemy { health: (e.health - 1) as u8, ..e }
    } else {
        e
    };
    let explosions = if killed {
        st.explosions.push(Explosion { x: e.x, y: e.y, age: 0 })
    } else {
        st.explosions
    };
    let score = if killed {
        st.score.saturating_add(spec_score_value(e.kind))
    } else {
        st.score
    };
    let lives = if killed && e.kind == Archetype::Health {
        if st.lives + 1 <= MAX_LIVES {
            (st.lives + 1) as usize
        } else {
            MAX_LIVES
        }
    } else {
        st.lives
    };
    let shoots = e.kind == Archetype::Shooter || e.kind == Archetype::Bomber;
    let t1 = if shoots {
        (e1.shoot_timer + 1) as u8
    } else {
        e1.shoot_timer
    };
    let fires = shoots && t1 >= ENEMY_SHOOT_PERIOD;
    let t2 = if fires {
        0u8
    } else {
        t1
    };
    let bullets = if fires && st.bullets.len() < ENEMY_BULLET_CAP {
        let down_y = e.y.saturating_add(1);
        let b1 = st.bullets.push(Bullet { x: e.x, y: down_y, from_enemy: true });
        if e.kind == Archetype::Bomber {
            b1.push(Bullet { x: e.x.saturating_sub(1), y: down_y, from_enemy: true }).push(
                Bullet {
                    x: if e.x + 1 < WIDTH {
                        (e.x + 1) as usize
                    } else {
                        (WIDTH - 1) as usize
                    },
                    y: down_y,
                    from_enemy: true,
                },
            )
        } else {
            b1
        }
    } else {
        st.bullets
    };
    let e2 = Enemy { shoot_timer: t2, ..e1 };
    EnemiesPass {
        enemies: if killed {
            st.enemies
        } else {
            st.enemies.push(e2)
        },
        bullets,
        explosions,
        score,
        lives,
    }
}

/// Fold [`spec_enemy_step`] over the wave, in order.
pub open spec fn spec_enemies_pass(es: Seq<Enemy>, st: EnemiesPass) -> EnemiesPass
    decreases es.len(),
{
    if es.len() == 0 {
        st
    } else {
        spec_enemy_step(spec_enemies_pass(es.drop_last(), st), es.last())
    }
}

/// Saturating product, for wave sizes at extreme levels.
pub open spec fn sat_mul_usize(a: usize, b: usize) -> usize {
    if a * b <= usize::MAX {
        (a * b) as usize
    } else {
        usize::MAX
    }
}

/// Column of the grid enemy at row-major index `i` of a fresh wave:
/// spread evenly by a stride of `WIDTH / (cols + 1)` and wrapped into
/// the arena.
pub open spec fn spec_grid_x(i: int, cols: int) -> usize {
    ((((i % cols) % (WIDTH as int)) * (WIDTH as int / (cols + 1)) + 5) % (WIDTH as int)) as usize
}

/// Row of the grid enemy at row-major index `i` of a fresh wave: two
/// rows of vertical stride from row three down, saturating at extreme
/// levels.
pub open spec fn spec_grid_y(i: int, cols: int) -> usize {
    if (i / cols) * 2 + 3 <= usize::MAX {
        ((i / cols) * 2 + 3) as usize
    } else {
        usize::MAX
    }
}

/// Rows of a fresh wave at the given level.
pub open spec fn spec_wave_rows(level: usize) -> usize {
    (1 + level / 3) as usize
}

/// Columns of a fresh wave at the given level.
pub open spec fn spec_wave_cols(level: usize) -> usize {
    (3 + level / 3) as usize
}

/// Whether a tick at the given elapsed second is due a bonus health
/// enemy on the next fresh wave.
pub open spec fn spec_health_due(last_secs: u64, now_secs: u64) -> bool {
    now_secs >= last_secs.saturating_add(HEALTH_ENEMY_SECS)
}

/// The deterministic movement step of one enemy, per its archetype:
/// straight descenders gain one row; the zigzag drifts right on rows
/// `0,1 (mod 4)` and left otherwise, wrapping horizontally; the wave and
/// the diagonal drift one column right, wrapping (the wave's sine offset
/// truncates to zero at integer precision, since the sine never reaches
/// one at half-integer arguments); the rusher gains two rows. A
/// teleporter that does not jump descends like the rest; its random jump
/// is the one motion outside this function.
pub open spec fn spec_move_enemy(e: Enemy) -> Enemy {
    match e.kind {
        Archetype::Zigzag => Enemy {
            x: (((e.x + if e.y % 4 < 2 {
                1int
            } else {
                WIDTH - 1
            }) % (WIDTH as int)) as usize),
            y: e.y.saturating_add(1),
            ..e
        },
        Archetype::Wave | Archetype::Diagonal => Enemy {
            x: (((e.x + 1) % (WIDTH as int)) as usize),
            y: e.y.saturating_add(1),
            ..e
        },
        Archetype::Fast => Enemy { y: e.y.saturating_add(2), ..e },
        _ => Enemy { y: e.y.saturating_add(1), ..e },
    }
}

/// How a moved enemy relates to its old self: the deterministic step of
/// its archetype, or — for a teleporter only — a jump to a random column
/// and a row in the top half of the arena.
pub open spec fn spec_moved_rel(a: Enemy, b: Enemy) -> bool {
    ||| b == spec_move_enemy(a)
    ||| {
        &&& a.kind == Archetype::Teleporter
        &&& b.kind == a.kind
        &&& b.health == a.health
        &&& b.shoot_timer == a.shoot_timer
        &&& b.x < WIDTH
        &&& b.y < HEIGHT / 2
    }
}

/// Law: one movement step keeps an enemy inside the arena's columns and
/// never moves it upward, whichever archetype moves; only a teleporter's
/// random jump may raise it, and even that lands inside the arena.
pub proof fn lemma_enemy_motion(a: Enemy, b: Enemy)
    requires
        a.wf(),
        spec_moved_rel(a, b),
    ensures
        b.x < WIDTH,
        b == spec_move_enemy(a) ==> b.y >= a.y,
        b.wf(),
{
}

/// Levels whose cleared predecessor brings a boss rather than a wave.
pub open spec fn spec_boss_level(level: usize) -> bool {
    level >= 5 && level % 5 == 0
}

/// Clamp a would-be column to the arena.
pub open spec fn spec_clamp_col(v: int) -> usize {
    if v < 0 {
        0
    } else if v < WIDTH {
        v as usize
    } else {
        (WIDTH - 1) as usize
    }
}

/// The boss's shooting step: its cooldown advances, and at the
/// threshold it resets and fires one, three or five downward bullets by
/// phase — the flanks two and four columns out, clamped to the arena —
/// subject to the global boss bullet cap.
pub open spec fn spec_boss_shoot(b: Boss, bs: Seq<Bullet>) -> (Boss, Seq<Bullet>) {
    let t: int = b.shoot_timer + 1;
    if t >= BOSS_SHOOT_PERIOD {
        let b2 = Boss { shoot_timer: 0, ..b };
        if bs.len() < BOSS_BULLET_CAP {
            let down_y = b.y.saturating_add(1);
            let s1 = bs.push(Bullet { x: b.x, y: down_y, from_enemy: true });
            let s2 = if b.phase >= 2 {
                s1.push(Bullet { x: spec_clamp_col(b.x - 2), y: down_y, from_enemy: true }).push(
                    Bullet { x: spec_clamp_col(b.x + 2), y: down_y, from_enemy: true },
                )
            } else {
                s1
            };
            let s3 = if b.phase >= 3 {
                s2.push(Bullet { x: spec_clamp_col(b.x - 4), y: down_y, from_enemy: true }).push(
                    Bullet { x: spec_clamp_col(b.x + 4), y: down_y, from_enemy: true },
                )
            } else {
                s2
            };
            (b2, s3)
        } else {
            (b2, bs)
        }
    } else {
        (Boss { shoot_timer: t as u8, ..b }, bs)
    }
}

/// The boss's movement step: its cooldown advances, and at the
/// threshold it resets, the direction reverses at either arena edge,
/// and the boss steps one column, clamped to the arena.
pub open spec fn spec_boss_move(b: Boss) -> Boss {
    let t: int = b.move_timer + 1;
    if t >= BOSS_MOVE_PERIOD {
        let dir = if b.x == 0 || b.x == WIDTH - 1 {
            (-b.direction) as i8
        } else {
            b.direction
        };
        Boss { move_timer: 0, direction: dir, x: spec_clamp_col(b.x + dir), ..b }
    } else {
        Boss { move_timer: t as u32, ..b }
    }
}

/// The state the boss collision pass threads from bullet to bullet.
pub struct BossPass {
    pub boss: Option<Boss>,
    pub explosions: Seq<Explosion>,
    pub score: u32,
}

/// Resolve one bullet against the boss: a player bullet on the boss's
/// row whose five-column band covers the boss costs it one health
/// point; at zero the boss dies, leaving an explosion and a large score
/// bonus; crossing the two-thirds or one-third health mark advances the
/// phase. Once the boss is gone the rest of the pass changes nothing.
pub open spec fn spec_boss_hit_step(st: BossPass, blt: Bullet) -> BossPass {
    match st.boss {
        None => st,
        Some(b) => {
            if !blt.from_enemy && blt.x - 2 <= b.x <= blt.x + 2 && blt.y == b.y {
                let h = b.health.saturating_sub(1);
                if h == 0 {
                    BossPass {
                        boss: None,
                        explosions: st.explosions.push(Explosion { x: b.x, y: b.y, age: 0 }),
                        score: st.score.saturating_add(1000),
                    }
                } else {
                    let ph = if h == b.max_health * 2 / 3 {
                        2u8
                    } else if h == b.max_health / 3 {
                        3u8
                    } else {
                        b.phase
                    };
                    BossPass { boss: Some(Boss { health: h, phase: ph, ..b }), ..st }
                }
            } else {
                st
            }
        },
    }
}

/// Fold [`spec_boss_hit_step`] over the bullets in flight, in order.
pub open spec fn spec_boss_hits(bs: Seq<Bullet>, st: BossPass) -> BossPass
    decreases bs.len(),
{
    if bs.len() == 0 {
        st
    } else {
        spec_boss_hit_step(spec_boss_hits(bs.drop_last(), st), bs.last())
    }
}

/// One tick of explosion ageing: every marker ages by one, and those
/// older than two ticks fade away.
pub open spec fn spec_aged_explosions(es: Seq<Explosion>) -> Seq<Explosion>
    decreases es.len(),
{
    if es.len() == 0 {
        es
    } else {
        let rest = spec_aged_explosions(es.drop_last());
        let e = Explosion { age: (es.last().age + 1) as u8, ..es.last() };
        if e.age < 3 {
            rest.push(e)
        } else {
            rest
        }
    }
}

/// How the powerup countdown step relates the state before to the state
/// after: the countdown runs down while the effect lasts, and the effect
/// clears once it reaches zero.
pub open spec fn spec_rel_powerup_timer(a: Game, b: Game) -> bool {
    b == (Game {
        powerup_active: if a.powerup_active is Some && a.powerup_timer == 0 {
            None
        } else {
            a.powerup_active
        },
        powerup_timer: if a.powerup_active is Some && a.powerup_timer > 0 {
            (a.powerup_timer - 1) as u8
        } else {
            a.powerup_timer
        },
        ..a
    })
}

/// How the bullet step relates states: exactly the fold of
/// [`spec_bullet_step`] over the old bullets, with everything else
/// untouched.
pub open spec fn spec_rel_move_bullets(a: Game, b: Game) -> bool {
    let r = spec_bullets_pass(a.bullets@, a.player, spec_bullets_init(a));
    &&& b.bullets@ == r.bullets
    &&& b.powerups@ == r.powerups
    &&& b.powerup_active == r.powerup_active
    &&& b.powerup_timer == r.powerup_timer
    &&& b.lives == r.lives
    &&& b == (Game {
        bullets: b.bullets,
        powerups: b.powerups,
        powerup_active: b.powerup_active,
        powerup_timer: b.powerup_timer,
        lives: b.lives,
        ..a
    })
}

/// How the powerup drift step relates states: on the cadence the
/// powerups move one row down and the counter resets; otherwise only the
/// counter advances.
pub open spec fn spec_rel_move_powerups(a: Game, b: Game) -> bool {
    &&& if a.powerup_move_counter + 1 >= spec_cadence(a.level) {
        &&& b.powerup_move_counter == 0
        &&& b.powerups@ == spec_moved_powerups(a.powerups@)
    } else {
        &&& b.powerup_move_counter == a.powerup_move_counter + 1
        &&& b.powerups@ == a.powerups@
    }
    &&& b == (Game {
        powerups: b.powerups,
        powerup_move_counter: b.powerup_move_counter,
        ..a
    })
}

/// How the enemy collision step relates states: exactly the fold of
/// [`spec_enemy_step`] over the old wave, with everything else
/// untouched.
pub open spec fn spec_rel_collide_enemies(a: Game, b: Game) -> bool {
    let r = spec_enemies_pass(a.enemies@, spec_enemies_init(a));
    &&& b.enemies@ == r.enemies
    &&& b.bullets@ == r.bullets
    &&& b.explosions@ == r.explosions
    &&& b.score == r.score
    &&& b.lives == r.lives
    &&& b == (Game {
        enemies: b.enemies,
        bullets: b.bullets,
        explosions: b.explosions,
        score: b.score,
        lives: b.lives,
        ..a
    })
}

/// How the boss step relates states: absent a boss nothing changes; with
/// one, shooting, movement and bullet hits resolve exactly as
/// [`spec_boss_shoot`], [`spec_boss_move`] and [`spec_boss_hits`] say,
/// in that order.
pub open spec fn spec_rel_step_boss(a: Game, b: Game) -> bool {
    &&& (a.boss is None ==> b == a)
    &&& (match a.boss {
        Some(bs) => ({
            let sh = spec_boss_shoot(bs, a.bullets@);
            let r = spec_boss_hits(
                sh.1,
                BossPass {
                    boss: Some(spec_boss_move(sh.0)),
                    explosions: a.explosions@,
                    score: a.score,
                },
            );
            &&& b.bullets@ == sh.1
            &&& b.boss == r.boss
            &&& b.explosions@ == r.explosions
            &&& b.score == r.score
        }),
        None => true,
    })
    &&& b == (Game {
        bullets: b.bullets,
        boss: b.boss,
        explosions: b.explosions,
        score: b.score,
        ..a
    })
}

/// How the explosion ageing step relates states.
pub open spec fn spec_rel_age_explosions(a: Game, b: Game) -> bool {
    &&& b.explosions@ == spec_aged_explosions(a.explosions@)
    &&& b == (Game { explosions: b.explosions, ..a })
}

/// How the powerup spawn step relates states: once the wall-clock
/// cooldown has elapsed and no powerup is on screen, one appears at the
/// top row — its column and kind are the step's randomness — and the
/// cooldown restarts; otherwise nothing changes.
pub open spec fn spec_rel_create_powerup(a: Game, b: Game, now_secs: u64) -> bool {
    let due = now_secs >= a.last_powerup_secs.saturating_add(POWERUP_SPAWN_SECS)
        && a.powerups@.len() == 0;
    &&& (due ==> b.powerups@.len() == 1 && b.powerups@[0].y == 0 && b.powerups@[0].x < WIDTH
        && b.last_powerup_secs == now_secs)
    &&& (!due ==> b.powerups@ == a.powerups@ && b.last_powerup_secs == a.last_powerup_secs)
    &&& b == (Game {
        powerups: b.powerups,
        last_powerup_secs: b.last_powerup_secs,
        ..a
    })
}

/// What a fresh enemy wave looks like: the row-major grid of the
/// level's size, each enemy at its computed position with its
/// archetype's full hit points and a cooldown below the firing
/// threshold — the archetypes themselves are drawn at random — plus the
/// bonus health enemy appended when one is due.
pub open spec fn spec_fresh_wave(
    es: Seq<Enemy>,
    level: usize,
    last_health_secs: u64,
    now_secs: u64,
) -> bool {
    let cols = spec_wave_cols(level);
    let base = sat_mul_usize(spec_wave_rows(level), cols);
    let bonus = spec_health_due(last_health_secs, now_secs);
    &&& es.len() == base + if bonus {
        1int
    } else {
        0int
    }
    &&& forall|k: int|
        0 <= k < base ==> {
            &&& (#[trigger] es[k]).wf()
            &&& es[k].kind != Archetype::Health
            &&& es[k].health == spec_hit_points(es[k].kind)
            &&& es[k].x == spec_grid_x(k, cols as int)
            &&& es[k].y == spec_grid_y(k, cols as int)
        }
    &&& (bonus ==> {
        &&& es[base as int].wf()
        &&& es[base as int].kind == Archetype::Health
        &&& es[base as int].y == 0
        &&& es[base as int].health == 1
        &&& es[base as int].shoot_timer == 0
    })
}

/// How the enemy movement step relates the state before to the state
/// after. Short of the cadence only the counter advances. On the
/// cadence, a cleared field levels up, grants a bonus life and brings
/// the level's boss or a fresh wave, whose archetypes are the step's
/// randomness; otherwise every enemy moves by [`spec_moved_rel`], and a
/// wave that reached the second-to-last row costs a life and respawns
/// whole.
pub open spec fn spec_rel_advance_wave(a: Game, b: Game, now_secs: u64) -> bool {
    &&& b.score == a.score
    &&& b.level >= a.level
    &&& b.high_score == a.high_score
    &&& b.player == a.player
    &&& b.paused == a.paused
    &&& b.bullets == a.bullets
    &&& b.powerups == a.powerups
    &&& b.explosions == a.explosions
    &&& b.powerup_active == a.powerup_active
    &&& b.powerup_timer == a.powerup_timer
    &&& b.powerup_move_counter == a.powerup_move_counter
    &&& b.last_powerup_secs == a.last_powerup_secs
    &&& (a.enemy_move_counter + 1 < spec_cadence(a.level) ==> b == (Game {
        enemy_move_counter: (a.enemy_move_counter + 1) as usize,
        ..a
    }))
    &&& (a.enemy_move_counter + 1 >= spec_cadence(a.level) ==> b.enemy_move_counter == 0)
    &&& ((a.enemy_move_counter + 1 >= spec_cadence(a.level) && a.enemies@.len() == 0
        && a.boss is None) ==> {
        &&& b.level == a.level.saturating_add(1)
        &&& b.lives == if a.lives + 1 <= MAX_LIVES {
            (a.lives + 1) as usize
        } else {
            MAX_LIVES as usize
        }
        &&& (spec_boss_level(b.level) ==> b.boss == Some(spec_spawn_boss(b.level))
            && b.enemies@.len() == 0 && b.last_health_enemy_secs == a.last_health_enemy_secs)
        &&& (!spec_boss_level(b.level) ==> b.boss is None && spec_fresh_wave(
            b.enemies@,
            b.level,
            a.last_health_enemy_secs,
            now_secs,
        ) && b.last_health_enemy_secs == (if spec_health_due(a.last_health_enemy_secs, now_secs) {
            now_secs
        } else {
            a.last_health_enemy_secs
        }))
    })
    &&& ((a.enemy_move_counter + 1 >= spec_cadence(a.level) && !(a.enemies@.len() == 0
        && a.boss is None)) ==> {
        &&& b.level == a.level
        &&& b.boss == a.boss
        &&& ({
            // nobody reached the bottom: every enemy took one step
            ||| {
                &&& b.lives == a.lives
                &&& b.last_health_enemy_secs == a.last_health_enemy_secs
                &&& b.enemies@.len() == a.enemies@.len()
                &&& forall|k: int|
                    0 <= k < a.enemies@.len() ==> spec_moved_rel(
                        a.enemies@[k],
                        #[trigger] b.enemies@[k],
                    )
            }
            // an enemy reached the second-to-last row: a life is lost
            // and the whole wave respawns
            ||| {
                &&& b.lives == a.lives.saturating_sub(1)
                &&& spec_fresh_wave(b.enemies@, a.level, a.last_health_enemy_secs, now_secs)
                &&& b.last_health_enemy_secs == (if spec_health_due(
                    a.last_health_enemy_secs,
                    now_secs,
                ) {
                    now_secs
                } else {
                    a.last_health_enemy_secs
                })
            }
        })
    })
}

/// One unpaused tick, as the composition of the eight steps in their
/// fixed order: powerup countdown, bullets, powerup drift, enemy
/// collisions, enemy movement with progression, the boss, explosion
/// ageing, and the powerup spawn. The only freedom the relation leaves
/// is the randomness the steps themselves draw: teleporter jumps, the
/// make-up of a fresh wave, and a spawned powerup's column and kind.
pub open spec fn spec_tick_rel(a: Game, z: Game, now_secs: u64) -> bool {
    exists|g1: Game, g2: Game, g3: Game, g4: Game, g5: Game, g6: Game, g7: Game|
        {
            &&& #[trigger] spec_rel_powerup_timer(a, g1)
            &&& #[trigger] spec_rel_move_bullets(g1, g2)
            &&& #[trigger] spec_rel_move_powerups(g2, g3)
            &&& #[trigger] spec_rel_collide_enemies(g3, g4)
            &&& #[trigger] spec_rel_advance_wave(g4, g5, now_secs)
            &&& #[trigger] spec_rel_step_boss(g5, g6)
            &&& #[trigger] spec_rel_age_explosions(g6, g7)
            &&& spec_rel_create_powerup(g7, z, now_secs)
        }
}

/// Player bullets among the given bullets.
pub open spec fn count_player_bullets(bs: Seq<Bullet>) -> int
    decreases bs.len(),
{
    if bs.len() == 0 {
        0
    } else {
        count_player_bullets(bs.drop_last()) + if !bs.last().from_enemy {
            1int
        } else {
            0int
        }
    }
}

/// The bullets one fire command enqueues, left to right, on the row just
/// above the player: one without an effect or with a shield, the two
/// flanking columns with the multi laser, all three with the bigger
/// laser. Columns clamp at the arena bounds.
pub open spec fn spec_fired_bullets(player: usize, active: Option<PowerupKind>) -> Seq<Bullet> {
    let lx = player.saturating_sub(1);
    let rx = if player + 1 < WIDTH { (player + 1) as usize } else { (WIDTH - 1) as usize };
    let l = Bullet { x: lx, y: (HEIGHT - 2) as usize, from_enemy: false };
    let c = Bullet { x: player, y: (HEIGHT - 2) as usize, from_enemy: false };
    let r = Bullet { x: rx, y: (HEIGHT - 2) as usize, from_enemy: false };
    match active {
        Some(PowerupKind::BiggerLaser) => seq![l, c, r],
        Some(PowerupKind::MultiLaser) => seq![l, r],
        _ => seq![c],
    }
}

/// Where the player stands after one command: moves shift by one column,
/// clamped to the arena, and nothing moves while paused.
pub open spec fn spec_player_after(g: Game, cmd: Command) -> usize {
    if g.paused {
        g.player
    } else if cmd == Command::MoveLeft {
        g.player.saturating_sub(1)
    } else if cmd == Command::MoveRight {
        if g.player + 1 < WIDTH {
            (g.player + 1) as usize
        } else {
            (WIDTH - 1) as usize
        }
    } else {
        g.player
    }
}

/// The bullets in flight after one command: a fire command appends its
/// volley unless the player already has a full complement in flight;
/// every other command, and any command while paused, leaves them alone.
pub open spec fn spec_bullets_after(g: Game, cmd: Command) -> Seq<Bullet> {
    if !g.paused && cmd == Command::Fire && count_player_bullets(g.bullets@)
        < MAX_PLAYER_BULLETS {
        g.bullets@ + spec_fired_bullets(g.player, g.powerup_active)
    } else {
        g.bullets@
    }
}

/// Whether handling the command ends with the player standing on a
/// powerup that has descended to the player's row, collecting it. The
/// pause state after the command gates the check, so unpausing onto a
/// powerup collects it.
pub open spec fn spec_collects(g: Game, cmd: Command) -> bool {
    let p = spec_player_after(g, cmd);
    let paused = if cmd == Command::TogglePause {
        !g.paused
    } else {
        g.paused
    };
    !paused && g.powerups@.len() == 1 && g.powerups@[0].x == p && g.powerups@[0].y == (HEIGHT
        - 1) as usize
}

impl Game {
    /// Apply one discrete command: move, fire, or toggle pause; a quit is
    /// the driver's to act on. While paused only unpausing has an effect.
    /// Afterwards a powerup under the player is collected.
    pub fn handle_input(&mut self, cmd: Command)
        requires
            old(self).wf(),
        ensures
            final(self).wf(),
            final(self).player == spec_player_after(*old(self), cmd),
            final(self).paused == (if cmd == Command::TogglePause {
                !old(self).paused
            } else {
                old(self).paused
            }),
            final(self).bullets@ == spec_bullets_after(*old(self), cmd),
            // Law: firing with a full complement of player bullets in
            // flight leaves the bullets unchanged.
            cmd == Command::Fire && count_player_bullets(old(self).bullets@)
                >= MAX_PLAYER_BULLETS ==> final(self).bullets@ == old(self).bullets@,
            if spec_collects(*old(self), cmd) {
                &&& final(self).powerups@.len() == 0
                &&& final(self).powerup_active == Some(old(self).powerups@[0].kind)
                &&& final(self).powerup_timer == POWERUP_DURATION
            } else {
                &&& final(self).powerups@ == old(self).powerups@
                &&& final(self).powerup_active == old(self).powerup_active
                &&& final(self).powerup_timer == old(self).powerup_timer
            },
            final(self).enemies@ == old(self).enemies@,
            final(self).explosions@ == old(self).explosions@,
            final(self).score == old(self).score,
            final(self).high_score == old(self).high_score,
            final(self).level == old(self).level,
            final(self).lives == old(self).lives,
            final(self).enemy_move_counter == old(self).enemy_move_counter,
            final(self).powerup_move_counter == old(self).powerup_move_counter,
            final(self).last_powerup_secs == old(self).last_powerup_secs,
            final(self).last_health_enemy_secs == old(self).last_health_enemy_secs,
            final(self).boss == old(self).boss,
    {
        match cmd {
            Command::MoveLeft => {
                if !self.paused {
                    self.player = self.player.saturating_sub(1);
                }
            },
            Command::MoveRight => {
                if !self.paused {
                    if self.player + 1 < WIDTH {
                        self.player = self.player + 1;
                    } else {
                        self.player = WIDTH - 1;
                    }
                }
            },
            Command::Fire => {
                if !self.paused {
                    let in_flight = self.count_player_bullets_in_flight();
                    if in_flight < MAX_PLAYER_BULLETS {
                        let lx = self.player.saturating_sub(1);
                        let rx = if self.player + 1 < WIDTH {
                            self.player + 1
                        } else {
                            WIDTH - 1
                        };
                        let l = Bullet { x: lx, y: HEIGHT - 2, from_enemy: false };
                        let c = Bullet { x: self.player, y: HEIGHT - 2, from_enemy: false };
                        let r = Bullet { x: rx, y: HEIGHT - 2, from_enemy: false };
                        match self.powerup_active {
                            Some(PowerupKind::BiggerLaser) => {
                                self.bullets.push(l);
                                self.bullets.push(c);
                                self.bullets.push(r);
                            },
                            Some(PowerupKind::MultiLaser) => {
                                self.bullets.push(l);
                                self.bullets.push(r);
                            },
                            _ => {
                                self.bullets.push(c);
                            },
                        }
                        proof {
                            assert(self.bullets@ =~= old(self).bullets@ + spec_fired_bullets(
                                old(self).player,
                                old(self).powerup_active,
                            ));
                        }
                    }
                }
            },
            Command::TogglePause => {
                self.paused = !self.paused;
            },
            Command::Quit => {},
        }
        if !self.paused && self.powerups.len() > 0 {
            let p = self.powerups[0];
            if p.x == self.player && p.y == HEIGHT - 1 {
                self.powerup_active = Some(p.kind);
                self.powerup_timer = POWERUP_DURATION;
                self.powerups.clear();
            }
        }
    }

    /// Step one of a tick: run down the active powerup effect's
    /// countdown, and clear the effect once it reaches zero.
    pub fn tick_powerup_timer(&mut self)
        ensures
            spec_rel_powerup_timer(*old(self), *final(self)),
    {
        match self.powerup_active {
            Some(_) => {
                if self.powerup_timer > 0 {
                    self.powerup_timer = self.powerup_timer - 1;
                } else {
                    self.powerup_active = None;
                }
            },
            None => {},
        }
    }

    /// Step two of a tick: advance every bullet one cell along its
    /// direction and resolve what it meets, exactly as
    /// [`spec_bullets_pass`] folds over the old bullets in order.
    pub fn move_bullets(&mut self)
        requires
            old(self).wf(),
        ensures
            final(self).wf(),
            spec_rel_move_bullets(*old(self), *final(self)),
            final(self).lives <= old(self).lives,
    {
        let ghost obs = self.bullets@;
        let ghost init = spec_bullets_init(*old(self));
        let mut kept: Vec<Bullet> = Vec::new();
        let mut i: usize = 0;
        while i < self.bullets.len()
            invariant
                old(self).wf(),
                i <= obs.len(),
                self.bullets@ == obs,
                self.bullets == old(self).bullets,
                self.player == old(self).player,
                self.enemies == old(self).enemies,
                self.explosions == old(self).explosions,
                self.score == old(self).score,
                self.high_score == old(self).high_score,
                self.level == old(self).level,
                self.enemy_move_counter == old(self).enemy_move_counter,
                self.powerup_move_counter == old(self).powerup_move_counter,
                self.last_powerup_secs == old(self).last_powerup_secs,
                self.last_health_enemy_secs == old(self).last_health_enemy_secs,
                self.paused == old(self).paused,
                self.boss == old(self).boss,
                ({
                    let st = spec_bullets_pass(obs.take(i as int), old(self).player, init);
                    &&& kept@ == st.bullets
                    &&& self.powerups@ == st.powerups
                    &&& self.powerup_active == st.powerup_active
                    &&& self.powerup_timer == st.powerup_timer
                    &&& self.lives == st.lives
                }),
                self.lives <= old(self).lives,
                self.powerups@.len() <= 1,
                forall|k: int| 0 <= k < kept@.len() ==> (#[trigger] kept@[k]).wf(),
                forall|k: int| 0 <= k < self.powerups@.len() ==> (#[trigger] self.powerups@[k]).wf(),
                self.powerup_timer > 0 ==> self.powerup_active is Some,
            decreases obs.len() - i,
        {
            let b = self.bullets[i];
            proof {
                assert(obs.take(i + 1).drop_last() =~= obs.take(i as int));
                assert(obs.take(i + 1).last() == b);
                assert(old(self).bullets@[i as int].wf());
            }
            let ny = if b.from_enemy {
                b.y.saturating_add(1)
            } else {
                b.y.saturating_sub(1)
            };
            let m = Bullet { x: b.x, y: ny, from_enemy: b.from_enemy };
            if !m.from_enemy && self.powerups.len() > 0 {
                let p = self.powerups[0];
                if p.x == m.x && p.y == m.y {
                    self.powerup_active = Some(p.kind);
                    self.powerup_timer = POWERUP_DURATION;
                    self.powerups.clear();
                }
            }
            let lx = self.player.saturating_sub(1);
            if m.from_enemy && m.y == HEIGHT - 1 && (m.x == self.player || m.x == lx || m.x
                == self.player + 1) {
                self.lives = self.lives.saturating_sub(1);
            } else if 0 < m.y && m.y < HEIGHT {
                kept.push(m);
            }
            i = i + 1;
        }
        proof {
            assert(obs.take(obs.len() as int) =~= obs);
        }
        self.bullets = kept;
    }

    /// Step three of a tick: on the level-scaled cadence, drift every
    /// powerup one row down and drop those that fall past the bottom.
    pub fn move_powerups(&mut self)
        requires
            old(self).wf(),
        ensures
            final(self).wf(),
            spec_rel_move_powerups(*old(self), *final(self)),
    {
        let capped = if self.level < 15 {
            self.level
        } else {
            15
        };
        let cadence: usize = 20 - capped;
        self.powerup_move_counter = self.powerup_move_counter + 1;
        if self.powerup_move_counter >= cadence {
            self.powerup_move_counter = 0;
            if self.powerups.len() > 0 {
                let p = self.powerups[0];
                if p.y + 1 < HEIGHT {
                    let moved = Powerup { x: p.x, y: p.y + 1, kind: p.kind };
                    self.powerups.clear();
                    self.powerups.push(moved);
                    proof {
                        assert(self.powerups@ =~= spec_moved_powerups(old(self).powerups@));
                    }
                } else {
                    self.powerups.clear();
                }
            }
        }
    }

    /// Step four of a tick: resolve player bullets against the wave and
    /// let shooters and bombers run their shoot cooldowns, exactly as
    /// [`spec_enemies_pass`] folds over the old wave in order.
    pub fn collide_enemies(&mut self)
        requires
            old(self).wf(),
        ensures
            final(self).wf(),
            spec_rel_collide_enemies(*old(self), *final(self)),
            final(self).score >= old(self).score,
            final(self).lives >= old(self).lives,
            final(self).enemies@.len() <= old(self).enemies@.len(),
    {
        let ghost oes = self.enemies@;
        let ghost init = spec_enemies_init(*old(self));
        let mut kept: Vec<Enemy> = Vec::new();
        let mut i: usize = 0;
        while i < self.enemies.len()
            invariant
                old(self).wf(),
                i <= oes.len(),
                self.enemies@ == oes,
                self.enemies == old(self).enemies,
                self.powerups == old(self).powerups,
                self.player == old(self).player,
                self.high_score == old(self).high_score,
                self.level == old(self).level,
                self.enemy_move_counter == old(self).enemy_move_counter,
                self.powerup_active == old(self).powerup_active,
                self.powerup_timer == old(self).powerup_timer,
                self.powerup_move_counter == old(self).powerup_move_counter,
                self.last_powerup_secs == old(self).last_powerup_secs,
                self.last_health_enemy_secs == old(self).last_health_enemy_secs,
                self.paused == old(self).paused,
                self.boss == old(self).boss,
                ({
                    let st = spec_enemies_pass(oes.take(i as int), init);
                    &&& kept@ == st.enemies
                    &&& self.bullets@ == st.bullets
                    &&& self.explosions@ == st.explosions
                    &&& self.score == st.score
                    &&& self.lives == st.lives
                }),
                self.score >= old(self).score,
                self.lives >= old(self).lives,
                old(self).lives <= MAX_LIVES,
                self.lives <= MAX_LIVES,
                kept@.len() <= i,
                forall|k: int| 0 <= k < kept@.len() ==> (#[trigger] kept@[k]).wf(),
                forall|k: int| 0 <= k < self.bullets@.len() ==> (#[trigger] self.bullets@[k]).wf(),
                forall|k: int|
                    0 <= k < self.explosions@.len() ==> (#[trigger] self.explosions@[k]).wf(),
            decreases oes.len() - i,
        {
            let e = self.enemies[i];
            proof {
                assert(oes.take(i + 1).drop_last() =~= oes.take(i as int));
                assert(oes.take(i + 1).last() == e);
                assert(old(self).enemies@[i as int].wf());
            }
            // scan for a striking player bullet
            let mut hit = false;
            let mut j: usize = 0;
            while j < self.bullets.len()
                invariant
                    j <= self.bullets@.len(),
                    forall|k: int| 0 <= k < self.bullets@.len() ==> (#[trigger] self.bullets@[k]).wf(),
                    hit == exists|k: int|
                        0 <= k < j && spec_bullet_hits_enemy(self.bullets@[k], e),
                decreases self.bullets@.len() - j,
            {
                let b = self.bullets[j];
                if !b.from_enemy && b.x.saturating_sub(LASER_HITBOX_WIDTH / 2) <= e.x && e.x
                    <= b.x.saturating_add(LASER_HITBOX_WIDTH / 2) && b.y == e.y {
                    hit = true;
                    proof {
                        assert(spec_bullet_hits_enemy(self.bullets@[j as int], e));
                    }
                }
                j = j + 1;
            }
            proof {
                assert(hit == spec_any_hit(self.bullets@, e));
            }
            let killed = hit && e.health == 1;
            let e1 = if hit {
                Enemy { health: e.health - 1, ..e }
            } else {
                e
            };
            if killed {
                self.explosions.push(Explosion { x: e.x, y: e.y, age: 0 });
                self.score = self.score.saturating_add(score_value(e.kind));
                if e.kind == Archetype::Health {
                    if self.lives + 1 <= MAX_LIVES {
                        self.lives = self.lives + 1;
                    } else {
                        self.lives = MAX_LIVES;
                    }
                }
            }
            let shoots = e.kind == Archetype::Shooter || e.kind == Archetype::Bomber;
            let t1: u8 = if shoots {
                e1.shoot_timer + 1
            } else {
                e1.shoot_timer
            };
            let fires = shoots && t1 >= ENEMY_SHOOT_PERIOD;
            let t2: u8 = if fires {
                0
            } else {
                t1
            };
            if fires && self.bullets.len() < ENEMY_BULLET_CAP {
                let down_y = e.y.saturating_add(1);
                self.bullets.push(Bullet { x: e.x, y: down_y, from_enemy: true });
                if e.kind == Archetype::Bomber {
                    self.bullets.push(
                        Bullet { x: e.x.saturating_sub(1), y: down_y, from_enemy: true },
                    );
                    let rx = if e.x + 1 < WIDTH {
                        e.x + 1
                    } else {
                        WIDTH - 1
                    };
                    self.bullets.push(Bullet { x: rx, y: down_y, from_enemy: true });
                }
            }
            if !killed {
                kept.push(Enemy { shoot_timer: t2, ..e1 });
            }
            i = i + 1;
        }
        proof {
            assert(oes.take(oes.len() as int) =~= oes);
        }
        self.enemies = kept;
    }

    /// Build a fresh enemy wave for the current level: a row-major grid
    /// whose size scales with the level, each archetype drawn at random
    /// with its type-dependent hit points, plus one bonus health enemy
    /// if enough wall-clock time has passed since the last one.
    pub fn create_enemies(&mut self, now_secs: u64) -> (r: Vec<Enemy>)
        ensures
            spec_fresh_wave(r@, old(self).level, old(self).last_health_enemy_secs, now_secs),
            final(self).last_health_enemy_secs == if spec_health_due(
                old(self).last_health_enemy_secs,
                now_secs,
            ) {
                now_secs
            } else {
                old(self).last_health_enemy_secs
            },
            forall|k: int| 0 <= k < r@.len() ==> (#[trigger] r@[k]).wf(),
            *final(self) == (Game {
                last_health_enemy_secs: final(self).last_health_enemy_secs,
                ..*old(self)
            }),
    {
        let rows: usize = 1 + self.level / 3;
        let cols: usize = 3 + self.level / 3;
        let total = match rows.checked_mul(cols) {
            Some(t) => t,
            None => usize::MAX,
        };
        let stride = WIDTH / (cols + 1);
        let mut out: Vec<Enemy> = Vec::new();
        let mut idx: usize = 0;
        while idx < total
            invariant
                idx <= total,
                out@.len() == idx,
                rows == spec_wave_rows(old(self).level),
                cols == spec_wave_cols(old(self).level),
                total == sat_mul_usize(rows, cols),
                stride == WIDTH as int / (cols + 1),
                *self == *old(self),
                forall|k: int|
                    0 <= k < idx ==> {
                        &&& (#[trigger] out@[k]).wf()
                        &&& out@[k].kind != Archetype::Health
                        &&& out@[k].health == spec_hit_points(out@[k].kind)
                        &&& out@[k].x == spec_grid_x(k, cols as int)
                        &&& out@[k].y == spec_grid_y(k, cols as int)
                    },
            decreases total - idx,
        {
            let col = idx % cols;
            let row = idx / cols;
            proof {
                assert(cols >= 3);
                assert(0 <= stride <= WIDTH) by (nonlinear_arith)
                    requires
                        stride == WIDTH as int / (cols + 1),
                        cols >= 3,
                ;
                assert((col % WIDTH) * stride + 5 <= 59 * 60 + 5) by (nonlinear_arith)
                    requires
                        0 <= col % WIDTH < 60,
                        0 <= stride <= 60,
                ;
            }
            let x = ((col % WIDTH) * stride + 5) % WIDTH;
            let y = match row.checked_mul(2) {
                Some(v) => v.saturating_add(3),
                None => usize::MAX,
            };
            let t = random_below(8);
            let kind = if t == 0 {
                Archetype::Zigzag
            } else if t == 1 {
                Archetype::Wave
            } else if t == 2 {
                Archetype::Diagonal
            } else if t == 3 {
                Archetype::Shooter
            } else if t == 4 {
                Archetype::Teleporter
            } else if t == 5 {
                Archetype::Fast
            } else {
                Archetype::Normal
            };
            let hp = hit_points(kind);
            let shoot_timer = random_below(ENEMY_SHOOT_PERIOD as usize) as u8;
            out.push(Enemy { x, y, kind, health: hp, shoot_timer });
            idx = idx + 1;
        }
        if now_secs >= self.last_health_enemy_secs.saturating_add(HEALTH_ENEMY_SECS) {
            let hx = random_below(WIDTH);
            out.push(Enemy { x: hx, y: 0, kind: Archetype::Health, health: 1, shoot_timer: 0 });
            self.last_health_enemy_secs = now_secs;
        }
        out
    }

    /// Step eight of a tick: spawn one powerup at a random column of the
    /// top row once the wall-clock spawn cooldown has elapsed and none is
    /// on screen, its kind drawn at random.
    pub fn create_powerup(&mut self, now_secs: u64)
        requires
            old(self).wf(),
        ensures
            final(self).wf(),
            spec_rel_create_powerup(*old(self), *final(self), now_secs),
    {
        if now_secs >= self.last_powerup_secs.saturating_add(POWERUP_SPAWN_SECS)
            && self.powerups.len() == 0 {
            let t = random_below(3);
            let kind = if t == 0 {
                PowerupKind::BiggerLaser
            } else if t == 1 {
                PowerupKind::MultiLaser
            } else {
                PowerupKind::Shield
            };
            let x = random_below(WIDTH);
            self.powerups.push(Powerup { x, y: 0, kind });
            self.last_powerup_secs = now_secs;
        }
    }

    /// Step five of a tick, on the level-scaled cadence: a cleared field
    /// levels up, grants a bonus life and brings a boss or a fresh wave;
    /// otherwise every enemy moves by its archetype's rule, and a wave
    /// that reaches the second-to-last row costs a life and respawns
    /// whole.
    pub fn advance_wave(&mut self, now_secs: u64)
        requires
            old(self).wf(),
        ensures
            final(self).wf(),
            spec_rel_advance_wave(*old(self), *final(self), now_secs),
    {
        let capped = if self.level < 15 {
            self.level
        } else {
            15
        };
        let cadence: usize = 20 - capped;
        self.enemy_move_counter = self.enemy_move_counter + 1;
        if self.enemy_move_counter >= cadence {
            self.enemy_move_counter = 0;
            if self.enemies.len() == 0 && self.boss.is_none() {
                self.level = self.level.saturating_add(1);
                if self.lives + 1 <= MAX_LIVES {
                    self.lives = self.lives + 1;
                } else {
                    self.lives = MAX_LIVES;
                }
                if self.level >= 5 && self.level % 5 == 0 {
                    self.spawn_boss();
                } else {
                    let wave = self.create_enemies(now_secs);
                    self.enemies = wave;
                }
            } else {
                let ghost oes = self.enemies@;
                let mut moved: Vec<Enemy> = Vec::new();
                let mut any_bottom = false;
                let mut i: usize = 0;
                while i < self.enemies.len()
                    invariant
                        old(self).wf(),
                        self.enemies == old(self).enemies,
                        oes == old(self).enemies@,
                        i <= oes.len(),
                        moved@.len() == i,
                        forall|k: int|
                            0 <= k < i ==> spec_moved_rel(oes[k], #[trigger] moved@[k])
                                && moved@[k].wf(),
                        any_bottom ==> oes.len() > 0,
                    decreases oes.len() - i,
                {
                    let e = self.enemies[i];
                    proof {
                        assert(old(self).enemies@[i as int].wf());
                    }
                    let ne = match e.kind {
                        Archetype::Zigzag => {
                            let d: usize = if e.y % 4 < 2 {
                                1
                            } else {
                                WIDTH - 1
                            };
                            Enemy { x: (e.x + d) % WIDTH, y: e.y.saturating_add(1), ..e }
                        },
                        Archetype::Wave | Archetype::Diagonal => Enemy {
                            x: (e.x + 1) % WIDTH,
                            y: e.y.saturating_add(1),
                            ..e
                        },
                        Archetype::Teleporter => {
                            let roll = random_below(10);
                            if roll == 0 {
                                let nx = random_below(WIDTH);
                                let ny = random_below(HEIGHT / 2);
                                Enemy { x: nx, y: ny, ..e }
                            } else {
                                Enemy { y: e.y.saturating_add(1), ..e }
                            }
                        },
                        Archetype::Fast => Enemy { y: e.y.saturating_add(2), ..e },
                        _ => Enemy { y: e.y.saturating_add(1), ..e },
                    };
                    proof {
                        assert(spec_moved_rel(e, ne));
                        lemma_enemy_motion(e, ne);
                    }
                    moved.push(ne);
                    proof {
                        assert(moved@[i as int] == ne);
                    }
                    if ne.y >= HEIGHT - 1 {
                        any_bottom = true;
                    }
                    i = i + 1;
                }
                if any_bottom {
                    self.lives = self.lives.saturating_sub(1);
                    let wave = self.create_enemies(now_secs);
                    self.enemies = wave;
                } else {
                    self.enemies = moved;
                }
            }
        }
    }

    /// Step six of a tick: the boss, if present, runs its shoot and move
    /// cooldowns and then takes hits from the player's bullets, exactly
    /// as [`spec_boss_shoot`], [`spec_boss_move`] and [`spec_boss_hits`]
    /// describe, in that order.
    pub fn step_boss(&mut self)
        requires
            old(self).wf(),
        ensures
            final(self).wf(),
            spec_rel_step_boss(*old(self), *final(self)),
            final(self).score >= old(self).score,
    {
        match self.boss {
            None => {},
            Some(b0) => {
                let mut b = b0;
                let t: u8 = b.shoot_timer + 1;
                if t >= BOSS_SHOOT_PERIOD {
                    b.shoot_timer = 0;
                    if self.bullets.len() < BOSS_BULLET_CAP {
                        let down_y = b.y.saturating_add(1);
                        self.bullets.push(Bullet { x: b.x, y: down_y, from_enemy: true });
                        if b.phase >= 2 {
                            let lx = if b.x >= 2 {
                                b.x - 2
                            } else {
                                0
                            };
                            let rx = if b.x + 2 < WIDTH {
                                b.x + 2
                            } else {
                                WIDTH - 1
                            };
                            self.bullets.push(Bullet { x: lx, y: down_y, from_enemy: true });
                            self.bullets.push(Bullet { x: rx, y: down_y, from_enemy: true });
                        }
                        if b.phase >= 3 {
                            let lx = if b.x >= 4 {
                                b.x - 4
                            } else {
                                0
                            };
                            let rx = if b.x + 4 < WIDTH {
                                b.x + 4
                            } else {
                                WIDTH - 1
                            };
                            self.bullets.push(Bullet { x: lx, y: down_y, from_enemy: true });
                            self.bullets.push(Bullet { x: rx, y: down_y, from_enemy: true });
                        }
                    }
                } else {
                    b.shoot_timer = t;
                }
                proof {
                    let sh = spec_boss_shoot(b0, old(self).bullets@);
                    assert(b == sh.0);
                    assert(self.bullets@ =~= sh.1);
                }
                let t2: u32 = b.move_timer + 1;
                if t2 >= BOSS_MOVE_PERIOD {
                    b.move_timer = 0;
                    if b.x == 0 || b.x == WIDTH - 1 {
                        b.direction = -b.direction;
                    }
                    if b.direction == 1 {
                        b.x = if b.x + 1 < WIDTH {
                            b.x + 1
                        } else {
                            WIDTH - 1
                        };
                    } else {
                        b.x = if b.x >= 1 {
                            b.x - 1
                        } else {
                            0
                        };
                    }
                } else {
                    b.move_timer = t2;
                }
                proof {
                    assert(b == spec_boss_move(spec_boss_shoot(b0, old(self).bullets@).0));
                }
                let ghost bls = self.bullets@;
                let ghost init = BossPass {
                    boss: Some(b),
                    explosions: old(self).explosions@,
                    score: old(self).score,
                };
                let mut cur: Option<Boss> = Some(b);
                let mut j: usize = 0;
                while j < self.bullets.len()
                    invariant
                        old(self).wf(),
                        j <= bls.len(),
                        self.bullets@ == bls,
                        forall|k: int| 0 <= k < bls.len() ==> (#[trigger] bls[k]).wf(),
                        self.player == old(self).player,
                        self.enemies == old(self).enemies,
                        self.powerups == old(self).powerups,
                        self.high_score == old(self).high_score,
                        self.level == old(self).level,
                        self.lives == old(self).lives,
                        self.enemy_move_counter == old(self).enemy_move_counter,
                        self.powerup_active == old(self).powerup_active,
                        self.powerup_timer == old(self).powerup_timer,
                        self.powerup_move_counter == old(self).powerup_move_counter,
                        self.last_powerup_secs == old(self).last_powerup_secs,
                        self.last_health_enemy_secs == old(self).last_health_enemy_secs,
                        self.paused == old(self).paused,
                        self.boss == old(self).boss,
                        ({
                            let st = spec_boss_hits(bls.take(j as int), init);
                            &&& cur == st.boss
                            &&& self.explosions@ == st.explosions
                            &&& self.score == st.score
                        }),
                        self.score >= old(self).score,
                        (match cur {
                            Some(c) => c.wf(),
                            None => true,
                        }),
                        forall|k: int|
                            0 <= k < self.explosions@.len() ==> (
                            #[trigger] self.explosions@[k]).wf(),
                    decreases bls.len() - j,
                {
                    let blt = self.bullets[j];
                    proof {
                        assert(bls.take(j + 1).drop_last() =~= bls.take(j as int));
                        assert(bls.take(j + 1).last() == blt);
                    }
                    match cur {
                        None => {},
                        Some(bb) => {
                            if !blt.from_enemy && blt.x.saturating_sub(2) <= bb.x && bb.x
                                <= blt.x.saturating_add(2) && blt.y == bb.y {
                                let h = bb.health.saturating_sub(1);
                                if h == 0 {
                                    self.score = self.score.saturating_add(1000);
                                    self.explosions.push(
                                        Explosion { x: bb.x, y: bb.y, age: 0 },
                                    );
                                    cur = None;
                                } else {
                                    let th2 = ((bb.max_health as u32) * 2 / 3) as u16;
                                    let th1 = bb.max_health / 3;
                                    let ph = if h == th2 {
                                        2
                                    } else if h == th1 {
                                        3
                                    } else {
                                        bb.phase
                                    };
                                    cur = Some(Boss { health: h, phase: ph, ..bb });
                                }
                            }
                        },
                    }
                    j = j + 1;
                }
                proof {
                    assert(bls.take(bls.len() as int) =~= bls);
                }
                self.boss = cur;
            },
        }
    }

    /// Step seven of a tick: age every explosion marker and drop the
    /// faded ones.
    pub fn age_explosions(&mut self)
        requires
            old(self).wf(),
        ensures
            final(self).wf(),
            spec_rel_age_explosions(*old(self), *final(self)),
    {
        let ghost oex = self.explosions@;
        let mut out: Vec<Explosion> = Vec::new();
        let mut i: usize = 0;
        while i < self.explosions.len()
            invariant
                old(self).wf(),
                i <= oex.len(),
                self.explosions == old(self).explosions,
                oex == old(self).explosions@,
                out@ == spec_aged_explosions(oex.take(i as int)),
                forall|k: int| 0 <= k < out@.len() ==> (#[trigger] out@[k]).wf(),
            decreases oex.len() - i,
        {
            let e = self.explosions[i];
            proof {
                assert(oex.take(i + 1).drop_last() =~= oex.take(i as int));
                assert(oex.take(i + 1).last() == e);
                assert(old(self).explosions@[i as int].wf());
            }
            let aged = Explosion { x: e.x, y: e.y, age: e.age + 1 };
            if aged.age < 3 {
                out.push(aged);
            }
            i = i + 1;
        }
        proof {
            assert(oex.take(oex.len() as int) =~= oex);
        }
        self.explosions = out;
    }

    /// Advance the simulation one logical tick, in the fixed order:
    /// powerup countdown, bullet movement and collisions, powerup drift,
    /// enemy collisions and shooting, enemy movement with level and boss
    /// progression, the boss's own turn, explosion ageing, and finally a
    /// possible powerup spawn. A paused game does not tick.
    ///
    /// Law: lives never leave `[0, MAX_LIVES]` and the score never
    /// decreases, over any tick.
    pub fn update(&mut self, now_secs: u64)
        requires
            old(self).wf(),
        ensures
            final(self).wf(),
            final(self).score >= old(self).score,
            final(self).lives <= MAX_LIVES,
            final(self).level >= old(self).level,
            final(self).high_score == old(self).high_score,
            final(self).player == old(self).player,
            final(self).paused == old(self).paused,
            old(self).paused ==> *final(self) == *old(self),
            !old(self).paused ==> spec_tick_rel(*old(self), *final(self), now_secs),
    {
        if self.paused {
            return ;
        }
        self.tick_powerup_timer();
        let ghost g1 = *self;
        self.move_bullets();
        let ghost g2 = *self;
        self.move_powerups();
        let ghost g3 = *self;
        self.collide_enemies();
        let ghost g4 = *self;
        self.advance_wave(now_secs);
        let ghost g5 = *self;
        self.step_boss();
        let ghost g6 = *self;
        self.age_explosions();
        let ghost g7 = *self;
        self.create_powerup(now_secs);
        proof {
            assert(spec_rel_powerup_timer(*old(self), g1));
            assert(spec_rel_move_bullets(g1, g2));
            assert(spec_rel_move_powerups(g2, g3));
            assert(spec_rel_collide_enemies(g3, g4));
            assert(spec_rel_advance_wave(g4, g5, now_secs));
            assert(spec_rel_step_boss(g5, g6));
            assert(spec_rel_age_explosions(g6, g7));
            assert(spec_rel_create_powerup(g7, *self, now_secs));
            assert(spec_tick_rel(*old(self), *self, now_secs));
        }
    }

    /// Decide what the driver should write back at the end of a run: the
    /// formatted score when it beats the loaded high score, nothing
    /// otherwise, so a lower score never overwrites the stored one.
    pub fn save_high_score(&self) -> (r: Option<Vec<u8>>)
        ensures
            r is Some <==> self.score > self.high_score,
            (match r {
                Some(d) => d@ == crate::highscore::spec_digits(self.score as int),
                None => true,
            }),
    {
        if self.score > self.high_score {
            Some(crate::highscore::format_high_score(self.score))
        } else {
            None
        }
    }

    /// Read the persisted high score handed in by the driver: the parsed
    /// value of the file's bytes, or zero where the file was missing or
    /// did not parse.
    pub fn load_high_score(content: &Option<Vec<u8>>) -> (r: u32)
        ensures
            r == (match *content {
                Some(c) => match crate::highscore::spec_parse_score(c@) {
                    Some(v) => v,
                    None => 0u32,
                },
                None => 0u32,
            }),
    {
        match content {
            Some(c) => crate::highscore::parse_high_score(c),
            None => 0,
        }
    }
}

/// Law: a boss and a non-empty regular enemy wave are never present at
/// the same time in any well-formed state.
pub proof fn lemma_boss_wave_exclusive(g: Game)
    requires
        g.wf(),
        g.boss is Some,
    ensures
        g.enemies@.len() == 0,
{
}

impl Game {
    /// Count the player's bullets currently in flight.
    fn count_player_bullets_in_flight(&self) -> (r: usize)
        ensures
            r == count_player_bullets(self.bullets@),
    {
        let mut count: usize = 0;
        let mut i: usize = 0;
        while i < self.bullets.len()
            invariant
                i <= self.bullets@.len(),
                count <= i,
                count == count_player_bullets(self.bullets@.take(i as int)),
            decreases self.bullets@.len() - i,
        {
            let b = self.bullets[i];
            proof {
                assert(self.bullets@.take(i + 1).drop_last() =~= self.bullets@.take(i as int));
                assert(self.bullets@.take(i + 1).last() == b);
            }
            if !b.from_enemy {
                count = count + 1;
            }
            i = i + 1;
        }
        proof {
            assert(self.bullets@.take(self.bullets@.len() as int) =~= self.bullets@);
        }
        count
    }
}

} // verus!


