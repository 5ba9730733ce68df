//! Entity types of the simulation: the arena constants, the enemy
//! archetypes, bullets, powerups, explosions and the boss, together with
//! their well-formedness predicates and the small per-entity rules
//! (hit points and score value per archetype).

use vstd::prelude::*;

verus! {

/// Columns of the arena.
pub const WIDTH: usize = 60;

/// Rows of the arena; the player sits on row `HEIGHT - 1`.
pub const HEIGHT: usize = 30;

/// Player bullets strike across a band this many columns wide.
pub const LASER_HITBOX_WIDTH: usize = 3;

/// Most lives the player can hold at once.
pub const MAX_LIVES: usize = 5;

/// In-flight player bullets allowed at once.
pub const MAX_PLAYER_BULLETS: usize = 3;

/// Ticks a collected powerup effect stays active.
pub const POWERUP_DURATION: u8 = 100;

/// Ticks between shots of a shooting enemy.
pub const ENEMY_SHOOT_PERIOD: u8 = 50;

/// Total bullets allowed in flight when a regular enemy fires.
pub const ENEMY_BULLET_CAP: usize = 10;

/// Total bullets allowed in flight when the boss fires.
pub const BOSS_BULLET_CAP: usize = 15;

/// Ticks between shots of the boss.
pub const BOSS_SHOOT_PERIOD: u8 = 20;

/// Ticks between horizontal steps of the boss.
pub const BOSS_MOVE_PERIOD: u32 = 12;

/// Wall-clock seconds between powerup spawns.
pub const POWERUP_SPAWN_SECS: u64 = 30;

/// Wall-clock seconds between bonus health enemies.
pub const HEALTH_ENEMY_SECS: u64 = 60;

/// An enemy's movement and behaviour class.
#[derive(Clone, Copy, PartialEq, Eq, Structural, Debug)]
pub enum Archetype {
    Normal,
    Zigzag,
    Wave,
    Diagonal,
    Shooter,
    Teleporter,
    Fast,
    Bomber,
    Health,
}

/// A temporary modifier to the player's fire behaviour.
#[derive(Clone, Copy, PartialEq, Eq, Structural, Debug)]
pub enum PowerupKind {
    BiggerLaser,
    MultiLaser,
    Shield,
}

/// One discrete input command handed to the engine by the driver.
#[derive(Clone, Copy, PartialEq, Eq, Structural, Debug)]
pub enum Command {
    MoveLeft,
    MoveRight,
    Fire,
    TogglePause,
    Quit,
}

/// A projectile in flight. Player bullets travel upward, enemy bullets
/// downward.
#[derive(Clone, Copy, PartialEq, Eq, Structural, Debug)]
pub struct Bullet {
    pub x: usize,
    pub y: usize,
    pub from_enemy: bool,
}

/// A collectible drifting down the arena.
#[derive(Clone, Copy, PartialEq, Eq, Structural, Debug)]
pub struct Powerup {
    pub x: usize,
    pub y: usize,
    pub kind: PowerupKind,
}

/// A transient visual marker left where something was destroyed.
#[derive(Clone, Copy, PartialEq, Eq, Structural, Debug)]
pub struct Explosion {
    pub x: usize,
    pub y: usize,
    pub age: u8,
}

/// One regular enemy of the current wave.
#[derive(Clone, Copy, PartialEq, Eq, Structural, Debug)]
pub struct Enemy {
    pub x: usize,
    pub y: usize,
    pub kind: Archetype,
    pub health: u8,
    pub shoot_timer: u8,
}

/// The singleton boss encounter.
#[derive(Clone, Copy, PartialEq, Eq, Structural, Debug)]
pub struct Boss {
    pub x: usize,
    pub y: usize,
    pub health: u16,
    pub max_health: u16,
    pub phase: u8,
    pub shoot_timer: u8,
    pub direction: i8,
    pub move_timer: u32,
}

/// Hit points a freshly spawned enemy of the given archetype carries.
pub open spec fn spec_hit_points(kind: Archetype) -> u8 {
    match kind {
        Archetype::Shooter | Archetype::Teleporter | Archetype::Fast => 2,
        Archetype::Bomber => 3,
        _ => 1,
    }
}

/// Score awarded for destroying an enemy of the given archetype.
pub open spec fn spec_score_value(kind: Archetype) -> u32 {
    match kind {
        Archetype::Shooter | Archetype::Teleporter | Archetype::Fast => 20,
        Archetype::Bomber => 30,
        Archetype::Health => 50,
        _ => 10,
    }
}

/// Executable table of initial hit points per archetype.
pub fn hit_points(kind: Archetype) -> (r: u8)
    ensures
        r == spec_hit_points(kind),
{
    match kind {
        Archetype::Shooter | Archetype::Teleporter | Archetype::Fast => 2,
        Archetype::Bomber => 3,
        _ => 1,
    }
}

/// Executable table of score value per archetype.
pub fn score_value(kind: Archetype) -> (r: u32)
    ensures
        r == spec_score_value(kind),
{
    match kind {
        Archetype::Shooter | Archetype::Teleporter | Archetype::Fast => 20,
        Archetype::Bomber => 30,
        Archetype::Health => 50,
        _ => 10,
    }
}

impl Bullet {
    /// A bullet stays within the arena's columns.
    pub open spec fn wf(self) -> bool {
        self.x < WIDTH
    }
}

impl Powerup {
    /// A powerup stays within the arena.
    pub open spec fn wf(self) -> bool {
        self.x < WIDTH && self.y < HEIGHT
    }
}

impl Explosion {
    /// An explosion stays within the arena's columns and fades after two
    /// ticks.
    pub open spec fn wf(self) -> bool {
        self.x < WIDTH && self.age <= 2
    }
}

impl Enemy {
    /// An enemy stays within the arena's columns, has at least one hit
    /// point left and at most its archetype's full allotment, and its
    /// shoot cooldown never reaches the firing threshold between ticks.
    pub open spec fn wf(self) -> bool {
        &&& self.x < WIDTH
        &&& 1 <= self.health <= spec_hit_points(self.kind)
        &&& self.shoot_timer < ENEMY_SHOOT_PERIOD
    }
}

impl Boss {
    /// The boss stays within the arena, is alive, moves strictly left or
    /// right, and its cooldowns never reach their thresholds between
    /// ticks.
    pub open spec fn wf(self) -> bool {
        &&& self.x < WIDTH
        &&& self.y < HEIGHT
        &&& 1 <= self.health
        &&& 1 <= self.phase <= 3
        &&& self.direction == 1i8 || self.direction == -1i8
        &&& self.shoot_timer < BOSS_SHOOT_PERIOD
        &&& self.move_timer < BOSS_MOVE_PERIOD
    }
}

} // verus!
