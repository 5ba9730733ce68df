use space_invaders::entities::{Archetype, Bullet, Command, Enemy, Powerup, PowerupKind, HEIGHT, WIDTH};
use space_invaders::game::Game;

fn fresh_game() -> Game {
    Game::new(0)
}

#[test]
fn new_game_snapshot() {
    let g = fresh_game();
    assert_eq!(g.player, WIDTH / 2);
    assert_eq!(g.score, 0);
    assert_eq!(g.level, 4);
    assert_eq!(g.lives, 3);
    assert!(g.enemies.is_empty());
    assert!(g.bullets.is_empty());
    assert!(g.powerups.is_empty());
    assert!(g.explosions.is_empty());
    assert!(g.boss.is_none());
    assert!(!g.paused);
    assert!(!g.is_game_over());
}

#[test]
fn lives_capped_and_score_monotone_over_ticks() {
    let mut g = fresh_game();
    g.enemies.push(Enemy { x: 30, y: 3, kind: Archetype::Normal, health: 1, shoot_timer: 0 });
    let mut last_score: u32 = g.score;
    for tick in 0..300usize {
        g.update(tick as u64 / 20);
        assert!(g.lives <= 5, "lives exceeded the cap");
        assert!(g.score >= last_score, "score decreased");
        last_score = g.score;
    }
}

#[test]
fn enemy_movement_stays_in_bounds_and_descends() {
    let mut g = fresh_game();
    g.level = 1;
    g.enemies.push(Enemy { x: 0, y: 4, kind: Archetype::Zigzag, health: 1, shoot_timer: 0 });
    g.enemies.push(Enemy { x: 59, y: 5, kind: Archetype::Wave, health: 1, shoot_timer: 0 });
    g.enemies.push(Enemy { x: 59, y: 6, kind: Archetype::Diagonal, health: 1, shoot_timer: 0 });
    g.enemies.push(Enemy { x: 10, y: 7, kind: Archetype::Fast, health: 2, shoot_timer: 0 });
    g.enemies.push(Enemy { x: 11, y: 8, kind: Archetype::Normal, health: 1, shoot_timer: 0 });
    g.enemies.push(Enemy { x: 12, y: 9, kind: Archetype::Health, health: 1, shoot_timer: 0 });
    let before: Vec<(usize, usize)> = g.enemies.iter().map(|e| (e.x, e.y)).collect();
    // one tick short of the movement cadence for level 1
    g.enemy_move_counter = 18;
    g.update(0);
    assert_eq!(g.enemies.len(), before.len());
    for (i, e) in g.enemies.iter().enumerate() {
        assert!(e.x < WIDTH, "enemy wrapped out of the arena");
        assert!(e.y >= before[i].1, "enemy moved upward");
    }
    // the wrap itself: zigzag on a left-drift row at column 0 wraps to 59
    assert_eq!(g.enemies[0].x, 1); // y=4: 4 % 4 < 2, drifts right
    assert_eq!(g.enemies[1].x, 0); // wave wraps 59 -> 0
    assert_eq!(g.enemies[2].x, 0); // diagonal wraps 59 -> 0
    assert_eq!(g.enemies[3].y, 9); // rusher descends two rows
}

#[test]
fn zigzag_drifts_left_on_high_rows() {
    let mut g = fresh_game();
    g.level = 1;
    g.enemies.push(Enemy { x: 0, y: 6, kind: Archetype::Zigzag, health: 1, shoot_timer: 0 });
    g.enemy_move_counter = 18;
    g.update(0);
    // y=6: 6 % 4 >= 2, drifts left and wraps 0 -> 59
    assert_eq!(g.enemies[0].x, 59);
    assert_eq!(g.enemies[0].y, 7);
}

#[test]
fn boss_never_coexists_with_wave() {
    let mut g = fresh_game();
    // level 4, field cleared, cadence due: the level-up brings the boss
    g.enemy_move_counter = 15; // cadence for level 4 is 16
    g.update(0);
    assert_eq!(g.level, 5);
    assert!(g.boss.is_some());
    assert!(g.enemies.is_empty());
    let boss = g.boss.unwrap();
    assert_eq!(boss.max_health, 50 + 5 * 10);
    assert_eq!(boss.health, boss.max_health);
    assert_eq!(boss.phase, 1);
    // while the boss lives, ticks never spawn a regular wave
    for tick in 0..100usize {
        g.update(tick as u64 / 20);
        assert!(!(g.boss.is_some() && !g.enemies.is_empty()));
    }
}

#[test]
fn cleared_non_boss_level_spawns_wave() {
    let mut g = fresh_game();
    g.level = 1; // becomes 2, not a boss level
    g.enemy_move_counter = 18;
    g.update(0);
    assert_eq!(g.level, 2);
    assert!(g.boss.is_none());
    // rows = 1 + 2/3 = 1, cols = 3 + 2/3 = 3
    assert_eq!(g.enemies.len(), 3);
    assert_eq!(g.lives, 4); // bonus life for clearing the level
    for e in &g.enemies {
        assert!(e.x < WIDTH);
    }
}

#[test]
fn fire_with_three_bullets_in_flight_is_a_noop() {
    let mut g = fresh_game();
    g.bullets.push(Bullet { x: 10, y: 20, from_enemy: false });
    g.bullets.push(Bullet { x: 11, y: 21, from_enemy: false });
    g.bullets.push(Bullet { x: 12, y: 22, from_enemy: false });
    let before = g.bullets.clone();
    g.handle_input(Command::Fire);
    assert_eq!(g.bullets, before);
}

#[test]
fn fire_counts_only_player_bullets() {
    let mut g = fresh_game();
    g.bullets.push(Bullet { x: 10, y: 20, from_enemy: true });
    g.bullets.push(Bullet { x: 11, y: 21, from_enemy: true });
    g.bullets.push(Bullet { x: 12, y: 22, from_enemy: true });
    g.handle_input(Command::Fire);
    assert_eq!(g.bullets.len(), 4);
    let b = g.bullets[3];
    assert_eq!((b.x, b.y, b.from_enemy), (WIDTH / 2, HEIGHT - 2, false));
}

#[test]
fn normal_enemy_destroyed_by_bullet() {
    // level 1, a single normal enemy at (30, 3); the player bullet
    // reaches (30, 3) as it advances this same tick
    let mut g = fresh_game();
    g.level = 1;
    g.enemies.push(Enemy { x: 30, y: 3, kind: Archetype::Normal, health: 1, shoot_timer: 0 });
    g.bullets.push(Bullet { x: 30, y: 4, from_enemy: false });
    g.update(0);
    assert!(g.enemies.is_empty(), "enemy was not removed");
    assert_eq!(g.score, 10);
    assert_eq!(g.explosions.len(), 1);
    assert_eq!((g.explosions[0].x, g.explosions[0].y), (30, 3));
}

#[test]
fn collision_pass_leaves_fresh_explosion() {
    // the collision step itself records the explosion at age zero
    let mut g = fresh_game();
    g.level = 1;
    g.enemies.push(Enemy { x: 30, y: 3, kind: Archetype::Normal, health: 1, shoot_timer: 0 });
    g.bullets.push(Bullet { x: 30, y: 3, from_enemy: false });
    g.collide_enemies();
    assert!(g.enemies.is_empty());
    assert_eq!(g.score, 10);
    assert_eq!(
        (g.explosions[0].x, g.explosions[0].y, g.explosions[0].age),
        (30, 3, 0)
    );
}

#[test]
fn hit_band_covers_adjacent_columns() {
    let mut g = fresh_game();
    g.enemies.push(Enemy { x: 31, y: 3, kind: Archetype::Normal, health: 1, shoot_timer: 0 });
    g.bullets.push(Bullet { x: 30, y: 3, from_enemy: false });
    g.collide_enemies();
    assert!(g.enemies.is_empty(), "band of three columns should strike");
    let mut g2 = fresh_game();
    g2.enemies.push(Enemy { x: 33, y: 3, kind: Archetype::Normal, health: 1, shoot_timer: 0 });
    g2.bullets.push(Bullet { x: 30, y: 3, from_enemy: false });
    g2.collide_enemies();
    assert_eq!(g2.enemies.len(), 1, "two columns away is a miss");
}

#[test]
fn tough_enemy_survives_one_hit() {
    let mut g = fresh_game();
    g.enemies.push(Enemy { x: 30, y: 3, kind: Archetype::Bomber, health: 3, shoot_timer: 0 });
    g.bullets.push(Bullet { x: 30, y: 3, from_enemy: false });
    g.collide_enemies();
    assert_eq!(g.enemies.len(), 1);
    assert_eq!(g.enemies[0].health, 2);
    assert_eq!(g.score, 0);
}

#[test]
fn score_values_by_archetype() {
    for (kind, worth) in [
        (Archetype::Shooter, 20u32),
        (Archetype::Teleporter, 20),
        (Archetype::Fast, 20),
        (Archetype::Bomber, 30),
        (Archetype::Health, 50),
        (Archetype::Normal, 10),
        (Archetype::Zigzag, 10),
        (Archetype::Wave, 10),
        (Archetype::Diagonal, 10),
    ] {
        let mut g = fresh_game();
        g.enemies.push(Enemy { x: 30, y: 3, kind, health: 1, shoot_timer: 0 });
        g.bullets.push(Bullet { x: 30, y: 3, from_enemy: false });
        g.collide_enemies();
        assert!(g.enemies.is_empty());
        assert_eq!(g.score, worth, "wrong score for {:?}", kind);
    }
}

#[test]
fn health_enemy_grants_a_life() {
    let mut g = fresh_game();
    g.lives = 3;
    g.enemies.push(Enemy { x: 30, y: 3, kind: Archetype::Health, health: 1, shoot_timer: 0 });
    g.bullets.push(Bullet { x: 30, y: 3, from_enemy: false });
    g.collide_enemies();
    assert_eq!(g.lives, 4);
    assert_eq!(g.score, 50);
    // and never past the cap
    let mut g2 = fresh_game();
    g2.lives = 5;
    g2.enemies.push(Enemy { x: 30, y: 3, kind: Archetype::Health, health: 1, shoot_timer: 0 });
    g2.bullets.push(Bullet { x: 30, y: 3, from_enemy: false });
    g2.collide_enemies();
    assert_eq!(g2.lives, 5);
}

#[test]
fn boss_dies_to_bullet_in_band() {
    // a boss with one health left, a player bullet two columns off its
    // centre arriving on its row this tick
    let mut g = fresh_game();
    g.level = 5;
    g.spawn_boss();
    let mut boss = g.boss.unwrap();
    boss.health = 1;
    boss.max_health = 50;
    g.boss = Some(boss);
    g.bullets.push(Bullet { x: boss.x + 2, y: boss.y + 1, from_enemy: false });
    g.update(0);
    assert!(g.boss.is_none(), "boss was not cleared");
    assert_eq!(g.score, 1000);
    assert_eq!(g.explosions.len(), 1);
    assert_eq!((g.explosions[0].x, g.explosions[0].y), (boss.x, boss.y));
}

#[test]
fn boss_ignores_bullet_outside_band() {
    let mut g = fresh_game();
    g.level = 5;
    g.spawn_boss();
    let mut boss = g.boss.unwrap();
    boss.health = 1;
    g.boss = Some(boss);
    g.bullets.push(Bullet { x: boss.x + 3, y: boss.y + 1, from_enemy: false });
    g.update(0);
    assert!(g.boss.is_some());
    assert_eq!(g.score, 0);
}

#[test]
fn boss_phase_advances_at_two_thirds() {
    let mut g = fresh_game();
    g.level = 5;
    g.spawn_boss();
    let mut boss = g.boss.unwrap();
    // max health 100: the two-thirds mark is 66
    boss.max_health = 100;
    boss.health = 67;
    g.boss = Some(boss);
    g.bullets.push(Bullet { x: boss.x, y: boss.y + 1, from_enemy: false });
    g.update(0);
    let after = g.boss.unwrap();
    assert_eq!(after.health, 66);
    assert_eq!(after.phase, 2);
}

#[test]
fn bigger_laser_fires_three_bullets() {
    // the bigger laser, player at column 30: three bullets at 29, 30, 31
    let mut g = fresh_game();
    g.player = 30;
    g.powerup_active = Some(PowerupKind::BiggerLaser);
    g.powerup_timer = 100;
    g.handle_input(Command::Fire);
    assert_eq!(g.bullets.len(), 3);
    let cols: Vec<usize> = g.bullets.iter().map(|b| b.x).collect();
    assert_eq!(cols, vec![29, 30, 31]);
    for b in &g.bullets {
        assert_eq!(b.y, HEIGHT - 2);
        assert!(!b.from_enemy);
    }
}

#[test]
fn multi_laser_fires_flanking_bullets() {
    let mut g = fresh_game();
    g.player = 30;
    g.powerup_active = Some(PowerupKind::MultiLaser);
    g.powerup_timer = 100;
    g.handle_input(Command::Fire);
    let cols: Vec<usize> = g.bullets.iter().map(|b| b.x).collect();
    assert_eq!(cols, vec![29, 31]);
}

#[test]
fn shield_fires_a_single_bullet() {
    let mut g = fresh_game();
    g.player = 30;
    g.powerup_active = Some(PowerupKind::Shield);
    g.powerup_timer = 100;
    g.handle_input(Command::Fire);
    let cols: Vec<usize> = g.bullets.iter().map(|b| b.x).collect();
    assert_eq!(cols, vec![30]);
}

#[test]
fn fired_columns_clamp_at_the_edges() {
    let mut g = fresh_game();
    g.player = 0;
    g.powerup_active = Some(PowerupKind::BiggerLaser);
    g.powerup_timer = 100;
    g.handle_input(Command::Fire);
    let cols: Vec<usize> = g.bullets.iter().map(|b| b.x).collect();
    assert_eq!(cols, vec![0, 0, 1]);
    let mut g2 = fresh_game();
    g2.player = WIDTH - 1;
    g2.powerup_active = Some(PowerupKind::BiggerLaser);
    g2.powerup_timer = 100;
    g2.handle_input(Command::Fire);
    let cols2: Vec<usize> = g2.bullets.iter().map(|b| b.x).collect();
    assert_eq!(cols2, vec![58, 59, 59]);
}

#[test]
fn player_movement_clamps() {
    let mut g = fresh_game();
    g.player = 0;
    g.handle_input(Command::MoveLeft);
    assert_eq!(g.player, 0);
    g.player = WIDTH - 1;
    g.handle_input(Command::MoveRight);
    assert_eq!(g.player, WIDTH - 1);
    g.player = 30;
    g.handle_input(Command::MoveLeft);
    assert_eq!(g.player, 29);
    g.handle_input(Command::MoveRight);
    assert_eq!(g.player, 30);
}

#[test]
fn paused_game_ignores_everything_but_unpause() {
    let mut g = fresh_game();
    g.paused = true;
    g.handle_input(Command::MoveLeft);
    assert_eq!(g.player, WIDTH / 2);
    g.handle_input(Command::Fire);
    assert!(g.bullets.is_empty());
    let lives = g.lives;
    g.update(0);
    assert_eq!(g.lives, lives);
    assert!(g.enemies.is_empty());
    g.handle_input(Command::TogglePause);
    assert!(!g.paused);
}

#[test]
fn quit_leaves_the_state_alone() {
    let mut g = fresh_game();
    g.handle_input(Command::Quit);
    assert_eq!(g.player, WIDTH / 2);
    assert!(g.bullets.is_empty());
    assert!(!g.paused);
}

#[test]
fn enemy_bullet_in_band_costs_a_life() {
    let mut g = fresh_game();
    g.player = 30;
    g.lives = 3;
    // one column off, arriving on the player's row this tick
    g.bullets.push(Bullet { x: 29, y: HEIGHT - 2, from_enemy: true });
    g.update(0);
    assert_eq!(g.lives, 2);
    assert!(g.bullets.is_empty(), "the striking bullet is spent");
}

#[test]
fn enemy_bullet_outside_band_misses() {
    let mut g = fresh_game();
    g.player = 30;
    g.lives = 3;
    g.bullets.push(Bullet { x: 28, y: HEIGHT - 2, from_enemy: true });
    g.update(0);
    assert_eq!(g.lives, 3);
    assert_eq!(g.bullets.len(), 1);
    assert_eq!(g.bullets[0].y, HEIGHT - 1);
}

#[test]
fn bullets_leave_the_arena() {
    let mut g = fresh_game();
    g.bullets.push(Bullet { x: 10, y: 1, from_enemy: false });
    g.bullets.push(Bullet { x: 11, y: HEIGHT - 1, from_enemy: true });
    g.update(0);
    assert!(g.bullets.is_empty());
}

#[test]
fn player_bullet_collects_powerup() {
    let mut g = fresh_game();
    g.powerups.push(Powerup { x: 20, y: 9, kind: PowerupKind::MultiLaser });
    g.bullets.push(Bullet { x: 20, y: 10, from_enemy: false });
    g.update(0);
    assert!(g.powerups.is_empty());
    assert_eq!(g.powerup_active, Some(PowerupKind::MultiLaser));
    assert_eq!(g.powerup_timer, 100);
    assert_eq!(g.bullets.len(), 1, "the collecting bullet flies on");
}

#[test]
fn walking_into_powerup_collects_it() {
    let mut g = fresh_game();
    g.player = 30;
    g.powerups.push(Powerup { x: 29, y: HEIGHT - 1, kind: PowerupKind::Shield });
    g.handle_input(Command::MoveLeft);
    assert!(g.powerups.is_empty());
    assert_eq!(g.powerup_active, Some(PowerupKind::Shield));
    assert_eq!(g.powerup_timer, 100);
}

#[test]
fn powerup_effect_runs_down_and_clears() {
    let mut g = fresh_game();
    g.powerup_active = Some(PowerupKind::Shield);
    g.powerup_timer = 2;
    g.update(0);
    assert_eq!(g.powerup_timer, 1);
    assert_eq!(g.powerup_active, Some(PowerupKind::Shield));
    g.update(0);
    assert_eq!(g.powerup_timer, 0);
    g.update(0);
    assert_eq!(g.powerup_active, None);
}

#[test]
fn powerup_descends_on_cadence_and_falls_away() {
    let mut g = fresh_game();
    g.level = 15; // cadence floor: every 5 ticks
    g.powerups.push(Powerup { x: 5, y: 0, kind: PowerupKind::Shield });
    for _ in 0..4usize {
        g.update(0);
    }
    assert_eq!(g.powerups[0].y, 0, "no step before the cadence");
    g.update(0);
    assert_eq!(g.powerups[0].y, 1);
    g.powerups[0].y = HEIGHT - 1;
    for _ in 0..5usize {
        g.update(0);
    }
    assert!(g.powerups.is_empty(), "a powerup past the bottom is gone");
}

#[test]
fn powerup_spawns_after_cooldown() {
    let mut g = fresh_game();
    g.update(29);
    assert!(g.powerups.is_empty());
    g.update(30);
    assert_eq!(g.powerups.len(), 1);
    assert_eq!(g.powerups[0].y, 0);
    assert!(g.powerups[0].x < WIDTH);
    assert_eq!(g.last_powerup_secs, 30);
    // no second powerup while one is on screen
    g.update(70);
    assert_eq!(g.powerups.len(), 1);
}

#[test]
fn explosions_fade_after_two_ticks() {
    let mut g = fresh_game();
    g.explosions.push(space_invaders::entities::Explosion { x: 4, y: 4, age: 0 });
    g.update(0);
    assert_eq!(g.explosions[0].age, 1);
    g.update(0);
    assert_eq!(g.explosions[0].age, 2);
    g.update(0);
    assert!(g.explosions.is_empty());
}

#[test]
fn shooter_fires_at_threshold() {
    let mut g = fresh_game();
    g.enemies.push(Enemy { x: 30, y: 3, kind: Archetype::Shooter, health: 2, shoot_timer: 49 });
    g.collide_enemies();
    assert_eq!(g.bullets.len(), 1);
    let b = g.bullets[0];
    assert_eq!((b.x, b.y, b.from_enemy), (30, 4, true));
    assert_eq!(g.enemies[0].shoot_timer, 0);
}

#[test]
fn bomber_fires_a_spread() {
    let mut g = fresh_game();
    g.enemies.push(Enemy { x: 30, y: 3, kind: Archetype::Bomber, health: 3, shoot_timer: 49 });
    g.collide_enemies();
    let cols: Vec<usize> = g.bullets.iter().map(|b| b.x).collect();
    assert_eq!(cols, vec![30, 29, 31]);
    for b in &g.bullets {
        assert!(b.from_enemy);
        assert_eq!(b.y, 4);
    }
}

#[test]
fn enemy_fire_respects_bullet_cap() {
    let mut g = fresh_game();
    for i in 0..10usize {
        g.bullets.push(Bullet { x: i, y: 20, from_enemy: true });
    }
    g.enemies.push(Enemy { x: 30, y: 3, kind: Archetype::Shooter, health: 2, shoot_timer: 49 });
    g.collide_enemies();
    assert_eq!(g.bullets.len(), 10, "the cap holds");
    assert_eq!(g.enemies[0].shoot_timer, 0, "the cooldown still resets");
}

#[test]
fn wave_reaching_bottom_costs_a_life_and_respawns() {
    let mut g = fresh_game();
    g.level = 1;
    g.lives = 3;
    g.enemies.push(Enemy { x: 30, y: HEIGHT - 2, kind: Archetype::Normal, health: 1, shoot_timer: 0 });
    g.enemy_move_counter = 18;
    g.update(0);
    assert_eq!(g.lives, 2);
    // a fresh wave for level 1: rows 1, cols 3
    assert_eq!(g.enemies.len(), 3);
    assert!(g.enemies.iter().all(|e| e.y < HEIGHT - 1));
}

#[test]
fn game_over_at_zero_lives() {
    let mut g = fresh_game();
    g.lives = 1;
    g.player = 30;
    g.bullets.push(Bullet { x: 30, y: HEIGHT - 2, from_enemy: true });
    g.update(0);
    assert_eq!(g.lives, 0);
    assert!(g.is_game_over());
}

#[test]
fn health_enemy_joins_wave_after_a_minute() {
    let mut g = fresh_game();
    g.level = 1;
    g.enemy_move_counter = 18;
    g.update(59);
    assert!(g.enemies.iter().all(|e| e.kind != Archetype::Health));
    let mut g2 = fresh_game();
    g2.level = 1;
    g2.enemy_move_counter = 18;
    g2.update(60);
    let bonus: Vec<&Enemy> = g2.enemies.iter().filter(|e| e.kind == Archetype::Health).collect();
    assert_eq!(bonus.len(), 1);
    assert_eq!(bonus[0].y, 0);
    assert_eq!(bonus[0].health, 1);
    assert_eq!(g2.last_health_enemy_secs, 60);
}

#[test]
fn wave_grid_positions_scale_with_level() {
    let mut g = fresh_game();
    g.level = 5; // becomes 6 on clear: rows 3, cols 5
    g.boss = None;
    g.enemy_move_counter = 14;
    g.update(0);
    assert_eq!(g.level, 6);
    assert_eq!(g.enemies.len(), 15);
    // stride WIDTH / (cols + 1) = 10, columns 5, 15, 25, 35, 45
    let first_row: Vec<usize> = g.enemies[0..5].iter().map(|e| e.x).collect();
    assert_eq!(first_row, vec![5, 15, 25, 35, 45]);
    assert!(g.enemies[0..5].iter().all(|e| e.y == 3));
    assert!(g.enemies[5..10].iter().all(|e| e.y == 5));
    assert!(g.enemies[10..15].iter().all(|e| e.y == 7));
    for e in &g.enemies {
        assert_eq!(e.health, space_invaders::entities::hit_points(e.kind));
    }
}

#[test]
fn boss_walks_and_turns_at_the_edge() {
    let mut g = fresh_game();
    g.level = 5;
    g.spawn_boss();
    let mut boss = g.boss.unwrap();
    boss.x = WIDTH - 2;
    boss.move_timer = 11;
    boss.shoot_timer = 0;
    g.boss = Some(boss);
    g.update(0);
    assert_eq!(g.boss.unwrap().x, WIDTH - 1);
    let mut b2 = g.boss.unwrap();
    b2.move_timer = 11;
    g.boss = Some(b2);
    g.update(0);
    let after = g.boss.unwrap();
    assert_eq!(after.direction, -1, "direction reverses at the edge");
    assert_eq!(after.x, WIDTH - 2);
}

#[test]
fn boss_volley_grows_with_phase() {
    let mut g = fresh_game();
    g.level = 5;
    g.spawn_boss();
    let mut boss = g.boss.unwrap();
    boss.shoot_timer = 19;
    boss.phase = 3;
    boss.x = 30;
    g.boss = Some(boss);
    g.step_boss();
    let cols: Vec<usize> = g.bullets.iter().map(|b| b.x).collect();
    assert_eq!(cols, vec![30, 28, 32, 26, 34]);
    assert!(g.bullets.iter().all(|b| b.from_enemy && b.y == 4));
}
