//! Tests of the simulation pipeline: movement, damage, culling, pickups,
//! leveling, despawning, spawning and the depth sort.

use survivors::enemies::{Enemy, EnemyTypeId};
use survivors::game::{Dir, Game, Player, Pos};

fn base_game() -> Game {
    Game::new(42)
}

#[test]
fn step_tolerates_coincident_entities() {
    // Two enemies and a pickup exactly on the player: one tick must not
    // panic or divide by zero, only resolve the overlap.
    let mut g = base_game();
    g.enemies.push(Enemy { p: Pos { x: 0, y: 0 }, health: 100_000, t: EnemyTypeId::Snake });
    g.enemies.push(Enemy { p: Pos { x: 0, y: 0 }, health: 100_000, t: EnemyTypeId::Snake });
    g.diamonds.push(Pos { x: 0, y: 0 });
    g.step(33, 100_000, 100_000);
    assert!(g.player.xp >= 1_000); // the pickup on the player was collected
}

#[test]
fn apply_damage_is_monotone() {
    let mut g = base_game();
    // One enemy in contact, one far away.
    g.enemies.push(Enemy { p: Pos { x: 5_000, y: 0 }, health: 50_000, t: EnemyTypeId::Zombie });
    g.enemies.push(Enemy { p: Pos { x: 500_000, y: 0 }, health: 50_000, t: EnemyTypeId::Zombie });
    let player_before = g.player.health;
    g.apply_damage(1_000);
    // Contact: zombie power 20 for one second.
    assert_eq!(g.player.health, player_before - 20_000);
    // Aura (radius 30): the near enemy lost the player's power 10.
    assert_eq!(g.enemies[0].health, 40_000);
    // The far enemy is untouched.
    assert_eq!(g.enemies[1].health, 50_000);
    assert!(g.player.health <= player_before);
}

#[test]
fn knockback_pushes_away() {
    let mut g = base_game();
    g.enemies.push(Enemy { p: Pos { x: 10_000, y: 0 }, health: 50_000, t: EnemyTypeId::Zombie });
    g.apply_damage(1_000);
    // Pushed two units straight away from the player.
    assert_eq!(g.enemies[0].p.x, 12_000);
    assert_eq!(g.enemies[0].p.y, 0);
}

#[test]
fn levelup_is_exhaustive() {
    let mut g = base_game();
    g.player.xp = 100_000;
    g.player.levelup(&mut g.rng);
    assert!(g.player.xp < g.player.next_level);
    assert_eq!(g.player.xp, 100_000);
}

#[test]
fn levelup_additive_relative_growth() {
    // From thresholds (0, 10) with xp 10, one level-up:
    // next becomes 10 + (10 - 0) * 1.2 = 22.
    let mut g = base_game();
    g.player.xp = 10_000;
    let p = &mut g.player;
    p.levelup(&mut g.rng);
    assert_eq!(p.last_level, 10_000);
    assert_eq!(p.next_level, 22_000);
    assert_eq!(p.xp, 10_000);
}

#[test]
fn levelup_below_threshold_is_inert() {
    let mut g = base_game();
    g.player.xp = 9_999;
    let before = g.player;
    g.player.levelup(&mut g.rng);
    assert_eq!(g.player, before);
}

#[test]
fn despawn_boundary_is_closed() {
    let mut g = base_game();
    // Exactly on the boundary on either axis: retained.
    g.enemies.push(Enemy { p: Pos { x: 100_000, y: 0 }, health: 5_000, t: EnemyTypeId::Snake });
    g.enemies.push(Enemy { p: Pos { x: 0, y: -200_000 }, health: 5_000, t: EnemyTypeId::Snake });
    // Strictly beyond: removed.
    g.enemies.push(Enemy { p: Pos { x: 100_001, y: 0 }, health: 5_000, t: EnemyTypeId::Snake });
    g.enemies.push(Enemy { p: Pos { x: 0, y: 200_001 }, health: 5_000, t: EnemyTypeId::Snake });
    g.despawn_enemies(100_000, 200_000);
    assert_eq!(g.enemies.len(), 2);
    assert_eq!(g.enemies[0].p.x, 100_000);
    assert_eq!(g.enemies[1].p.y, -200_000);
}

#[test]
fn cull_turns_each_dead_enemy_into_one_diamond() {
    let mut g = base_game();
    g.enemies.push(Enemy { p: Pos { x: 1_000, y: 2_000 }, health: 0, t: EnemyTypeId::Snake });
    g.enemies.push(Enemy { p: Pos { x: 3_000, y: 4_000 }, health: 7_000, t: EnemyTypeId::Snake });
    g.enemies.push(Enemy { p: Pos { x: 5_000, y: 6_000 }, health: -500, t: EnemyTypeId::Snake });
    g.cull_dead();
    assert_eq!(g.enemies.len(), 1);
    assert_eq!(g.enemies[0].health, 7_000);
    assert_eq!(g.diamonds.len(), 2);
    assert_eq!((g.diamonds[0].x, g.diamonds[0].y), (1_000, 2_000));
    assert_eq!((g.diamonds[1].x, g.diamonds[1].y), (5_000, 6_000));
}

#[test]
fn pickups_pay_exactly_xp_factor_each() {
    let mut g = base_game();
    // Two pickups inside the radius (15), one outside.
    g.diamonds.push(Pos { x: 1_000, y: 0 });
    g.diamonds.push(Pos { x: 0, y: 14_000 });
    g.diamonds.push(Pos { x: 50_000, y: 0 });
    g.pick_diamonds();
    assert_eq!(g.player.xp, 2_000);
    assert_eq!(g.diamonds.len(), 1);
    assert_eq!(g.diamonds[0].x, 50_000);
}

#[test]
fn pickup_on_radius_boundary_stays() {
    // The pickup radius is strict: exactly on it is not collected.
    let mut g = base_game();
    g.diamonds.push(Pos { x: 15_000, y: 0 });
    g.pick_diamonds();
    assert_eq!(g.player.xp, 0);
    assert_eq!(g.diamonds.len(), 1);
}

#[test]
fn recovery_clamps_at_health_max() {
    // health 50, max 100, recovery 10, dt 1: five ticks reach 100 and a
    // sixth stays there.
    let mut p = Player::new();
    p.health = 50_000;
    p.health_max = 100_000;
    p.health_recover = 10_000;
    for _ in 0..6 {
        p.recover(1_000);
    }
    assert_eq!(p.health, 100_000);
}

#[test]
fn enemy_converges_to_contact() {
    // One tough enemy straight north at 100 units, player motionless:
    // after ceil(100 / 15) and a few knockback-slowed ticks it stands
    // within a step's length of the player.
    let mut g = base_game();
    g.enemies.push(Enemy { p: Pos { x: 0, y: -100_000 }, health: 1_000_000, t: EnemyTypeId::Snake });
    for _ in 0..10 {
        g.step(1_000, 50_000_000, 50_000_000);
    }
    let tough: Vec<&Enemy> = g.enemies.iter().filter(|e| e.health > 100_000).collect();
    assert_eq!(tough.len(), 1);
    let e = tough[0];
    let dx = (e.p.x - g.player.p.x).abs();
    let dy = (e.p.y - g.player.p.y).abs();
    assert!(dx * dx + dy * dy < 16_000i64 * 16_000);
}

#[test]
fn overlapping_enemies_separate() {
    // Two overlapping skeletons (combined size 18) five units apart, the
    // player far away: flocking drives them apart to at least their
    // combined size.
    let mut g = base_game();
    g.player.p = Pos { x: 0, y: -500_000 };
    g.enemies.push(Enemy { p: Pos { x: 0, y: 0 }, health: 10_000, t: EnemyTypeId::Skeleton });
    g.enemies.push(Enemy { p: Pos { x: 5_000, y: 0 }, health: 10_000, t: EnemyTypeId::Skeleton });
    for _ in 0..40 {
        g.move_enemies(33);
    }
    let dx = g.enemies[1].p.x - g.enemies[0].p.x;
    let dy = g.enemies[1].p.y - g.enemies[0].p.y;
    assert!(dx * dx + dy * dy >= 18_000i64 * 18_000);
}

#[test]
fn move_player_follows_intent() {
    let mut g = base_game();
    g.player.dir = Some(Dir::Left);
    g.move_player(1_000);
    // Speed 30 for one second, leftward.
    assert_eq!(g.player.p.x, -30_000);
    assert_eq!(g.player.p.y, 0);
    g.player.dir = None;
    g.move_player(1_000);
    assert_eq!(g.player.p.x, -30_000);
}

#[test]
fn spawning_respects_cap_but_counts_on() {
    let mut g = base_game();
    for i in 0..200 {
        g.enemies.push(Enemy {
            p: Pos { x: (i as i64) * 1_000, y: 500_000 },
            health: 5_000,
            t: EnemyTypeId::Snake,
        });
    }
    // dt of a full second makes every wave entry's roll succeed.
    g.spawn_enemies(1_000, 1_000_000, 1_000_000);
    assert_eq!(g.enemies.len(), 200);
    assert_eq!(g.i_enemy, 1); // wave zero has one entry; the counter still advanced
}

#[test]
fn spawning_adds_enemies_below_cap() {
    let mut g = base_game();
    g.spawn_enemies(1_000, 1_000_000, 1_000_000);
    assert_eq!(g.enemies.len(), 1);
    assert_eq!(g.i_enemy, 1);
    let e = &g.enemies[0];
    assert_eq!(e.health, 5_000); // wave zero spawns snakes
}

#[test]
fn sort_orders_by_world_y() {
    let mut g = base_game();
    g.enemies.push(Enemy { p: Pos { x: 0, y: 30_000 }, health: 5_000, t: EnemyTypeId::Snake });
    g.enemies.push(Enemy { p: Pos { x: 0, y: -10_000 }, health: 5_000, t: EnemyTypeId::Bat });
    g.enemies.push(Enemy { p: Pos { x: 0, y: 10_000 }, health: 5_000, t: EnemyTypeId::Eye });
    g.sort_enemies();
    assert_eq!(g.enemies.len(), 3);
    assert!(g.enemies[0].p.y <= g.enemies[1].p.y && g.enemies[1].p.y <= g.enemies[2].p.y);
    assert_eq!(g.enemies[0].p.y, -10_000);
}

#[test]
fn step_keeps_experience_below_next_level() {
    let mut g = base_game();
    g.player.xp = 9_999;
    g.player.xp_factor = 50_000; // a huge pickup bonus
    g.diamonds.push(Pos { x: 0, y: 0 });
    g.step(33, 100_000, 100_000);
    assert!(g.player.xp >= 50_000);
    assert!(g.player.xp < g.player.next_level);
}

#[test]
fn dead_player_health_keeps_falling_signal() {
    let mut g = base_game();
    g.player.health = 1_000;
    g.enemies.push(Enemy { p: Pos { x: 0, y: 0 }, health: 1_000_000, t: EnemyTypeId::Shadow });
    g.apply_damage(1_000);
    // Shadow power 75 for one second: well below zero, the death signal.
    assert!(g.player.health < 0);
}

#[test]
fn simulation_is_deterministic() {
    // The whole tick, perk rolls and spawns included, is a function of
    // the world and the seed alone.
    let mut a = Game::new(1234);
    let mut b = Game::new(1234);
    for g in [&mut a, &mut b] {
        g.player.xp = 40_000;
        g.enemies.push(Enemy { p: Pos { x: 20_000, y: 0 }, health: 9_000, t: EnemyTypeId::Eye });
        g.diamonds.push(Pos { x: 3_000, y: 0 });
        for _ in 0..20 {
            g.step(33, 200_000, 200_000);
        }
    }
    assert_eq!(a.player, b.player);
    assert_eq!(a.i_enemy, b.i_enemy);
    assert_eq!(a.enemies.len(), b.enemies.len());
    for (x, y) in a.enemies.iter().zip(b.enemies.iter()) {
        assert_eq!(x, y);
    }
}

#[test]
fn empty_world_ticks_quietly() {
    // No enemies, no pickups: a tick only moves time and maybe spawns.
    let mut g = base_game();
    g.step(33, 100_000, 100_000);
    assert!(g.enemies.len() <= 2);
    assert_eq!(g.player.health, 50_000);
    assert_eq!(g.player.xp, 0);
}

#[test]
fn experience_saturates_at_its_cap() {
    let mut g = base_game();
    g.player.xp = 999_999_999_500;
    g.diamonds.push(Pos { x: 0, y: 0 });
    g.pick_diamonds();
    assert_eq!(g.player.xp, 1_000_000_000_000);
}
