//! The world simulation: the player, the enemy population, pickups, and
//! the fixed-tick update pipeline.
//!
//! Every tick applies, in order: player movement, enemy flocking, the
//! despawn window, damage resolution, culling of the dead into pickups,
//! pickup collection, health recovery, leveling, spawning, and a depth
//! sort. No stage can fail: coincident positions and empty populations
//! are guarded, never raised as errors.

use vstd::prelude::*;
use crate::fixed::{SCALE, POS_LIMIT, DT_MAX, clamp_spec, clamp_i64, mul_div_trunc};
use crate::rng::Rng;

verus! {

/// The largest enemy population the simulation carries.
pub const MAX_ENEMIES: usize = 200;

/// The largest value any grown player stat may reach.
pub const STAT_MAX: i64 = 1_000_000_000;

/// The largest experience total the player can accumulate.
pub const XP_MAX: i64 = 1_000_000_000_000;

/// Bound on the level thresholds; one level-up from any reachable
/// experience stays under it.
pub const LEVEL_CAP: i64 = 4_000_000_000_000;

/// Health saturates here instead of underflowing; any value below zero
/// already means death.
pub const HEALTH_LOW: i64 = -2_000_000_000_000;

/// A movement or facing direction.
#[derive(Clone, Copy, PartialEq, Eq, Structural, Debug)]
pub enum Dir {
    Up,
    Right,
    Down,
    Left,
}

/// A 2D world-space position, fixed-point.
#[derive(Clone, Copy, PartialEq, Eq, Structural, Debug)]
pub struct Pos {
    pub x: i64,
    pub y: i64,
}

/// The position lies inside the world bound.
pub open spec fn pos_ok(p: Pos) -> bool {
    &&& -POS_LIMIT <= p.x <= POS_LIMIT
    &&& -POS_LIMIT <= p.y <= POS_LIMIT
}

/// The player: position, intent, and the stats perks grow.
#[derive(Clone, Copy, PartialEq, Eq, Structural, Debug)]
pub struct Player {
    /// World position.
    pub p: Pos,
    /// Current movement intent; `None` stands still.
    pub dir: Option<Dir>,
    /// Facing, for sprite mirroring; independent of movement.
    pub face: Dir,
    /// Movement speed, world units per second.
    pub speed: i64,
    /// Collision radius.
    pub size: i64,
    /// Current health; strictly negative means dead.
    pub health: i64,
    /// Health ceiling that recovery clamps to.
    pub health_max: i64,
    /// Health regained per second.
    pub health_recover: i64,
    /// Damage dealt per second inside the damage radius.
    pub power: i64,
    /// Radius of the always-on damage aura.
    pub damage_radius: i64,
    /// Radius within which pickups are collected.
    pub diamond_radius: i64,
    /// Accumulated experience.
    pub xp: i64,
    /// Experience gained per pickup.
    pub xp_factor: i64,
    /// Threshold the last level-up crossed.
    pub last_level: i64,
    /// Threshold the next level-up requires.
    pub next_level: i64,
}

/// The player's fields are inside the simulation's bounds.
pub open spec fn player_wf(p: Player) -> bool {
    &&& pos_ok(p.p)
    &&& 0 <= p.speed <= STAT_MAX
    &&& 0 <= p.size <= 1_000_000
    &&& HEALTH_LOW <= p.health <= p.health_max
    &&& 0 < p.health_max <= STAT_MAX
    &&& 0 <= p.health_recover <= STAT_MAX
    &&& 0 <= p.power <= STAT_MAX
    &&& 0 <= p.damage_radius <= STAT_MAX
    &&& 0 <= p.diamond_radius <= STAT_MAX
    &&& 0 <= p.xp <= XP_MAX
    &&& 0 <= p.xp_factor <= STAT_MAX
    &&& 0 <= p.last_level < p.next_level <= LEVEL_CAP
}

/// The thresholds after one level-up: the gap to the next level grows by
/// a fifth over the gap just crossed.
pub open spec fn advance_level(last: int, next: int) -> (int, int) {
    (next, next + (next - last) * 12 / 10)
}

/// The thresholds after leveling as long as `xp` reaches the next one.
pub open spec fn levels_after(last: int, next: int, xp: int) -> (int, int)
    decreases (if last < next && xp >= next {
        xp - next + 1
    } else {
        0
    }),
{
    if last < next && xp >= next {
        let a = advance_level(last, next);
        levels_after(a.0, a.1, xp)
    } else {
        (last, next)
    }
}

/// A stat grown by a tenth, saturating at the stat cap.
pub open spec fn grow_spec(v: int) -> int {
    if v * 11 / 10 > STAT_MAX {
        STAT_MAX as int
    } else {
        v * 11 / 10
    }
}

/// A stat grown by a tenth, saturating at the stat cap.
fn grow(v: i64) -> (r: i64)
    requires
        0 <= v <= STAT_MAX,
    ensures
        r == grow_spec(v as int),
        v <= r <= STAT_MAX,
{
    proof {
        assert(v * 11 / 10 >= v) by (nonlinear_arith)
            requires
                v >= 0,
        ;
    }
    let grown = v * 11 / 10;
    if grown > STAT_MAX {
        STAT_MAX
    } else {
        grown
    }
}

/// The stats every session starts from.
pub open spec fn initial_player() -> Player {
    Player {
        p: Pos { x: 0, y: 0 },
        dir: None,
        face: Dir::Right,
        speed: 30_000,
        size: 9_000,
        health: 50_000,
        health_max: 50_000,
        health_recover: 0,
        power: 10_000,
        damage_radius: 30_000,
        diamond_radius: 15_000,
        xp: 0,
        xp_factor: 1_000,
        last_level: 0,
        next_level: 10_000,
    }
}

/// The player after one perk roll `k` (uniform in eight): a tenth more
/// of one stat, a full heal, or a flat recovery bump.
pub open spec fn perk_apply(p: Player, k: u64) -> Player {
    if k == 0 {
        Player { power: grow_spec(p.power as int) as i64, ..p }
    } else if k == 1 {
        Player { health_max: grow_spec(p.health_max as int) as i64, ..p }
    } else if k == 2 {
        Player { speed: grow_spec(p.speed as int) as i64, ..p }
    } else if k == 3 {
        Player { damage_radius: grow_spec(p.damage_radius as int) as i64, ..p }
    } else if k == 4 {
        Player { health: p.health_max, ..p }
    } else if k == 5 {
        Player {
            health_recover: (if p.health_recover + 200 > STAT_MAX {
                STAT_MAX as int
            } else {
                p.health_recover + 200
            }) as i64,
            ..p
        }
    } else if k == 6 {
        Player { diamond_radius: grow_spec(p.diamond_radius as int) as i64, ..p }
    } else {
        Player { xp_factor: grow_spec(p.xp_factor as int) as i64, ..p }
    }
}

/// One level-up: thresholds advance, one perk roll is drawn and applied.
pub open spec fn level_step(p: Player, s: u64) -> (Player, u64) {
    let s1 = crate::rng::rng_next_state(s);
    let k = crate::rng::rng_output(s1) % 8;
    let a = advance_level(p.last_level as int, p.next_level as int);
    let p1 = Player { last_level: a.0 as i64, next_level: a.1 as i64, ..p };
    (perk_apply(p1, k), s1)
}

/// The player and the generator after leveling as long as the
/// accumulated experience reaches the next threshold.
pub open spec fn levelup_fold(p: Player, s: u64) -> (Player, u64)
    decreases (if p.last_level < p.next_level && p.xp >= p.next_level {
        p.xp - p.next_level + 1
    } else {
        0
    }),
{
    if p.last_level < p.next_level && p.xp >= p.next_level {
        let next = level_step(p, s);
        levelup_fold(next.0, next.1)
    } else {
        (p, s)
    }
}

impl Player {
    /// The starting player: centered at the origin, base stats.
    pub fn new() -> (p: Player)
        ensures
            p == initial_player(),
            player_wf(p),
    {
        Player {
            p: Pos { x: 0, y: 0 },
            dir: None,
            face: Dir::Right,
            speed: 30_000,
            size: 9_000,
            health: 50_000,
            health_max: 50_000,
            health_recover: 0,
            power: 10_000,
            damage_radius: 30_000,
            diamond_radius: 15_000,
            xp: 0,
            xp_factor: 1_000,
            last_level: 0,
            next_level: 10_000,
        }
    }

    /// Regains `health_recover` per second, clamped to the ceiling.
    pub fn recover(&mut self, dt: i64)
        requires
            player_wf(*old(self)),
            0 <= dt <= DT_MAX,
        ensures
            player_wf(*final(self)),
            final(self).health == (if old(self).health + old(self).health_recover * dt / (
            SCALE as int) > old(self).health_max {
                old(self).health_max as int
            } else {
                old(self).health + old(self).health_recover * dt / (SCALE as int)
            }),
            final(self).health >= old(self).health,
            *final(self) == (Player { health: final(self).health, ..*old(self) }),
    {
        proof {
            assert(0 <= self.health_recover * dt <= 1_000_000_000 * 100_000) by (nonlinear_arith)
                requires
                    0 <= self.health_recover <= STAT_MAX,
                    0 <= dt <= DT_MAX,
            ;
        }
        let gain = self.health_recover * dt / SCALE;
        let raised = self.health + gain;
        if raised > self.health_max {
            self.health = self.health_max;
        } else {
            self.health = raised;
        }
    }

    /// Levels up while the accumulated experience reaches the next
    /// threshold; each level grows the threshold gap by a fifth and rolls
    /// one perk, a permanent self-buff, from the generator. Stats never
    /// shrink; experience is not consumed. Which stat each roll grew is
    /// not specified here, only that every stat is at least what it was.
    pub fn levelup(&mut self, rng: &mut Rng)
        requires
            player_wf(*old(self)),
        ensures
            player_wf(*final(self)),
            final(self).xp == old(self).xp,
            final(self).xp < final(self).next_level,
            (final(self).last_level as int, final(self).next_level as int) == levels_after(
                old(self).last_level as int,
                old(self).next_level as int,
                old(self).xp as int,
            ),
            final(self).p == old(self).p,
            final(self).dir == old(self).dir,
            final(self).face == old(self).face,
            final(self).speed >= old(self).speed,
            final(self).size == old(self).size,
            final(self).health >= old(self).health,
            final(self).health_max >= old(self).health_max,
            final(self).health_recover >= old(self).health_recover,
            final(self).power >= old(self).power,
            final(self).damage_radius >= old(self).damage_radius,
            final(self).diamond_radius >= old(self).diamond_radius,
            final(self).xp_factor >= old(self).xp_factor,
            (*final(self), final(rng)@) == levelup_fold(*old(self), old(rng)@),
            old(self).xp < old(self).next_level ==> *final(self) == *old(self) && final(rng)@
                == old(rng)@,
    {
        while self.xp >= self.next_level
            invariant
                player_wf(*self),
                self.xp == old(self).xp,
                levels_after(
                    self.last_level as int,
                    self.next_level as int,
                    self.xp as int,
                ) == levels_after(
                    old(self).last_level as int,
                    old(self).next_level as int,
                    old(self).xp as int,
                ),
                self.p == old(self).p,
                self.dir == old(self).dir,
                self.face == old(self).face,
                self.speed >= old(self).speed,
                self.size == old(self).size,
                self.health >= old(self).health,
                self.health_max >= old(self).health_max,
                self.health_recover >= old(self).health_recover,
                self.power >= old(self).power,
                self.damage_radius >= old(self).damage_radius,
                self.diamond_radius >= old(self).diamond_radius,
                self.xp_factor >= old(self).xp_factor,
                levelup_fold(*self, rng@) == levelup_fold(*old(self), old(rng)@),
                old(self).xp < old(self).next_level ==> *self == *old(self) && rng@ == old(rng)@,
            decreases (if self.xp >= self.next_level {
                self.xp - self.next_level + 1
            } else {
                0int
            }),
        {
            let gap = self.next_level - self.last_level;
            proof {
                assert(gap * 12 / 10 >= 1 && gap * 12 / 10 <= gap * 2) by (nonlinear_arith)
                    requires
                        gap >= 1,
                ;
                assert(self.next_level + gap * 2 <= 3 * XP_MAX);
            }
            self.last_level = self.next_level;
            self.next_level = self.next_level + gap * 12 / 10;

            match rng.gen_range(0, 8) {
                0 => self.power = grow(self.power),
                1 => {
                    self.health_max = grow(self.health_max);
                },
                2 => self.speed = grow(self.speed),
                3 => self.damage_radius = grow(self.damage_radius),
                4 => self.health = self.health_max,
                5 => {
                    let raised = self.health_recover + 200;
                    self.health_recover = if raised > STAT_MAX {
                        STAT_MAX
                    } else {
                        raised
                    };
                },
                6 => self.diamond_radius = grow(self.diamond_radius),
                _ => self.xp_factor = grow(self.xp_factor),
            }
        }
    }
}

/// The whole world: the player, the transient populations, the spawn
/// counter and the generator driving spawns and perks.
pub struct Game {
    /// The player.
    pub player: Player,
    /// Pickups waiting on the field.
    pub diamonds: Vec<Pos>,
    /// The live enemy population.
    pub enemies: Vec<Enemy>,
    /// Projectiles in flight, drawn above everything else.
    pub projectiles: Vec<crate::weapons::Projectile>,
    /// Counts spawns; buckets of it select the active wave.
    pub i_enemy: u64,
    /// Drives spawn rolls and perk rolls.
    pub rng: Rng,
}

use crate::enemies::{Enemy, EnemyTypeId, et, enemy_type, enemy_wf, get_enemy};

/// Every part of the world is inside the simulation's bounds.
pub open spec fn game_wf(g: Game) -> bool {
    &&& player_wf(g.player)
    &&& g.enemies@.len() <= MAX_ENEMIES
    &&& (forall|i: int| 0 <= i < g.enemies@.len() ==> enemy_wf(#[trigger] g.enemies@[i]))
    &&& (forall|i: int| 0 <= i < g.diamonds@.len() ==> pos_ok(#[trigger] g.diamonds@[i]))
    &&& (forall|i: int| 0 <= i < g.projectiles@.len() ==> pos_ok((#[trigger] g.projectiles@[i]).p))
}

/// Where the player stands after one tick of movement intent.
pub open spec fn moved_pos(p: Pos, dir: Option<Dir>, speed: int, dt: int) -> Pos {
    let step = speed * dt / (SCALE as int);
    match dir {
        Some(Dir::Up) => Pos { x: p.x, y: clamp_spec(p.y - step, -POS_LIMIT as int, POS_LIMIT as int) as i64 },
        Some(Dir::Right) => Pos { x: clamp_spec(p.x + step, -POS_LIMIT as int, POS_LIMIT as int) as i64, y: p.y },
        Some(Dir::Down) => Pos { x: p.x, y: clamp_spec(p.y + step, -POS_LIMIT as int, POS_LIMIT as int) as i64 },
        Some(Dir::Left) => Pos { x: clamp_spec(p.x - step, -POS_LIMIT as int, POS_LIMIT as int) as i64, y: p.y },
        None => p,
    }
}

/// The entity sits inside the closed despawn rectangle around `c`: at
/// most `w` away on the x axis and `h` on the y axis. Exactly on the
/// boundary counts as inside.
pub open spec fn in_window(p: Pos, c: Pos, w: int, h: int) -> bool {
    &&& -w <= p.x - c.x <= w
    &&& -h <= p.y - c.y <= h
}

/// The enemies retained by the despawn window, in order.
pub open spec fn retained_enemies(s: Seq<Enemy>, c: Pos, w: int, h: int) -> Seq<Enemy>
    decreases s.len(),
{
    if s.len() == 0 {
        Seq::empty()
    } else if in_window(s.last().p, c, w, h) {
        retained_enemies(s.drop_last(), c, w, h).push(s.last())
    } else {
        retained_enemies(s.drop_last(), c, w, h)
    }
}

/// The enemies that survive the damage pass, in order.
pub open spec fn live_enemies(s: Seq<Enemy>) -> Seq<Enemy>
    decreases s.len(),
{
    if s.len() == 0 {
        Seq::empty()
    } else if s.last().health > 0 {
        live_enemies(s.drop_last()).push(s.last())
    } else {
        live_enemies(s.drop_last())
    }
}

/// Where the enemies that did not survive fell, in order.
pub open spec fn drop_positions(s: Seq<Enemy>) -> Seq<Pos>
    decreases s.len(),
{
    if s.len() == 0 {
        Seq::empty()
    } else if s.last().health > 0 {
        drop_positions(s.drop_last())
    } else {
        drop_positions(s.drop_last()).push(s.last().p)
    }
}

/// The pickup at `d` lies strictly inside the player's pickup radius.
pub open spec fn diamond_taken(p: Player, d: Pos) -> bool {
    (p.p.x - d.x) * (p.p.x - d.x) + (p.p.y - d.y) * (p.p.y - d.y) < p.diamond_radius
        * p.diamond_radius
}

/// The pickups left on the field, in order.
pub open spec fn kept_diamonds(s: Seq<Pos>, p: Player) -> Seq<Pos>
    decreases s.len(),
{
    if s.len() == 0 {
        Seq::empty()
    } else if diamond_taken(p, s.last()) {
        kept_diamonds(s.drop_last(), p)
    } else {
        kept_diamonds(s.drop_last(), p).push(s.last())
    }
}

/// How many pickups the player collects.
pub open spec fn taken_count(s: Seq<Pos>, p: Player) -> int
    decreases s.len(),
{
    if s.len() == 0 {
        0
    } else if diamond_taken(p, s.last()) {
        taken_count(s.drop_last(), p) + 1
    } else {
        taken_count(s.drop_last(), p)
    }
}

/// `v + a` held under the experience cap.
pub open spec fn xp_saturate(v: int, a: int) -> int {
    if v + a > XP_MAX {
        XP_MAX as int
    } else {
        v + a
    }
}

/// Collecting never loses a count.
proof fn lemma_taken_count_bounds(s: Seq<Pos>, p: Player)
    ensures
        0 <= taken_count(s, p) <= s.len(),
    decreases s.len(),
{
    if s.len() > 0 {
        lemma_taken_count_bounds(s.drop_last(), p);
    }
}

impl Game {
    /// A fresh world: the base player alone at the origin, no enemies,
    /// no pickups, the generator seeded by the caller.
    pub fn new(seed: u64) -> (g: Game)
        ensures
            game_wf(g),
            g.player == initial_player(),
            g.enemies@.len() == 0,
            g.diamonds@.len() == 0,
            g.projectiles@.len() == 0,
            g.i_enemy == 0,
            g.rng@ == seed,
    {
        Game {
            player: Player::new(),
            diamonds: Vec::new(),
            enemies: Vec::new(),
            projectiles: Vec::new(),
            i_enemy: 0,
            rng: Rng::new(seed),
        }
    }

    /// Moves the player along the current intent by `speed * dt`.
    pub fn move_player(&mut self, dt: i64)
        requires
            game_wf(*old(self)),
            0 <= dt <= DT_MAX,
        ensures
            game_wf(*final(self)),
            final(self).player.p == moved_pos(
                old(self).player.p,
                old(self).player.dir,
                old(self).player.speed as int,
                dt as int,
            ),
            final(self).player == (Player { p: final(self).player.p, ..old(self).player }),
            final(self).diamonds@ == old(self).diamonds@,
            final(self).enemies@ == old(self).enemies@,
            final(self).i_enemy == old(self).i_enemy,
            final(self).rng@ == old(self).rng@,
            final(self).projectiles@ == old(self).projectiles@,
    {
        proof {
            assert(0 <= self.player.speed * dt <= 1_000_000_000 * 100_000) by (nonlinear_arith)
                requires
                    0 <= self.player.speed <= STAT_MAX,
                    0 <= dt <= DT_MAX,
            ;
        }
        let step = self.player.speed * dt / SCALE;
        match self.player.dir {
            Some(Dir::Up) => {
                self.player.p.y = clamp_i64(self.player.p.y - step, -POS_LIMIT, POS_LIMIT);
            },
            Some(Dir::Right) => {
                self.player.p.x = clamp_i64(self.player.p.x + step, -POS_LIMIT, POS_LIMIT);
            },
            Some(Dir::Down) => {
                self.player.p.y = clamp_i64(self.player.p.y + step, -POS_LIMIT, POS_LIMIT);
            },
            Some(Dir::Left) => {
                self.player.p.x = clamp_i64(self.player.p.x - step, -POS_LIMIT, POS_LIMIT);
            },
            None => {},
        }
    }

    /// Removes every enemy outside the closed despawn rectangle: farther
    /// than `width` from the player on the x axis or `height` on the y
    /// axis. An enemy exactly on the boundary is retained.
    pub fn despawn_enemies(&mut self, width: i64, height: i64)
        requires
            game_wf(*old(self)),
            0 <= width <= POS_LIMIT,
            0 <= height <= POS_LIMIT,
        ensures
            game_wf(*final(self)),
            final(self).enemies@ == retained_enemies(
                old(self).enemies@,
                old(self).player.p,
                width as int,
                height as int,
            ),
            final(self).player == old(self).player,
            final(self).diamonds@ == old(self).diamonds@,
            final(self).i_enemy == old(self).i_enemy,
            final(self).rng@ == old(self).rng@,
            final(self).projectiles@ == old(self).projectiles@,
    {
        let ghost all = self.enemies@;
        let ghost c = self.player.p;
        let mut kept: Vec<Enemy> = Vec::new();
        let mut i: usize = 0;
        let n = self.enemies.len();
        while i < n
            invariant
                n == self.enemies.len() == all.len(),
                all == self.enemies@,
                c == self.player.p,
                game_wf(*self),
                i <= n,
                kept@ == retained_enemies(all.subrange(0, i as int), c, width as int, height as int),
                kept@.len() <= i,
                0 <= width <= POS_LIMIT,
                0 <= height <= POS_LIMIT,
            decreases n - i,
        {
            proof {
                assert(all.subrange(0, i + 1).drop_last() =~= all.subrange(0, i as int));
            }
            let e = self.enemies[i];
            let dx = e.p.x - self.player.p.x;
            let dy = e.p.y - self.player.p.y;
            if -width <= dx && dx <= width && -height <= dy && dy <= height {
                kept.push(e);
            }
            i = i + 1;
        }
        proof {
            assert(all.subrange(0, n as int) =~= all);
            lemma_retained_sub(all, c, width as int, height as int);
        }
        self.enemies = kept;
    }

    /// Replaces each dead enemy (health at or below zero) by one pickup
    /// at its last position; the live enemies stay, in order.
    pub fn cull_dead(&mut self)
        requires
            game_wf(*old(self)),
        ensures
            game_wf(*final(self)),
            final(self).enemies@ == live_enemies(old(self).enemies@),
            final(self).diamonds@ == old(self).diamonds@ + drop_positions(old(self).enemies@),
            final(self).player == old(self).player,
            final(self).i_enemy == old(self).i_enemy,
            final(self).rng@ == old(self).rng@,
            final(self).projectiles@ == old(self).projectiles@,
    {
        let ghost all = self.enemies@;
        let ghost d0 = self.diamonds@;
        let mut kept: Vec<Enemy> = Vec::new();
        let mut i: usize = 0;
        let n = self.enemies.len();
        while i < n
            invariant
                n == self.enemies.len() == all.len(),
                all == self.enemies@,
                d0 == old(self).diamonds@,
                game_wf(*self),
                self.player == old(self).player,
                self.i_enemy == old(self).i_enemy,
                self.rng@ == old(self).rng@,
                self.projectiles@ == old(self).projectiles@,
                i <= n,
                kept@ == live_enemies(all.subrange(0, i as int)),
                kept@.len() <= i,
                self.diamonds@ == d0 + drop_positions(all.subrange(0, i as int)),
            decreases n - i,
        {
            proof {
                assert(all.subrange(0, i + 1).drop_last() =~= all.subrange(0, i as int));
            }
            let e = self.enemies[i];
            if e.health > 0 {
                kept.push(e);
            } else {
                self.diamonds.push(e.p);
            }
            i = i + 1;
        }
        proof {
            assert(all.subrange(0, n as int) =~= all);
            lemma_live_sub(all);
        }
        self.enemies = kept;
    }

    /// Collects every pickup strictly inside the pickup radius; each one
    /// collected adds exactly `xp_factor` experience, saturating at the
    /// experience cap.
    pub fn pick_diamonds(&mut self)
        requires
            game_wf(*old(self)),
        ensures
            game_wf(*final(self)),
            final(self).diamonds@ == kept_diamonds(old(self).diamonds@, old(self).player),
            final(self).player.xp == xp_saturate(
                old(self).player.xp as int,
                old(self).player.xp_factor * taken_count(old(self).diamonds@, old(self).player),
            ),
            final(self).player.xp >= old(self).player.xp,
            final(self).player == (Player { xp: final(self).player.xp, ..old(self).player }),
            final(self).enemies@ == old(self).enemies@,
            final(self).i_enemy == old(self).i_enemy,
            final(self).rng@ == old(self).rng@,
            final(self).projectiles@ == old(self).projectiles@,
    {
        let ghost all = self.diamonds@;
        let ghost p0 = self.player;
        let mut kept: Vec<Pos> = Vec::new();
        let mut i: usize = 0;
        let n = self.diamonds.len();
        while i < n
            invariant
                n == self.diamonds.len() == all.len(),
                all == self.diamonds@,
                game_wf(*self),
                p0 == old(self).player,
                self.player == (Player { xp: self.player.xp, ..p0 }),
                self.enemies@ == old(self).enemies@,
                self.i_enemy == old(self).i_enemy,
                self.rng@ == old(self).rng@,
                self.projectiles@ == old(self).projectiles@,
                i <= n,
                kept@ == kept_diamonds(all.subrange(0, i as int), p0),
                kept@.len() <= i,
                self.player.xp as int == xp_saturate(
                    p0.xp as int,
                    p0.xp_factor * taken_count(all.subrange(0, i as int), p0),
                ),
                self.player.xp >= p0.xp,
            decreases n - i,
        {
            proof {
                assert(all.subrange(0, i + 1).drop_last() =~= all.subrange(0, i as int));
                lemma_taken_count_bounds(all.subrange(0, i as int), p0);
                lemma_taken_count_bounds(all.subrange(0, i + 1), p0);
                assert(p0.xp_factor * taken_count(all.subrange(0, i as int), p0) >= 0)
                    by (nonlinear_arith)
                    requires
                        p0.xp_factor >= 0,
                        taken_count(all.subrange(0, i as int), p0) >= 0,
                ;
            }
            let d = self.diamonds[i];
            let dx = self.player.p.x - d.x;
            let dy = self.player.p.y - d.y;
            proof {
                crate::fixed::lemma_dist2_bounds(dx as int, dy as int);
                assert(0 <= self.player.diamond_radius * self.player.diamond_radius
                    <= 1_000_000_000_000_000_000) by (nonlinear_arith)
                    requires
                        0 <= self.player.diamond_radius <= 1_000_000_000,
                ;
            }
            if dx * dx + dy * dy < self.player.diamond_radius * self.player.diamond_radius {
                let raised = if self.player.xp > XP_MAX - self.player.xp_factor {
                    XP_MAX
                } else {
                    self.player.xp + self.player.xp_factor
                };
                proof {
                    assert(p0.xp_factor * taken_count(all.subrange(0, i + 1), p0) == p0.xp_factor
                        * taken_count(all.subrange(0, i as int), p0) + p0.xp_factor)
                        by (nonlinear_arith)
                        requires
                            taken_count(all.subrange(0, i + 1), p0) == taken_count(
                                all.subrange(0, i as int),
                                p0,
                            ) + 1,
                    ;
                }
                self.player.xp = raised;
            } else {
                kept.push(d);
            }
            i = i + 1;
        }
        proof {
            assert(all.subrange(0, n as int) =~= all);
            lemma_kept_sub(all, p0);
        }
        self.diamonds = kept;
    }
}

/// Retained enemies stay within the population and its bounds.
proof fn lemma_retained_sub(s: Seq<Enemy>, c: Pos, w: int, h: int)
    ensures
        retained_enemies(s, c, w, h).len() <= s.len(),
        forall|i: int|
            0 <= i < retained_enemies(s, c, w, h).len() ==> s.contains(
                #[trigger] retained_enemies(s, c, w, h)[i],
            ),
    decreases s.len(),
{
    if s.len() > 0 {
        lemma_retained_sub(s.drop_last(), c, w, h);
        assert forall|i: int| 0 <= i < retained_enemies(s, c, w, h).len() implies s.contains(
            #[trigger] retained_enemies(s, c, w, h)[i],
        ) by {
            let r = retained_enemies(s, c, w, h);
            let rp = retained_enemies(s.drop_last(), c, w, h);
            if i < rp.len() {
                assert(s.drop_last().contains(rp[i]));
                let j = choose|j: int| 0 <= j < s.drop_last().len() && s.drop_last()[j] == rp[i];
                assert(s[j] == rp[i]);
            } else {
                assert(r[i] == s.last());
                assert(s[s.len() - 1] == s.last());
            }
        }
    }
}

/// Live enemies stay within the population and its bounds.
proof fn lemma_live_sub(s: Seq<Enemy>)
    ensures
        live_enemies(s).len() <= s.len(),
        forall|i: int|
            0 <= i < live_enemies(s).len() ==> s.contains(#[trigger] live_enemies(s)[i]),
    decreases s.len(),
{
    if s.len() > 0 {
        lemma_live_sub(s.drop_last());
        assert forall|i: int| 0 <= i < live_enemies(s).len() implies s.contains(
            #[trigger] live_enemies(s)[i],
        ) by {
            let r = live_enemies(s);
            let rp = live_enemies(s.drop_last());
            if i < rp.len() {
                assert(s.drop_last().contains(rp[i]));
                let j = choose|j: int| 0 <= j < s.drop_last().len() && s.drop_last()[j] == rp[i];
                assert(s[j] == rp[i]);
            } else {
                assert(r[i] == s.last());
                assert(s[s.len() - 1] == s.last());
            }
        }
    }
}

/// Kept pickups stay within the field and its bounds.
proof fn lemma_kept_sub(s: Seq<Pos>, p: Player)
    ensures
        kept_diamonds(s, p).len() <= s.len(),
        forall|i: int|
            0 <= i < kept_diamonds(s, p).len() ==> s.contains(#[trigger] kept_diamonds(s, p)[i]),
    decreases s.len(),
{
    if s.len() > 0 {
        lemma_kept_sub(s.drop_last(), p);
        assert forall|i: int| 0 <= i < kept_diamonds(s, p).len() implies s.contains(
            #[trigger] kept_diamonds(s, p)[i],
        ) by {
            let r = kept_diamonds(s, p);
            let rp = kept_diamonds(s.drop_last(), p);
            if i < rp.len() {
                assert(s.drop_last().contains(rp[i]));
                let j = choose|j: int| 0 <= j < s.drop_last().len() && s.drop_last()[j] == rp[i];
                assert(s[j] == rp[i]);
            } else {
                assert(r[i] == s.last());
                assert(s[s.len() - 1] == s.last());
            }
        }
    }
}

/// How far a hit pushes an enemy away from the player.
pub const KNOCKBACK: i64 = 2_000;

/// `h` lowered by `d`, saturating at the health floor.
pub open spec fn health_minus(h: int, d: int) -> int {
    if h - d < HEALTH_LOW {
        HEALTH_LOW as int
    } else {
        h - d
    }
}

/// The enemy touches the player: inside the contact ellipse, which
/// weighs the vertical separation four-fold (the hitbox is flattened the
/// way the rendering is).
pub open spec fn contact_hit(p: Player, e: Enemy) -> bool {
    let dx = p.p.x - e.p.x;
    let dy = p.p.y - e.p.y;
    let s = et(e.t).size + p.size;
    dx * dx + 4 * (dy * dy) < s * s
}

/// The enemy stands strictly inside the player's damage aura.
pub open spec fn aura_hit(p: Player, e: Enemy) -> bool {
    let dx = p.p.x - e.p.x;
    let dy = p.p.y - e.p.y;
    dx * dx + dy * dy < p.damage_radius * p.damage_radius
}

/// The player's health after the first `k` enemies' contact damage.
pub open spec fn player_health_after(p: Player, s: Seq<Enemy>, dt: int, k: int) -> int
    decreases k,
{
    if k <= 0 {
        p.health as int
    } else {
        let prev = player_health_after(p, s, dt, k - 1);
        if contact_hit(p, s[k - 1]) {
            health_minus(prev, et(s[k - 1].t).power * dt / (SCALE as int))
        } else {
            prev
        }
    }
}

/// Where a knockback from `c` leaves a body standing at `e`: pushed a
/// fixed distance straight away, or left in place when the two coincide.
pub open spec fn knocked_pos(c: Pos, e: Pos) -> Pos {
    let dx = e.x - c.x;
    let dy = e.y - c.y;
    let d = crate::fixed::sqrt_floor(dx * dx + dy * dy);
    if d == 0 {
        e
    } else {
        Pos {
            x: clamp_spec(
                e.x + mul_div_trunc(dx, KNOCKBACK as int, d),
                -POS_LIMIT as int,
                POS_LIMIT as int,
            ) as i64,
            y: clamp_spec(
                e.y + mul_div_trunc(dy, KNOCKBACK as int, d),
                -POS_LIMIT as int,
                POS_LIMIT as int,
            ) as i64,
        }
    }
}

/// One enemy after the damage pass: inside the aura it loses
/// `power * dt` health and is knocked back; outside it is untouched.
pub open spec fn enemy_after_damage(p: Player, e: Enemy, dt: int) -> Enemy {
    if aura_hit(p, e) {
        Enemy {
            p: knocked_pos(p.p, e.p),
            health: health_minus(e.health as int, p.power * dt / (SCALE as int)) as i64,
            t: e.t,
        }
    } else {
        e
    }
}

/// Contact damage only lowers the player's health.
proof fn lemma_player_health_mono(p: Player, s: Seq<Enemy>, dt: int, k: int)
    requires
        dt >= 0,
        p.health >= HEALTH_LOW,
    ensures
        HEALTH_LOW <= player_health_after(p, s, dt, k) <= p.health,
        k >= 1 ==> player_health_after(p, s, dt, k) <= player_health_after(p, s, dt, k - 1),
    decreases (if k <= 0 {
        0int
    } else {
        k
    }),
{
    if k >= 1 {
        lemma_player_health_mono(p, s, dt, k - 1);
        if contact_hit(p, s[k - 1]) {
            crate::enemies::lemma_enemy_type_bounds(s[k - 1].t);
            assert(et(s[k - 1].t).power * dt >= 0) by (nonlinear_arith)
                requires
                    et(s[k - 1].t).power >= 0,
                    dt >= 0,
            ;
        }
    }
}

impl Game {
    /// Resolves one tick of damage, both ways. Each enemy in contact
    /// (inside the flattened contact ellipse) costs the player its
    /// `power * dt`; each enemy strictly inside the damage aura loses the
    /// player's `power * dt` and is knocked back a fixed distance away.
    /// Neither health ever increases here; damage is continuous, so a
    /// body inside a radius pays every tick it stays.
    pub fn apply_damage(&mut self, dt: i64)
        requires
            game_wf(*old(self)),
            0 <= dt <= DT_MAX,
        ensures
            game_wf(*final(self)),
            final(self).enemies@.len() == old(self).enemies@.len(),
            forall|i: int|
                0 <= i < old(self).enemies@.len() ==> final(self).enemies@[i]
                    == enemy_after_damage(old(self).player, old(self).enemies@[i], dt as int),
            final(self).player.health == player_health_after(
                old(self).player,
                old(self).enemies@,
                dt as int,
                old(self).enemies@.len() as int,
            ),
            final(self).player == (Player { health: final(self).player.health, ..old(self).player }),
            final(self).player.health <= old(self).player.health,
            forall|i: int|
                0 <= i < old(self).enemies@.len() ==> final(self).enemies@[i].health <= old(
                    self,
                ).enemies@[i].health,
            final(self).diamonds@ == old(self).diamonds@,
            final(self).i_enemy == old(self).i_enemy,
            final(self).rng@ == old(self).rng@,
            final(self).projectiles@ == old(self).projectiles@,
    {
        let ghost all = self.enemies@;
        let ghost p0 = self.player;
        let n = self.enemies.len();
        let mut i: usize = 0;
        while i < n
            invariant
                0 <= dt <= DT_MAX,
                n == all.len(),
                self.enemies@.len() == n,
                p0 == old(self).player,
                player_wf(p0),
                game_wf(*self),
                self.player == (Player { health: self.player.health, ..p0 }),
                self.diamonds@ == old(self).diamonds@,
                self.i_enemy == old(self).i_enemy,
                self.rng@ == old(self).rng@,
                self.projectiles@ == old(self).projectiles@,
                i <= n,
                forall|j: int|
                    0 <= j < i ==> self.enemies@[j] == enemy_after_damage(p0, all[j], dt as int),
                forall|j: int| i <= j < n ==> self.enemies@[j] == all[j],
                forall|j: int| 0 <= j < n ==> enemy_wf(#[trigger] all[j]),
                self.player.health == player_health_after(p0, all, dt as int, i as int),
                self.player.health <= p0.health,
            decreases n - i,
        {
            proof {
                lemma_player_health_mono(p0, all, dt as int, i + 1);
                lemma_player_health_mono(p0, all, dt as int, i as int);
                crate::enemies::lemma_enemy_type_bounds(all[i as int].t);
            }
            let e = self.enemies[i];
            let t = enemy_type(e.t);
            let dx = self.player.p.x - e.p.x;
            let dy = self.player.p.y - e.p.y;
            proof {
                crate::fixed::lemma_dist2_bounds(dx as int, dy as int);
            }

            // Contact: the player takes the enemy's power for this tick.
            let s = t.size + self.player.size;
            if -s <= dy && dy <= s {
                proof {
                    assert(0 <= 4 * (dy * dy) <= 8_000_000_000_000_000 && 0 <= s * s
                        <= 2_000_000_000_000_000) by (nonlinear_arith)
                        requires
                            -s <= dy <= s,
                            0 <= s <= 2_000_000,
                    ;
                }
                if dx * dx + 4 * (dy * dy) < s * s {
                    proof {
                        assert(0 <= t.power * dt <= 100_000 * 100_000) by (nonlinear_arith)
                            requires
                                0 <= t.power <= 100_000,
                                0 <= dt <= DT_MAX,
                        ;
                    }
                    let dmg = t.power * dt / SCALE;
                    let lowered = self.player.health - dmg;
                    self.player.health = if lowered < HEALTH_LOW {
                        HEALTH_LOW
                    } else {
                        lowered
                    };
                }
            } else {
                proof {
                    assert(dx * dx + 4 * (dy * dy) >= s * s) by (nonlinear_arith)
                        requires
                            dy > s >= 0 || -dy > s >= 0,
                            dx * dx >= 0,
                    ;
                }
            }

            // Aura: the enemy takes the player's power and a knockback.
            proof {
                assert(0 <= self.player.damage_radius * self.player.damage_radius
                    <= 1_000_000_000_000_000_000) by (nonlinear_arith)
                    requires
                        0 <= self.player.damage_radius <= STAT_MAX,
                ;
            }
            if dx * dx + dy * dy < self.player.damage_radius * self.player.damage_radius {
                proof {
                    assert(0 <= p0.power * dt <= 1_000_000_000 * 100_000) by (nonlinear_arith)
                        requires
                            0 <= p0.power <= STAT_MAX,
                            0 <= dt <= DT_MAX,
                    ;
                }
                let dmg = self.player.power * dt / SCALE;
                let lowered = e.health - dmg;
                let new_health = if lowered < HEALTH_LOW {
                    HEALTH_LOW
                } else {
                    lowered
                };

                let dxe = e.p.x - self.player.p.x;
                let dye = e.p.y - self.player.p.y;
                proof {
                    crate::fixed::lemma_dist2_bounds(dxe as int, dye as int);
                }
                let d = crate::fixed::isqrt((dxe * dxe + dye * dye) as u64);
                let new_p = if d == 0 {
                    e.p
                } else {
                    proof {
                        crate::fixed::lemma_component_le_norm(dxe as int, dye as int);
                        crate::fixed::lemma_unit_bound(dxe as int, KNOCKBACK as int, d as int);
                        crate::fixed::lemma_unit_bound(dye as int, KNOCKBACK as int, d as int);
                        assert((if dxe >= 0 { dxe as int } else { -dxe as int }) * KNOCKBACK
                            < 0x8000_0000_0000_0000) by (nonlinear_arith)
                            requires
                                -2_000_000_000 <= dxe <= 2_000_000_000,
                        ;
                        assert((if dye >= 0 { dye as int } else { -dye as int }) * KNOCKBACK
                            < 0x8000_0000_0000_0000) by (nonlinear_arith)
                            requires
                                -2_000_000_000 <= dye <= 2_000_000_000,
                        ;
                    }
                    let px = crate::fixed::mul_div_signed(dxe, KNOCKBACK as u64, d);
                    let py = crate::fixed::mul_div_signed(dye, KNOCKBACK as u64, d);
                    Pos {
                        x: clamp_i64(e.p.x + px, -POS_LIMIT, POS_LIMIT),
                        y: clamp_i64(e.p.y + py, -POS_LIMIT, POS_LIMIT),
                    }
                };
                let new_e = Enemy { p: new_p, health: new_health, t: e.t };
                self.enemies[i] = new_e;
            }
            i = i + 1;
        }
    }
}

/// The unit vector from `from` toward `to`, scaled by `SCALE`; zero when
/// the two points coincide (the guarded edge case).
pub open spec fn unit_toward(from: Pos, to: Pos) -> (int, int) {
    let dx = to.x - from.x;
    let dy = to.y - from.y;
    let d = crate::fixed::sqrt_floor(dx * dx + dy * dy);
    if d == 0 {
        (0int, 0int)
    } else {
        (mul_div_trunc(dx, SCALE as int, d), mul_div_trunc(dy, SCALE as int, d))
    }
}

/// Neighbor `j` repels enemy `i`: distinct bodies, strictly overlapping
/// (closer than their combined sizes), and not at the exact same point.
pub open spec fn repels(s: Seq<Enemy>, i: int, j: int) -> bool {
    let dx = s[j].p.x - s[i].p.x;
    let dy = s[j].p.y - s[i].p.y;
    let sz = et(s[i].t).size + et(s[j].t).size;
    j != i && 0 < dx * dx + dy * dy && dx * dx + dy * dy < sz * sz
}

/// The steering vector of enemy `i` after weighing neighbors `0..j`:
/// attraction toward the player minus one unit vector per overlapping
/// neighbor.
pub open spec fn flock_rec(s: Seq<Enemy>, c: Pos, i: int, j: int) -> (int, int)
    decreases j,
{
    if j <= 0 {
        unit_toward(s[i].p, c)
    } else {
        let prev = flock_rec(s, c, i, j - 1);
        if repels(s, i, j - 1) {
            let away = unit_toward(s[i].p, s[j - 1].p);
            (prev.0 - away.0, prev.1 - away.1)
        } else {
            prev
        }
    }
}

/// Where enemy `i` stands after one tick of flocking: advanced by
/// `speed * dt` along its normalized steering vector, or kept in place
/// when that vector vanishes.
pub open spec fn stepped_pos(s: Seq<Enemy>, c: Pos, i: int, dt: int) -> Pos {
    let (ux, uy) = flock_rec(s, c, i, s.len() as int);
    let d = crate::fixed::sqrt_floor(ux * ux + uy * uy);
    if d == 0 {
        s[i].p
    } else {
        let sd = et(s[i].t).speed * dt / (SCALE as int);
        Pos {
            x: clamp_spec(
                s[i].p.x + mul_div_trunc(ux, sd, d),
                -POS_LIMIT as int,
                POS_LIMIT as int,
            ) as i64,
            y: clamp_spec(
                s[i].p.y + mul_div_trunc(uy, sd, d),
                -POS_LIMIT as int,
                POS_LIMIT as int,
            ) as i64,
        }
    }
}

/// The population after the first `k` enemies moved, each one steering
/// through the population as the ones before it already left it.
pub open spec fn enemies_moved(s: Seq<Enemy>, c: Pos, dt: int, k: int) -> Seq<Enemy>
    decreases k,
{
    if k <= 0 {
        s
    } else {
        let prev = enemies_moved(s, c, dt, k - 1);
        prev.update(
            k - 1,
            Enemy { p: stepped_pos(prev, c, k - 1, dt), ..prev[k - 1] },
        )
    }
}

/// Moving keeps the population's length and touches only moved entries.
proof fn lemma_enemies_moved_frame(s: Seq<Enemy>, c: Pos, dt: int, k: int)
    requires
        0 <= k <= s.len(),
    ensures
        enemies_moved(s, c, dt, k).len() == s.len(),
        forall|j: int| k <= j < s.len() ==> enemies_moved(s, c, dt, k)[j] == s[j],
        forall|j: int|
            0 <= j < k ==> (#[trigger] enemies_moved(s, c, dt, k)[j]).t == s[j].t
                && enemies_moved(s, c, dt, k)[j].health == s[j].health,
    decreases k,
{
    if k > 0 {
        lemma_enemies_moved_frame(s, c, dt, k - 1);
    }
}

/// The steering vector after `j` neighbors is at most `j + 1` units long
/// per component.
proof fn lemma_flock_bound(s: Seq<Enemy>, c: Pos, i: int, j: int)
    requires
        j >= 0,
    ensures
        -(SCALE as int) * (j + 1) <= flock_rec(s, c, i, j).0 <= (SCALE as int) * (j + 1),
        -(SCALE as int) * (j + 1) <= flock_rec(s, c, i, j).1 <= (SCALE as int) * (j + 1),
    decreases j,
{
    let f = flock_rec(s, c, i, j);
    if j == 0 {
        let dx = c.x - s[i].p.x;
        let dy = c.y - s[i].p.y;
        let d = crate::fixed::sqrt_floor(dx * dx + dy * dy);
        crate::fixed::lemma_component_le_norm(dx, dy);
        if d != 0 {
            crate::fixed::lemma_unit_bound(dx, SCALE as int, d);
            crate::fixed::lemma_unit_bound(dy, SCALE as int, d);
        }
    } else {
        lemma_flock_bound(s, c, i, j - 1);
        if repels(s, i, j - 1) {
            let dx = s[j - 1].p.x - s[i].p.x;
            let dy = s[j - 1].p.y - s[i].p.y;
            let d = crate::fixed::sqrt_floor(dx * dx + dy * dy);
            crate::fixed::lemma_component_le_norm(dx, dy);
            assert(d != 0);
            crate::fixed::lemma_unit_bound(dx, SCALE as int, d);
            crate::fixed::lemma_unit_bound(dy, SCALE as int, d);
        }
    }
}

impl Game {
    /// Advances every enemy by one tick of flocking: each steers one unit
    /// vector toward the player, minus one unit vector away from every
    /// neighbor it overlaps, and walks `speed * dt` along the normalized
    /// result. Enemies move in index order and each one sees the
    /// positions the ones before it already took. Coincident bodies
    /// repel nothing and are never divided by.
    pub fn move_enemies(&mut self, dt: i64)
        requires
            game_wf(*old(self)),
            0 <= dt <= DT_MAX,
        ensures
            game_wf(*final(self)),
            final(self).enemies@ == enemies_moved(
                old(self).enemies@,
                old(self).player.p,
                dt as int,
                old(self).enemies@.len() as int,
            ),
            final(self).player == old(self).player,
            final(self).diamonds@ == old(self).diamonds@,
            final(self).i_enemy == old(self).i_enemy,
            final(self).rng@ == old(self).rng@,
            final(self).projectiles@ == old(self).projectiles@,
    {
        let ghost all = self.enemies@;
        let ghost c0 = self.player.p;
        let n = self.enemies.len();
        let mut i: usize = 0;
        while i < n
            invariant
                0 <= dt <= DT_MAX,
                n == all.len() == self.enemies@.len(),
                n <= MAX_ENEMIES,
                game_wf(*self),
                self.player == old(self).player,
                c0 == self.player.p,
                self.diamonds@ == old(self).diamonds@,
                self.i_enemy == old(self).i_enemy,
                self.rng@ == old(self).rng@,
                self.projectiles@ == old(self).projectiles@,
                i <= n,
                self.enemies@ == enemies_moved(all, c0, dt as int, i as int),
            decreases n - i,
        {
            let ghost cur = self.enemies@;
            proof {
                lemma_enemies_moved_frame(all, c0, dt as int, i as int);
            }
            let e = self.enemies[i];
            let dxp = self.player.p.x - e.p.x;
            let dyp = self.player.p.y - e.p.y;
            proof {
                crate::fixed::lemma_dist2_bounds(dxp as int, dyp as int);
                crate::fixed::lemma_component_le_norm(dxp as int, dyp as int);
            }
            let dp = crate::fixed::isqrt((dxp * dxp + dyp * dyp) as u64);
            let mut ux: i64;
            let mut uy: i64;
            if dp == 0 {
                ux = 0;
                uy = 0;
            } else {
                proof {
                    crate::fixed::lemma_unit_bound(dxp as int, SCALE as int, dp as int);
                    crate::fixed::lemma_unit_bound(dyp as int, SCALE as int, dp as int);
                    assert((if dxp >= 0 { dxp as int } else { -dxp as int }) * (SCALE as u64)
                        < 0x8000_0000_0000_0000 && (if dyp >= 0 { dyp as int } else { -dyp as int })
                        * (SCALE as u64) < 0x8000_0000_0000_0000) by (nonlinear_arith)
                        requires
                            -2_000_000_000 <= dxp <= 2_000_000_000,
                            -2_000_000_000 <= dyp <= 2_000_000_000,
                    ;
                }
                ux = crate::fixed::mul_div_signed(dxp, SCALE as u64, dp);
                uy = crate::fixed::mul_div_signed(dyp, SCALE as u64, dp);
            }
            assert((ux as int, uy as int) == flock_rec(cur, c0, i as int, 0));

            let mut j: usize = 0;
            while j < n
                invariant
                    0 <= dt <= DT_MAX,
                    n == cur.len() == self.enemies@.len(),
                    n <= MAX_ENEMIES,
                    game_wf(*self),
                    cur == self.enemies@,
                    c0 == self.player.p,
                    i < n,
                    j <= n,
                    e == cur[i as int],
                    (ux as int, uy as int) == flock_rec(cur, c0, i as int, j as int),
                    -1000 * (j + 1) <= ux as int <= 1000 * (j + 1),
                    -1000 * (j + 1) <= uy as int <= 1000 * (j + 1),
                decreases n - j,
            {
                proof {
                    lemma_flock_bound(cur, c0, i as int, j as int);
                }
                if j != i {
                    let o = self.enemies[j];
                    let dxm = o.p.x - e.p.x;
                    let dym = o.p.y - e.p.y;
                    proof {
                        crate::fixed::lemma_dist2_bounds(dxm as int, dym as int);
                        crate::fixed::lemma_component_le_norm(dxm as int, dym as int);
                    }
                    let d2 = dxm * dxm + dym * dym;
                    let te = enemy_type(e.t);
                    let to = enemy_type(o.t);
                    proof {
                        crate::enemies::lemma_enemy_type_bounds(e.t);
                        crate::enemies::lemma_enemy_type_bounds(o.t);
                        assert(0 <= (te.size + to.size) * (te.size + to.size)
                            <= 40_000_000_000) by (nonlinear_arith)
                            requires
                                0 <= te.size + to.size <= 200_000,
                        ;
                    }
                    let sz = te.size + to.size;
                    if 0 < d2 && d2 < sz * sz {
                        let dm = crate::fixed::isqrt(d2 as u64);
                        proof {
                            assert(dm > 0) by (nonlinear_arith)
                                requires
                                    crate::fixed::is_sqrt_floor(d2 as int, dm as int),
                                    d2 > 0,
                            ;
                            crate::fixed::lemma_unit_bound(dxm as int, SCALE as int, dm as int);
                            crate::fixed::lemma_unit_bound(dym as int, SCALE as int, dm as int);
                            assert((if dxm >= 0 { dxm as int } else { -dxm as int }) * (
                            SCALE as u64) < 0x8000_0000_0000_0000 && (if dym >= 0 {
                                dym as int
                            } else {
                                -dym as int
                            }) * (SCALE as u64) < 0x8000_0000_0000_0000) by (nonlinear_arith)
                                requires
                                    -2_000_000_000 <= dxm <= 2_000_000_000,
                                    -2_000_000_000 <= dym <= 2_000_000_000,
                            ;
                        }
                        let ax = crate::fixed::mul_div_signed(dxm, SCALE as u64, dm);
                        let ay = crate::fixed::mul_div_signed(dym, SCALE as u64, dm);
                        ux = ux - ax;
                        uy = uy - ay;
                    }
                }
                j = j + 1;
            }

            proof {
                assert(-201_000 <= ux as int <= 201_000 && -201_000 <= uy as int <= 201_000);
                assert(0 <= (ux as int) * (ux as int) + (uy as int) * (uy as int)
                    <= 90_000_000_000 && 0 <= (ux as int) * (ux as int) <= 45_000_000_000 && 0 <= (
                uy as int) * (uy as int) <= 45_000_000_000) by (nonlinear_arith)
                    requires
                        -201_000 <= ux as int <= 201_000,
                        -201_000 <= uy as int <= 201_000,
                ;
                crate::fixed::lemma_component_le_norm(ux as int, uy as int);
                crate::enemies::lemma_enemy_type_bounds(e.t);
            }
            let d = crate::fixed::isqrt((ux * ux + uy * uy) as u64);
            let new_p = if d == 0 {
                e.p
            } else {
                let te = enemy_type(e.t);
                proof {
                    assert(0 <= te.speed * dt <= 10_000_000_000) by (nonlinear_arith)
                        requires
                            0 <= te.speed <= 100_000,
                            0 <= dt <= DT_MAX,
                    ;
                }
                let sd = te.speed * dt / SCALE;
                proof {
                    assert((if ux >= 0 { ux as int } else { -ux as int }) * (sd as u64)
                        < 0x8000_0000_0000_0000 && (if uy >= 0 { uy as int } else { -uy as int }) * (
                    sd as u64) < 0x8000_0000_0000_0000) by (nonlinear_arith)
                        requires
                            -201_000 <= ux as int <= 201_000,
                            -201_000 <= uy as int <= 201_000,
                            0 <= sd <= 10_000_000,
                    ;
                    crate::fixed::lemma_unit_bound(ux as int, sd as int, d as int);
                    crate::fixed::lemma_unit_bound(uy as int, sd as int, d as int);
                }
                let mx = crate::fixed::mul_div_signed(ux, sd as u64, d);
                let my = crate::fixed::mul_div_signed(uy, sd as u64, d);
                Pos {
                    x: clamp_i64(e.p.x + mx, -POS_LIMIT, POS_LIMIT),
                    y: clamp_i64(e.p.y + my, -POS_LIMIT, POS_LIMIT),
                }
            };
            let new_e = Enemy { p: new_p, health: e.health, t: e.t };
            self.enemies[i] = new_e;
            proof {
                assert(new_p == stepped_pos(cur, c0, i as int, dt as int));
                assert(self.enemies@ == enemies_moved(all, c0, dt as int, i + 1));
            }
            i = i + 1;
        }
    }
}

/// The population is ordered front-to-back: world y ascending.
pub open spec fn sorted_by_y(s: Seq<Enemy>) -> bool {
    forall|a: int, b: int| 0 <= a < b < s.len() ==> s[a].p.y <= s[b].p.y
}

impl Game {
    /// Orders the enemies by world y ascending, a depth sort for
    /// rendering: the population is a permutation of what it was.
    pub fn sort_enemies(&mut self)
        requires
            game_wf(*old(self)),
        ensures
            game_wf(*final(self)),
            sorted_by_y(final(self).enemies@),
            final(self).enemies@.to_multiset() == old(self).enemies@.to_multiset(),
            final(self).enemies@.len() == old(self).enemies@.len(),
            final(self).player == old(self).player,
            final(self).diamonds@ == old(self).diamonds@,
            final(self).i_enemy == old(self).i_enemy,
            final(self).rng@ == old(self).rng@,
            final(self).projectiles@ == old(self).projectiles@,
    {
        broadcast use vstd::seq_lib::group_to_multiset_ensures;

        let ghost all = self.enemies@;
        let mut rest: Vec<Enemy> = Vec::new();
        let mut q: usize = 0;
        while q < self.enemies.len()
            invariant
                game_wf(*self),
                self.enemies@ == all,
                q <= all.len(),
                rest@ == all.subrange(0, q as int),
            decreases all.len() - q,
        {
            rest.push(self.enemies[q]);
            q = q + 1;
        }
        proof {
            assert(all.subrange(0, all.len() as int) =~= all);
        }
        let mut out: Vec<Enemy> = Vec::new();
        while rest.len() > 0
            invariant
                game_wf(*self),
                self.enemies@ == all,
                self.player == old(self).player,
                self.diamonds@ == old(self).diamonds@,
                self.i_enemy == old(self).i_enemy,
                self.rng@ == old(self).rng@,
                self.projectiles@ == old(self).projectiles@,
                out@.to_multiset().add(rest@.to_multiset()) =~= all.to_multiset(),
                out@.len() + rest@.len() == all.len(),
                sorted_by_y(out@),
                forall|a: int, b: int|
                    0 <= a < out@.len() && 0 <= b < rest@.len() ==> out@[a].p.y <= rest@[b].p.y,
                forall|j: int| 0 <= j < out@.len() ==> enemy_wf(#[trigger] out@[j]),
                forall|j: int| 0 <= j < rest@.len() ==> enemy_wf(#[trigger] rest@[j]),
            decreases rest@.len(),
        {
            // Find the index of the least y among the rest.
            let mut m: usize = 0;
            let mut k: usize = 1;
            while k < rest.len()
                invariant
                    rest@.len() > 0,
                    m < k <= rest@.len(),
                    forall|j: int| 0 <= j < k ==> rest@[m as int].p.y <= #[trigger] rest@[j].p.y,
                decreases rest@.len() - k,
            {
                if rest[k].p.y < rest[m].p.y {
                    m = k;
                }
                k = k + 1;
            }
            let ghost before = rest@;
            let ghost out0 = out@;
            let e = rest.remove(m);
            proof {
                before.to_multiset_ensures();
                out0.to_multiset_ensures();
                assert(before[m as int] == e);
                assert(before.contains(e));
                assert(before.to_multiset().count(e) > 0);
                assert(rest@.to_multiset() =~= before.to_multiset().remove(e));
            }
            out.push(e);
            proof {
                assert(out@.to_multiset() =~= out0.to_multiset().insert(e));
                assert(out@.to_multiset().add(rest@.to_multiset()) =~= out0.to_multiset().add(
                    before.to_multiset(),
                ));
            }
        }
        self.enemies = out;
        proof {
            assert(self.enemies@.to_multiset() =~= all.to_multiset());
        }
    }
}

/// Horizontal spawn margin: half a sprite width beyond the view edge.
pub const SPAWN_MARGIN_X: i64 = 18_000;

/// Vertical spawn margin: a sprite height beyond the view edge, in the
/// stretched world metric.
pub const SPAWN_MARGIN_Y: i64 = 33_600;

/// A point just outside one of the view's four edges (top, right,
/// bottom, left), `along` thousandths of the way along that edge,
/// relative to the view's top-left corner.
pub open spec fn edge_point(edge: int, along: int, width: int, height: int) -> (int, int) {
    if edge == 0 {
        (along * width / 1000, -(SPAWN_MARGIN_Y as int))
    } else if edge == 1 {
        (width + SPAWN_MARGIN_X, along * height / 1000)
    } else if edge == 2 {
        (along * width / 1000, height + SPAWN_MARGIN_Y)
    } else {
        (-(SPAWN_MARGIN_X as int), along * height / 1000)
    }
}

/// The world position of a spawn: the edge point shifted so the view is
/// centered on the player.
pub open spec fn spawn_world_pos(p: Pos, edge: int, along: int, w: int, h: int) -> Pos {
    let e = edge_point(edge, along, w, h);
    Pos {
        x: clamp_spec(e.0 + p.x - w / 2, -POS_LIMIT as int, POS_LIMIT as int) as i64,
        y: clamp_spec(e.1 + p.y - h / 2, -POS_LIMIT as int, POS_LIMIT as int) as i64,
    }
}

/// One wave entry's spawn decision. A roll succeeds with probability
/// `weight * dt` (a thousandth each); a success draws an edge and a point
/// along it, spawns there unless the population is capped, and advances
/// the spawn counter either way.
pub open spec fn spawn_step(
    enemies: Seq<Enemy>,
    counter: u64,
    rng: u64,
    entry: (EnemyTypeId, i64),
    p: Pos,
    dt: int,
    w: int,
    h: int,
) -> (Seq<Enemy>, u64, u64) {
    let s1 = crate::rng::rng_next_state(rng);
    let roll = (crate::rng::rng_output(s1) % 1000) as int;
    if roll * 1000 < entry.1 * dt {
        let s2 = crate::rng::rng_next_state(s1);
        let edge = (crate::rng::rng_output(s2) % 4) as int;
        let s3 = crate::rng::rng_next_state(s2);
        let along = (crate::rng::rng_output(s3) % 1000) as int;
        let ne = Enemy {
            p: spawn_world_pos(p, edge, along, w, h),
            health: et(entry.0).health,
            t: entry.0,
        };
        let grown = if enemies.len() < MAX_ENEMIES {
            enemies.push(ne)
        } else {
            enemies
        };
        (grown, ((counter + 1) % 0x1_0000_0000_0000_0000) as u64, s3)
    } else {
        (enemies, counter, s1)
    }
}

/// The world after the first `k` wave entries took their spawn decision.
pub open spec fn spawn_fold(
    enemies: Seq<Enemy>,
    counter: u64,
    rng: u64,
    entries: Seq<(EnemyTypeId, i64)>,
    k: int,
    p: Pos,
    dt: int,
    w: int,
    h: int,
) -> (Seq<Enemy>, u64, u64)
    decreases k,
{
    if k <= 0 {
        (enemies, counter, rng)
    } else {
        let prev = spawn_fold(enemies, counter, rng, entries, k - 1, p, dt, w, h);
        spawn_step(prev.0, prev.1, prev.2, entries[k - 1], p, dt, w, h)
    }
}

/// Spawning only appends.
proof fn lemma_spawn_fold_prefix(
    enemies: Seq<Enemy>,
    counter: u64,
    rng: u64,
    entries: Seq<(EnemyTypeId, i64)>,
    k: int,
    p: Pos,
    dt: int,
    w: int,
    h: int,
)
    requires
        k >= 0,
    ensures
        enemies.is_prefix_of(spawn_fold(enemies, counter, rng, entries, k, p, dt, w, h).0),
        spawn_fold(enemies, counter, rng, entries, k, p, dt, w, h).0.len() <= enemies.len() + k,
    decreases k,
{
    if k > 0 {
        lemma_spawn_fold_prefix(enemies, counter, rng, entries, k - 1, p, dt, w, h);
        let prev = spawn_fold(enemies, counter, rng, entries, k - 1, p, dt, w, h);
        let next = spawn_step(prev.0, prev.1, prev.2, entries[k - 1], p, dt, w, h);
        assert(prev.0.is_prefix_of(next.0));
    }
}

impl Game {
    /// Rolls one spawn chance per entry of the active wave: each entry
    /// spawns with probability `weight * dt`, at a random point just
    /// outside a random edge of the view. The population cap suppresses
    /// the spawn itself, but a successful roll advances the spawn counter
    /// regardless.
    #[verifier::rlimit(50)]
    pub fn spawn_enemies(&mut self, dt: i64, width: i64, height: i64)
        requires
            game_wf(*old(self)),
            0 <= dt <= DT_MAX,
            0 <= width <= 100_000_000,
            0 <= height <= 100_000_000,
        ensures
            game_wf(*final(self)),
            (final(self).enemies@, final(self).i_enemy, final(self).rng@) == spawn_fold(
                old(self).enemies@,
                old(self).i_enemy,
                old(self).rng@,
                crate::enemies::wave_spec(old(self).i_enemy as int),
                crate::enemies::wave_spec(old(self).i_enemy as int).len() as int,
                old(self).player.p,
                dt as int,
                width as int,
                height as int,
            ),
            old(self).enemies@.is_prefix_of(final(self).enemies@),
            final(self).enemies@.len() <= old(self).enemies@.len() + 2,
            final(self).player == old(self).player,
            final(self).diamonds@ == old(self).diamonds@,
            final(self).projectiles@ == old(self).projectiles@,
    {
        let ghost all0 = self.enemies@;
        let ghost c0 = self.i_enemy;
        let ghost r0 = self.rng@;
        let ghost p0 = self.player.p;
        let wave = crate::enemies::get_wave(self.i_enemy);
        let nw = wave.len();
        let mut k: usize = 0;
        while k < nw
            invariant
                game_wf(*self),
                0 <= dt <= DT_MAX,
                0 <= width <= 100_000_000,
                0 <= height <= 100_000_000,
                nw == wave@.len() <= 2,
                wave@ == crate::enemies::wave_spec(c0 as int),
                forall|j: int| 0 <= j < nw ==> 0 < (#[trigger] wave@[j]).1 <= 10_000,
                k <= nw,
                self.player == old(self).player,
                p0 == self.player.p,
                self.diamonds@ == old(self).diamonds@,
                self.projectiles@ == old(self).projectiles@,
                (self.enemies@, self.i_enemy, self.rng@) == spawn_fold(
                    all0,
                    c0,
                    r0,
                    wave@,
                    k as int,
                    p0,
                    dt as int,
                    width as int,
                    height as int,
                ),
                all0.is_prefix_of(self.enemies@),
                self.enemies@.len() <= all0.len() + k,
            decreases nw - k,
        {
            proof {
                lemma_spawn_fold_prefix(
                    all0,
                    c0,
                    r0,
                    wave@,
                    k as int,
                    p0,
                    dt as int,
                    width as int,
                    height as int,
                );
            }
            let entry = wave[k];
            let roll = self.rng.gen_unit();
            proof {
                assert(0 <= entry.1 * dt <= 1_000_000_000) by (nonlinear_arith)
                    requires
                        0 < entry.1 <= 10_000,
                        0 <= dt <= DT_MAX,
                ;
            }
            if roll * SCALE < entry.1 * dt {
                let edge = self.rng.gen_range(0, 4);
                let along = self.rng.gen_unit();
                proof {
                    assert(0 <= along * width <= 100_000_000_000 && 0 <= along * height
                        <= 100_000_000_000) by (nonlinear_arith)
                        requires
                            0 <= along < 1000,
                            0 <= width <= 100_000_000,
                            0 <= height <= 100_000_000,
                    ;
                }
                let (sx, sy): (i64, i64) = if edge == 0 {
                    (along * width / SCALE, -SPAWN_MARGIN_Y)
                } else if edge == 1 {
                    (width + SPAWN_MARGIN_X, along * height / SCALE)
                } else if edge == 2 {
                    (along * width / SCALE, height + SPAWN_MARGIN_Y)
                } else {
                    (-SPAWN_MARGIN_X, along * height / SCALE)
                };
                let px = clamp_i64(sx + self.player.p.x - width / 2, -POS_LIMIT, POS_LIMIT);
                let py = clamp_i64(sy + self.player.p.y - height / 2, -POS_LIMIT, POS_LIMIT);
                let ne = get_enemy(px, py, entry.0);
                if self.enemies.len() < MAX_ENEMIES {
                    self.enemies.push(ne);
                }
                self.i_enemy = self.i_enemy.wrapping_add(1);
            }
            k = k + 1;
        }
    }
}

/// The deterministic part of one tick: the world after movement, the
/// despawn window, damage, culling, pickups and recovery — everything up
/// to the level-ups, spawns and the depth sort.
pub open spec fn step_world(
    player0: Player,
    enemies0: Seq<Enemy>,
    diamonds0: Seq<Pos>,
    dt: int,
    w: int,
    h: int,
) -> (Player, Seq<Enemy>, Seq<Pos>) {
    let p_moved = Player {
        p: moved_pos(player0.p, player0.dir, player0.speed as int, dt),
        ..player0
    };
    let e_moved = enemies_moved(enemies0, p_moved.p, dt, enemies0.len() as int);
    let e_ret = retained_enemies(e_moved, p_moved.p, w, h);
    let p_dmg = Player {
        health: player_health_after(p_moved, e_ret, dt, e_ret.len() as int) as i64,
        ..p_moved
    };
    let e_dmg = Seq::new(e_ret.len(), |i: int| enemy_after_damage(p_moved, e_ret[i], dt));
    let e_live = live_enemies(e_dmg);
    let d_drops = diamonds0 + drop_positions(e_dmg);
    let p_pick = Player {
        xp: xp_saturate(
            p_dmg.xp as int,
            p_dmg.xp_factor * taken_count(d_drops, p_dmg),
        ) as i64,
        ..p_dmg
    };
    let d_kept = kept_diamonds(d_drops, p_dmg);
    let gain = p_pick.health + p_pick.health_recover * dt / (SCALE as int);
    let p_rec = Player {
        health: (if gain > p_pick.health_max {
            p_pick.health_max as int
        } else {
            gain
        }) as i64,
        ..p_pick
    };
    (p_rec, e_live, d_kept)
}

/// A prefix never counts an element more often than the whole.
proof fn lemma_prefix_multiset_le(s: Seq<Enemy>, t: Seq<Enemy>)
    requires
        s.is_prefix_of(t),
    ensures
        forall|x: Enemy|
            s.to_multiset().count(x) <= #[trigger] t.to_multiset().count(x),
    decreases t.len() - s.len(),
{
    if s.len() < t.len() {
        let t2 = t.drop_last();
        assert(s.is_prefix_of(t2)) by {
            assert(s =~= t2.subrange(0, s.len() as int));
        }
        lemma_prefix_multiset_le(s, t2);
        t2.to_multiset_ensures();
        assert(t2.push(t.last()) =~= t);
    } else {
        assert(s =~= t);
    }
}

impl Game {
    /// One tick: moves the player and the flocking enemies, despawns what
    /// left the window, resolves damage both ways, turns the dead into
    /// pickups, collects pickups into experience, recovers, levels up,
    /// spawns from the active wave, and depth-sorts the population. The
    /// world up to the level-ups is a function of the old world alone;
    /// level-ups keep the experience and grow stats, and spawning only
    /// adds enemies.
    pub fn step(&mut self, dt: i64, width: i64, height: i64)
        requires
            game_wf(*old(self)),
            0 <= dt <= DT_MAX,
            0 <= width <= 100_000_000,
            0 <= height <= 100_000_000,
        ensures
            game_wf(*final(self)),
            sorted_by_y(final(self).enemies@),
            final(self).projectiles@ == old(self).projectiles@,
            ({
                let (p1, e1, d1) = step_world(
                    old(self).player,
                    old(self).enemies@,
                    old(self).diamonds@,
                    dt as int,
                    width as int,
                    height as int,
                );
                let leveled = levelup_fold(p1, old(self).rng@);
                let spawned = spawn_fold(
                    e1,
                    old(self).i_enemy,
                    leveled.1,
                    crate::enemies::wave_spec(old(self).i_enemy as int),
                    crate::enemies::wave_spec(old(self).i_enemy as int).len() as int,
                    leveled.0.p,
                    dt as int,
                    width as int,
                    height as int,
                );
                &&& final(self).diamonds@ == d1
                &&& final(self).player == leveled.0
                &&& final(self).player.xp < final(self).player.next_level
                &&& final(self).i_enemy == spawned.1
                &&& final(self).rng@ == spawned.2
                &&& final(self).enemies@.to_multiset() == spawned.0.to_multiset()
                &&& e1.len() <= final(self).enemies@.len() <= e1.len() + 2
                &&& (forall|x: Enemy|
                    e1.to_multiset().count(x)
                        <= #[trigger] final(self).enemies@.to_multiset().count(x))
            }),
    {
        let ghost w0 = *old(self);
        self.move_player(dt);
        self.move_enemies(dt);
        self.despawn_enemies(width, height);
        self.apply_damage(dt);
        proof {
            let (p1, e1, d1) = step_world(
                w0.player,
                w0.enemies@,
                w0.diamonds@,
                dt as int,
                width as int,
                height as int,
            );
            let p_moved = Player {
                p: moved_pos(w0.player.p, w0.player.dir, w0.player.speed as int, dt as int),
                ..w0.player
            };
            let e_moved = enemies_moved(w0.enemies@, p_moved.p, dt as int, w0.enemies@.len() as int);
            let e_ret = retained_enemies(e_moved, p_moved.p, width as int, height as int);
            assert(self.enemies@ =~= Seq::new(
                e_ret.len(),
                |i: int| enemy_after_damage(p_moved, e_ret[i], dt as int),
            ));
        }
        self.cull_dead();
        self.pick_diamonds();
        self.player.recover(dt);
        self.player.levelup(&mut self.rng);
        let ghost before_spawn = self.enemies@;
        self.spawn_enemies(dt, width, height);
        let ghost after_spawn = self.enemies@;
        self.sort_enemies();
        proof {
            lemma_prefix_multiset_le(before_spawn, after_spawn);
        }
    }
}

use crate::screen::{Screen, Color, render_bar, bar_spec};

/// Draws the experience gauge along the top: the filled fraction is the
/// progress from the last level threshold to the next, in blue.
pub fn render_xp_bar(player: &Player, screen: &mut Screen)
    requires
        player_wf(*player),
        player.last_level <= player.xp <= player.next_level,
        old(screen).wf(),
        old(screen).width >= 1,
        old(screen).height >= 3,
    ensures
        final(screen).wf(),
        final(screen).width == old(screen).width,
        final(screen).height == old(screen).height,
        final(screen)@ == bar_spec(
            old(screen)@,
            old(screen).width as int,
            0,
            old(screen).width as int * (player.xp - player.last_level) / (player.next_level
                - player.last_level),
            Color { r: 0, g: 0, b: 255 },
        ),
{
    let num = player.xp - player.last_level;
    let den = player.next_level - player.last_level;
    render_bar(screen, num, den, 0, Color { r: 0, g: 0, b: 255 });
}

/// Draws the health gauge along the bottom: the filled fraction is the
/// current health over the ceiling, in red; a dead player's negative
/// health draws as empty.
pub fn render_health_bar(player: &Player, screen: &mut Screen)
    requires
        player_wf(*player),
        old(screen).wf(),
        old(screen).width >= 1,
        old(screen).height >= 3,
    ensures
        final(screen).wf(),
        final(screen).width == old(screen).width,
        final(screen).height == old(screen).height,
        final(screen)@ == bar_spec(
            old(screen)@,
            old(screen).width as int,
            old(screen).height - 3,
            old(screen).width as int * (if player.health < 0 {
                0int
            } else {
                player.health as int
            }) / (player.health_max as int),
            Color { r: 255, g: 0, b: 0 },
        ),
{
    let num = if player.health < 0 {
        0
    } else {
        player.health
    };
    render_bar(screen, num, player.health_max, screen.height - 3, Color { r: 255, g: 0, b: 0 });
}

use crate::window::{
    Window,
    win_wf,
    win_fill_spec,
    circle_paint,
    sprite_paint,
    sprite_x0,
    sprite_y0,
};
use crate::sprites::{SpriteSet, set_wf, spec_sprite_of, Sprite, sprite_wf};
use crate::enemies::SpriteId;
use crate::weapons::Projectile;

/// The screen after one sprite is blitted centered at world `(cx, cy)`.
pub open spec fn draw_sprite_spec(
    buf: Seq<Color>,
    sw: int,
    w: Window,
    cx: int,
    cy: int,
    sp: &Sprite,
    face: Dir,
) -> Seq<Color> {
    sprite_paint(buf, sw, w, sprite_x0(cx), sprite_y0(cy, face), sp, face)
}

/// The screen after the first `k` pickups are drawn.
pub open spec fn diamonds_drawn(
    buf: Seq<Color>,
    sw: int,
    w: Window,
    ds: Seq<Pos>,
    k: int,
    dxo: int,
    dyo: int,
    sp: &Sprite,
) -> Seq<Color>
    decreases k,
{
    if k <= 0 {
        buf
    } else {
        let prev = diamonds_drawn(buf, sw, w, ds, k - 1, dxo, dyo, sp);
        draw_sprite_spec(prev, sw, w, ds[k - 1].x + dxo, ds[k - 1].y + dyo, sp, Dir::Right)
    }
}

/// The screen after the player sprite is drawn at the view's center.
pub open spec fn player_drawn(
    buf: Seq<Color>,
    sw: int,
    w: Window,
    player: Player,
    ss: &SpriteSet,
    width_w: int,
    height_w: int,
) -> Seq<Color> {
    draw_sprite_spec(
        buf,
        sw,
        w,
        width_w / 2,
        height_w / 2,
        spec_sprite_of(ss, SpriteId::Player),
        player.face,
    )
}

/// The screen and the player-drawn flag after the first `k` enemies are
/// drawn back-to-front: the player is slipped in just before the first
/// enemy that stands below them, so nearer bodies occlude.
pub open spec fn enemies_drawn(
    buf: Seq<Color>,
    sw: int,
    w: Window,
    es: Seq<Enemy>,
    k: int,
    dxo: int,
    dyo: int,
    player: Player,
    ss: &SpriteSet,
    width_w: int,
    height_w: int,
) -> (Seq<Color>, bool)
    decreases k,
{
    if k <= 0 {
        (buf, false)
    } else {
        let prev = enemies_drawn(buf, sw, w, es, k - 1, dxo, dyo, player, ss, width_w, height_w);
        let e = es[k - 1];
        let mid = if !prev.1 && e.p.y > player.p.y {
            (player_drawn(prev.0, sw, w, player, ss, width_w, height_w), true)
        } else {
            prev
        };
        let face = if e.p.x > player.p.x {
            Dir::Left
        } else {
            Dir::Right
        };
        (
            draw_sprite_spec(
                mid.0,
                sw,
                w,
                e.p.x + dxo,
                e.p.y + dyo,
                spec_sprite_of(ss, et(e.t).sprite),
                face,
            ),
            mid.1,
        )
    }
}

/// The screen after the first `k` projectiles are drawn, always on top.
pub open spec fn projectiles_drawn(
    buf: Seq<Color>,
    sw: int,
    w: Window,
    ps: Seq<Projectile>,
    k: int,
    dxo: int,
    dyo: int,
    ss: &SpriteSet,
) -> Seq<Color>
    decreases k,
{
    if k <= 0 {
        buf
    } else {
        let prev = projectiles_drawn(buf, sw, w, ps, k - 1, dxo, dyo, ss);
        let pr = ps[k - 1];
        draw_sprite_spec(
            prev,
            sw,
            w,
            pr.p.x + dxo,
            pr.p.y + dyo,
            spec_sprite_of(ss, pr.sprite),
            pr.dir,
        )
    }
}

/// The whole frame: the field, the damage-radius ring, the pickups, the
/// depth-interleaved enemies and player, and the projectiles on top. The
/// camera keeps the player at the view's center.
pub open spec fn render_spec(
    player: Player,
    enemies: Seq<Enemy>,
    diamonds: Seq<Pos>,
    projectiles: Seq<Projectile>,
    buf: Seq<Color>,
    sw: int,
    w: Window,
    ss: &SpriteSet,
) -> Seq<Color> {
    let width_w = w.width * 1000;
    let height_w = w.height * 1400;
    let dxo = width_w / 2 - player.p.x;
    let dyo = height_w / 2 - player.p.y;
    let b1 = win_fill_spec(buf, sw, w, Color { r: 0x33, g: 0x88, b: 0x22 });
    let b2 = circle_paint(
        b1,
        sw,
        w,
        width_w / 2,
        height_w / 2,
        player.damage_radius as int,
        Color { r: 0, g: 255, b: 0 },
    );
    let b3 = diamonds_drawn(
        b2,
        sw,
        w,
        diamonds,
        diamonds.len() as int,
        dxo,
        dyo,
        spec_sprite_of(ss, SpriteId::Diamond),
    );
    let ed = enemies_drawn(
        b3,
        sw,
        w,
        enemies,
        enemies.len() as int,
        dxo,
        dyo,
        player,
        ss,
        width_w,
        height_w,
    );
    let b4 = if !ed.1 {
        player_drawn(ed.0, sw, w, player, ss, width_w, height_w)
    } else {
        ed.0
    };
    projectiles_drawn(b4, sw, w, projectiles, projectiles.len() as int, dxo, dyo, ss)
}

impl Game {
    /// Draws the whole frame into the window: background, the damage
    /// aura's ring, pickups, enemies back-to-front with the player
    /// slipped in at their depth, and projectiles on top. Only reads the
    /// world; the depth sort happened at the end of the tick.
    pub fn render(&self, win: &Window, screen: &mut Screen, ss: &SpriteSet)
        requires
            game_wf(*self),
            win_wf(*win, *old(screen)),
            set_wf(ss),
        ensures
            win_wf(*win, *final(screen)),
            final(screen).width == old(screen).width,
            final(screen).height == old(screen).height,
            final(screen)@ == render_spec(
                self.player,
                self.enemies@,
                self.diamonds@,
                self.projectiles@,
                old(screen)@,
                old(screen).width as int,
                *win,
                ss,
            ),
    {
        let ghost sw = old(screen).width as int;
        let width_w = crate::window::iconvert_x(win.width);
        let height_w = crate::window::iconvert_y(win.height);
        let dxo = width_w / 2 - self.player.p.x;
        let dyo = height_w / 2 - self.player.p.y;

        win.fill(screen, Color { r: 0x33, g: 0x88, b: 0x22 });
        win.circle(
            screen,
            width_w / 2,
            height_w / 2,
            self.player.damage_radius,
            Color { r: 0, g: 255, b: 0 },
        );

        let ghost b2 = screen@;
        let dsp = ss.sprite_of(SpriteId::Diamond);
        let nd = self.diamonds.len();
        let mut i: usize = 0;
        while i < nd
            invariant
                game_wf(*self),
                set_wf(ss),
                win_wf(*win, *screen),
                screen.width == old(screen).width,
                screen.height == old(screen).height,
                sw == screen.width as int,
                nd == self.diamonds@.len(),
                i <= nd,
                dsp == spec_sprite_of(ss, SpriteId::Diamond),
                -1_030_000_000 <= dxo <= 1_030_000_000,
                -1_030_000_000 <= dyo <= 1_030_000_000,
                screen@ == diamonds_drawn(b2, sw, *win, self.diamonds@, i as int, dxo as int, dyo as int, dsp),
            decreases nd - i,
        {
            let d = self.diamonds[i];
            win.sprite(screen, d.x + dxo, d.y + dyo, dsp, Dir::Right);
            i = i + 1;
        }

        let ghost b3 = screen@;
        let ne = self.enemies.len();
        let mut rendered = false;
        let mut j: usize = 0;
        while j < ne
            invariant
                game_wf(*self),
                set_wf(ss),
                win_wf(*win, *screen),
                screen.width == old(screen).width,
                screen.height == old(screen).height,
                sw == screen.width as int,
                ne == self.enemies@.len(),
                j <= ne,
                0 <= width_w <= 33_000_000,
                0 <= height_w <= 46_000_000,
                -1_030_000_000 <= dxo <= 1_030_000_000,
                -1_030_000_000 <= dyo <= 1_030_000_000,
                (screen@, rendered) == enemies_drawn(
                    b3,
                    sw,
                    *win,
                    self.enemies@,
                    j as int,
                    dxo as int,
                    dyo as int,
                    self.player,
                    ss,
                    width_w as int,
                    height_w as int,
                ),
            decreases ne - j,
        {
            let e = self.enemies[j];
            if !rendered && e.p.y > self.player.p.y {
                win.sprite(
                    screen,
                    width_w / 2,
                    height_w / 2,
                    ss.sprite_of(SpriteId::Player),
                    self.player.face,
                );
                rendered = true;
            }
            let t = enemy_type(e.t);
            let face = if e.p.x > self.player.p.x {
                Dir::Left
            } else {
                Dir::Right
            };
            win.sprite(screen, e.p.x + dxo, e.p.y + dyo, ss.sprite_of(t.sprite), face);
            j = j + 1;
        }
        if !rendered {
            win.sprite(
                screen,
                width_w / 2,
                height_w / 2,
                ss.sprite_of(SpriteId::Player),
                self.player.face,
            );
        }

        let ghost b4 = screen@;
        let np = self.projectiles.len();
        let mut k: usize = 0;
        while k < np
            invariant
                game_wf(*self),
                set_wf(ss),
                win_wf(*win, *screen),
                screen.width == old(screen).width,
                screen.height == old(screen).height,
                sw == screen.width as int,
                np == self.projectiles@.len(),
                k <= np,
                -1_030_000_000 <= dxo <= 1_030_000_000,
                -1_030_000_000 <= dyo <= 1_030_000_000,
                screen@ == projectiles_drawn(
                    b4,
                    sw,
                    *win,
                    self.projectiles@,
                    k as int,
                    dxo as int,
                    dyo as int,
                    ss,
                ),
            decreases np - k,
        {
            let pr = self.projectiles[k];
            win.sprite(screen, pr.p.x + dxo, pr.p.y + dyo, ss.sprite_of(pr.sprite), pr.dir);
            k = k + 1;
        }
    }
}

/// Culling conserves bodies: every enemy of the population is either
/// kept alive or dropped as exactly one pickup, never both, never lost.
pub proof fn lemma_cull_conservation(s: Seq<Enemy>)
    ensures
        live_enemies(s).len() + drop_positions(s).len() == s.len(),
    decreases s.len(),
{
    if s.len() > 0 {
        lemma_cull_conservation(s.drop_last());
    }
}

} // verus!
