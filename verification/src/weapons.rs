//! Weapons and their projectiles.
//!
//! Each weapon owns a motion law: a pure step function from a
//! projectile, the player's position, the weapon's speed and the tick
//! duration to the projectile's next position. Laws are substitutable
//! through [`MotionLaw`]. Projectiles are deliberately not removed on
//! hit: one can damage many enemies, every tick it overlaps them.

use vstd::prelude::*;
use crate::fixed::{SCALE, POS_LIMIT, DT_MAX, clamp_spec, clamp_i64, mul_div_trunc, div_trunc};
use crate::game::{Pos, Dir, pos_ok};
use crate::enemies::SpriteId;

verus! {

/// How far from the player a fresh projectile appears.
pub const SPAWN_RADIUS: i64 = 16_000;

/// The motion law a weapon's projectiles follow.
#[derive(Clone, Copy, PartialEq, Eq, Structural, Debug)]
pub enum MotionLaw {
    /// A straight line along the facing direction.
    Straight,
    /// Radially outward from the player.
    Diagonal,
    /// An arc: constant horizontal march, gravity-like vertical motion.
    Parabola,
    /// Outward drift while orbiting the player.
    Spiral,
}

/// One projectile in flight.
#[derive(Clone, Copy, PartialEq, Eq, Structural, Debug)]
pub struct Projectile {
    /// World position.
    pub p: Pos,
    /// Travel / facing direction.
    pub dir: Dir,
    /// The sprite it is drawn with.
    pub sprite: SpriteId,
}

/// One equipped weapon: its stats, its cooldown bookkeeping and the
/// projectiles it has in flight.
pub struct Weapon {
    /// The sprite its projectiles are drawn with.
    pub sprite: SpriteId,
    /// The motion law its projectiles follow.
    pub law: MotionLaw,
    /// Projectile speed, world units per second.
    pub speed: i64,
    /// Damage multiplier.
    pub damage: i64,
    /// Seconds between volleys.
    pub cooldown: i64,
    /// Projectile hit radius.
    pub size: i64,
    /// Projectiles per volley.
    pub amount: u8,
    /// Time accumulated toward the next volley.
    pub last: i64,
    /// The projectiles in flight.
    pub projectiles: Vec<Projectile>,
}

/// Where a straight-flying projectile is after one tick.
pub open spec fn straight_spec(pr: Projectile, speed: int, dt: int) -> Projectile {
    let step = speed * dt / (SCALE as int);
    let p = match pr.dir {
        Dir::Up => Pos { x: pr.p.x, y: clamp_spec(pr.p.y - step, -POS_LIMIT as int, POS_LIMIT as int) as i64 },
        Dir::Right => Pos { x: clamp_spec(pr.p.x + step, -POS_LIMIT as int, POS_LIMIT as int) as i64, y: pr.p.y },
        Dir::Down => Pos { x: pr.p.x, y: clamp_spec(pr.p.y + step, -POS_LIMIT as int, POS_LIMIT as int) as i64 },
        Dir::Left => Pos { x: clamp_spec(pr.p.x - step, -POS_LIMIT as int, POS_LIMIT as int) as i64, y: pr.p.y },
    };
    Projectile { p, ..pr }
}

/// Advances a projectile along its facing direction by `speed * dt`.
pub fn move_straight(pr: &mut Projectile, center: &Pos, speed: i64, dt: i64)
    requires
        pos_ok(old(pr).p),
        0 <= speed <= 1_000_000,
        0 <= dt <= DT_MAX,
    ensures
        *final(pr) == straight_spec(*old(pr), speed as int, dt as int),
        pos_ok(final(pr).p),
{
    proof {
        assert(0 <= speed * dt <= 100_000_000_000) by (nonlinear_arith)
            requires
                0 <= speed <= 1_000_000,
                0 <= dt <= DT_MAX,
        ;
    }
    let step = speed * dt / SCALE;
    match pr.dir {
        Dir::Up => pr.p.y = clamp_i64(pr.p.y - step, -POS_LIMIT, POS_LIMIT),
        Dir::Right => pr.p.x = clamp_i64(pr.p.x + step, -POS_LIMIT, POS_LIMIT),
        Dir::Down => pr.p.y = clamp_i64(pr.p.y + step, -POS_LIMIT, POS_LIMIT),
        Dir::Left => pr.p.x = clamp_i64(pr.p.x - step, -POS_LIMIT, POS_LIMIT),
    }
}

/// Where a radially drifting projectile is after one tick: pushed
/// `speed * dt` farther from the player along the ray through it. A
/// projectile exactly on the player leaves to the right.
pub open spec fn diagonal_spec(pr: Projectile, center: Pos, speed: int, dt: int) -> Projectile {
    let dx0 = pr.p.x - center.x;
    let dy = pr.p.y - center.y;
    let dx = if dx0 == 0 && dy == 0 {
        1000int
    } else {
        dx0 as int
    };
    let r = crate::fixed::sqrt_floor(dx * dx + dy * dy);
    let r2 = r + speed * dt / (SCALE as int);
    Projectile {
        p: Pos {
            x: clamp_spec(
                center.x + mul_div_trunc(dx, r2, r),
                -POS_LIMIT as int,
                POS_LIMIT as int,
            ) as i64,
            y: clamp_spec(
                center.y + mul_div_trunc(dy as int, r2, r),
                -POS_LIMIT as int,
                POS_LIMIT as int,
            ) as i64,
        },
        dir: if dx < 0 {
            Dir::Left
        } else {
            Dir::Right
        },
        sprite: pr.sprite,
    }
}

/// Advances a projectile radially away from the player.
pub fn move_diagonal(pr: &mut Projectile, center: &Pos, speed: i64, dt: i64)
    requires
        pos_ok(old(pr).p),
        pos_ok(*center),
        0 <= speed <= 1_000_000,
        0 <= dt <= DT_MAX,
    ensures
        *final(pr) == diagonal_spec(*old(pr), *center, speed as int, dt as int),
        pos_ok(final(pr).p),
{
    let dx0 = pr.p.x - center.x;
    let dy = pr.p.y - center.y;
    let dx = if dx0 == 0 && dy == 0 {
        1000
    } else {
        dx0
    };
    proof {
        crate::fixed::lemma_dist2_bounds(dx as int, dy as int);
        crate::fixed::lemma_component_le_norm(dx as int, dy as int);
        assert(0 <= speed * dt <= 100_000_000_000) by (nonlinear_arith)
            requires
                0 <= speed <= 1_000_000,
                0 <= dt <= DT_MAX,
        ;
    }
    proof {
        assert(dx * dx + dy * dy > 0) by (nonlinear_arith)
            requires
                dx != 0 || dy != 0,
        ;
    }
    let r = crate::fixed::isqrt((dx * dx + dy * dy) as u64);
    proof {
        assert(r > 0) by (nonlinear_arith)
            requires
                crate::fixed::is_sqrt_floor((dx * dx + dy * dy) as int, r as int),
                dx * dx + dy * dy > 0,
        ;
        assert(r <= 3_000_000_000) by (nonlinear_arith)
            requires
                (r as int) * (r as int) <= 8_000_000_000_000_000_000,
                r >= 0,
        ;
    }
    let r2 = r + (speed * dt / SCALE) as u64;
    let sx = crate::fixed::mul_div_signed_wide(dx, r2, r);
    let sy = crate::fixed::mul_div_signed_wide(dy, r2, r);
    pr.p.x = clamp_i64(center.x + sx, -POS_LIMIT, POS_LIMIT);
    pr.p.y = clamp_i64(center.y + sy, -POS_LIMIT, POS_LIMIT);
    pr.dir = if dx < 0 {
        Dir::Left
    } else {
        Dir::Right
    };
}

/// Where an arcing projectile is after one tick. The arc marches
/// horizontally at the weapon's speed, away from the player, while the
/// vertical speed follows a gravity-like law derived from the horizontal
/// distance already covered (flipping near the player on the way down),
/// clamped between half and twice the weapon's speed.
pub open spec fn parabola_spec(pr: Projectile, center: Pos, speed: int, dt: int) -> Projectile {
    let dx = if pr.p.x - center.x >= 0 {
        pr.p.x - center.x
    } else {
        center.x - pr.p.x
    };
    let t0 = if dx * 1000 / speed > 100 {
        dx * 1000 / speed
    } else {
        100
    };
    let t = if dx < SPAWN_RADIUS && pr.p.y > center.y {
        -t0
    } else {
        t0
    };
    let acc = speed * 6;
    let dyy = pr.p.y - center.y;
    let term1 = div_trunc(acc * t, 1000);
    let term2 = crate::fixed::div_trunc2(dyy * 1000, t);
    let raw = term1 - term2;
    let capped = if raw > speed * 2 {
        speed * 2
    } else {
        raw
    };
    let y_speed_0 = if capped < speed / 2 {
        speed / 2
    } else {
        capped
    };
    let step = speed * dt / (SCALE as int);
    let new_y = clamp_spec(
        pr.p.y + div_trunc((term1 - y_speed_0) * dt, 1000),
        -POS_LIMIT as int,
        POS_LIMIT as int,
    );
    if pr.p.x < center.x {
        Projectile {
            p: Pos {
                x: clamp_spec(pr.p.x - step, -POS_LIMIT as int, POS_LIMIT as int) as i64,
                y: new_y as i64,
            },
            dir: Dir::Left,
            sprite: pr.sprite,
        }
    } else {
        Projectile {
            p: Pos {
                x: clamp_spec(pr.p.x + step, -POS_LIMIT as int, POS_LIMIT as int) as i64,
                y: new_y as i64,
            },
            dir: Dir::Right,
            sprite: pr.sprite,
        }
    }
}

/// Advances a projectile along its arc.
pub fn move_parabola(pr: &mut Projectile, center: &Pos, speed: i64, dt: i64)
    requires
        pos_ok(old(pr).p),
        pos_ok(*center),
        1_000 <= speed <= 1_000_000,
        0 <= dt <= DT_MAX,
    ensures
        *final(pr) == parabola_spec(*old(pr), *center, speed as int, dt as int),
        pos_ok(final(pr).p),
{
    let dx = if pr.p.x - center.x >= 0 {
        pr.p.x - center.x
    } else {
        center.x - pr.p.x
    };
    proof {
        assert(0 <= dx * 1000 <= 2_000_000_000_000) by (nonlinear_arith)
            requires
                0 <= dx <= 2_000_000_000,
        ;
    }
    let tq = dx * 1000 / speed;
    let t0 = if tq > 100 {
        tq
    } else {
        100
    };
    let t = if dx < SPAWN_RADIUS && pr.p.y > center.y {
        -t0
    } else {
        t0
    };
    let acc = speed * 6;
    let dyy = pr.p.y - center.y;
    proof {
        assert(0 <= tq <= 2_000_000_000) by (nonlinear_arith)
            requires
                0 <= dx * 1000 <= 2_000_000_000_000,
                speed >= 1_000,
                tq == dx * 1000 / (speed as int),
        ;
        assert(-12_000_000_000_000_000 <= acc * t <= 12_000_000_000_000_000)
            by (nonlinear_arith)
            requires
                0 <= acc <= 6_000_000,
                -2_000_000_000 <= t <= 2_000_000_000,
        ;
        assert(-2_000_000_000_000 <= dyy * 1000 <= 2_000_000_000_000) by (nonlinear_arith)
            requires
                -2_000_000_000 <= dyy <= 2_000_000_000,
        ;
    }
    proof {
        crate::fixed::lemma_div_trunc_range(acc * t, 1000, 12_000_000_000_000);
        crate::fixed::lemma_div_trunc2_bound(dyy * 1000, t as int, 2_000_000_000_000);
    }
    let term1 = crate::fixed::div_trunc_i64(acc * t, 1000);
    let term2 = crate::fixed::div_trunc2_i64(dyy * 1000, t);
    let raw = term1 - term2;
    let capped = if raw > speed * 2 {
        speed * 2
    } else {
        raw
    };
    let y_speed_0 = if capped < speed / 2 {
        speed / 2
    } else {
        capped
    };
    proof {
        assert(-1_500_000_000_000_000_000 <= (term1 - y_speed_0) * dt
            <= 1_500_000_000_000_000_000) by (nonlinear_arith)
            requires
                -15_000_000_000_000 <= term1 - y_speed_0 <= 15_000_000_000_000,
                0 <= dt <= DT_MAX,
        ;
        crate::fixed::lemma_div_trunc_range(
            (term1 - y_speed_0) * dt,
            1000,
            1_500_000_000_000_000,
        );
    }
    let vy = crate::fixed::div_trunc_i64((term1 - y_speed_0) * dt, 1000);
    let new_y = clamp_i64(pr.p.y + vy, -POS_LIMIT, POS_LIMIT);
    proof {
        assert(0 <= speed * dt <= 100_000_000_000) by (nonlinear_arith)
            requires
                0 <= speed <= 1_000_000,
                0 <= dt <= DT_MAX,
        ;
    }
    let step = speed * dt / SCALE;
    if pr.p.x < center.x {
        pr.p.x = clamp_i64(pr.p.x - step, -POS_LIMIT, POS_LIMIT);
        pr.dir = Dir::Left;
    } else {
        pr.p.x = clamp_i64(pr.p.x + step, -POS_LIMIT, POS_LIMIT);
        pr.dir = Dir::Right;
    }
    pr.p.y = new_y;
}

/// The four starting weapons: the axe's arc, the knife's straight throw,
/// the star's radial drift and the wind's spiral. Every one starts with
/// an empty volley (`amount` zero) and nothing in flight.
pub fn create_weapons() -> (ws: Vec<Weapon>)
    ensures
        ws@.len() == 4,
        ws@[0].sprite == SpriteId::Axe && ws@[0].law == MotionLaw::Parabola && ws@[0].speed
            == 150_000 && ws@[0].damage == 50_000 && ws@[0].cooldown == 10_000 && ws@[0].size
            == 7_000 && ws@[0].amount == 0 && ws@[0].last == 0 && ws@[0].projectiles@.len() == 0,
        ws@[1].sprite == SpriteId::Knife && ws@[1].law == MotionLaw::Straight && ws@[1].speed
            == 200_000 && ws@[1].damage == 30_000 && ws@[1].cooldown == 4_000 && ws@[1].size
            == 6_000 && ws@[1].amount == 0 && ws@[1].last == 0 && ws@[1].projectiles@.len() == 0,
        ws@[2].sprite == SpriteId::Star && ws@[2].law == MotionLaw::Diagonal && ws@[2].speed
            == 250_000 && ws@[2].damage == 20_000 && ws@[2].cooldown == 3_000 && ws@[2].size
            == 6_000 && ws@[2].amount == 0 && ws@[2].last == 0 && ws@[2].projectiles@.len() == 0,
        ws@[3].sprite == SpriteId::Wind && ws@[3].law == MotionLaw::Spiral && ws@[3].speed
            == 100_000 && ws@[3].damage == 40_000 && ws@[3].cooldown == 9_000 && ws@[3].size
            == 8_000 && ws@[3].amount == 0 && ws@[3].last == 0 && ws@[3].projectiles@.len() == 0,
{
    let mut ws: Vec<Weapon> = Vec::new();
    ws.push(
        Weapon {
            sprite: SpriteId::Axe,
            law: MotionLaw::Parabola,
            speed: 150_000,
            damage: 50_000,
            cooldown: 10_000,
            size: 7_000,
            amount: 0,
            last: 0,
            projectiles: Vec::new(),
        },
    );
    ws.push(
        Weapon {
            sprite: SpriteId::Knife,
            law: MotionLaw::Straight,
            speed: 200_000,
            damage: 30_000,
            cooldown: 4_000,
            size: 6_000,
            amount: 0,
            last: 0,
            projectiles: Vec::new(),
        },
    );
    ws.push(
        Weapon {
            sprite: SpriteId::Star,
            law: MotionLaw::Diagonal,
            speed: 250_000,
            damage: 20_000,
            cooldown: 3_000,
            size: 6_000,
            amount: 0,
            last: 0,
            projectiles: Vec::new(),
        },
    );
    ws.push(
        Weapon {
            sprite: SpriteId::Wind,
            law: MotionLaw::Spiral,
            speed: 100_000,
            damage: 40_000,
            cooldown: 9_000,
            size: 8_000,
            amount: 0,
            last: 0,
            projectiles: Vec::new(),
        },
    );
    ws
}

} // verus!
