//! Enemy kinds and their immutable stats.
//!
//! Stats are static configuration: every live enemy holds the identifier
//! of its kind and shares the one record of that kind (a flyweight). All
//! quantities are fixed-point world scalars (see [`crate::fixed::SCALE`]).

use vstd::prelude::*;
use crate::fixed::POS_LIMIT;

verus! {

/// Names one fixed sprite bitmap; the bitmaps themselves are data the
/// caller loads at startup.
#[derive(Clone, Copy, PartialEq, Eq, Structural, Debug)]
pub enum SpriteId {
    Player,
    Diamond,
    Knife,
    Axe,
    Star,
    Wind,
    Bat,
    Bat2,
    Crawl,
    Eye,
    Phantom,
    Hood,
    Hood2,
    Mummy,
    Plantguy,
    Raddish,
    Shadow,
    Skeleton,
    Skeleton2,
    Snake,
    Zombie,
}

/// Names one enemy kind.
#[derive(Clone, Copy, PartialEq, Eq, Structural, Debug)]
pub enum EnemyTypeId {
    Snake,
    Skeleton,
    Skeleton2,
    Bat,
    Bat2,
    Zombie,
    Eye,
    Phantom,
    Mummy,
    Hood,
    Hood2,
    Plantguy,
    Raddish,
    Crawl,
    Shadow,
}

/// The immutable stats of one enemy kind.
#[derive(Clone, Copy, PartialEq, Eq, Structural, Debug)]
pub struct EnemyType {
    /// Movement speed, world units per second.
    pub speed: i64,
    /// Collision radius.
    pub size: i64,
    /// Health a fresh enemy of this kind starts with.
    pub health: i64,
    /// Contact damage per second.
    pub power: i64,
    /// The sprite this kind is drawn with.
    pub sprite: SpriteId,
}

/// The stats of kind `id`.
pub open spec fn et(id: EnemyTypeId) -> EnemyType {
    match id {
        EnemyTypeId::Snake => EnemyType {
            speed: 15_000,
            size: 8_000,
            health: 5_000,
            power: 5_000,
            sprite: SpriteId::Snake,
        },
        EnemyTypeId::Skeleton => EnemyType {
            speed: 15_000,
            size: 9_000,
            health: 10_000,
            power: 10_000,
            sprite: SpriteId::Skeleton,
        },
        EnemyTypeId::Skeleton2 => EnemyType {
            speed: 15_000,
            size: 9_000,
            health: 20_000,
            power: 20_000,
            sprite: SpriteId::Skeleton2,
        },
        EnemyTypeId::Bat => EnemyType {
            speed: 25_000,
            size: 8_000,
            health: 4_000,
            power: 4_000,
            sprite: SpriteId::Bat,
        },
        EnemyTypeId::Bat2 => EnemyType {
            speed: 25_000,
            size: 9_000,
            health: 30_000,
            power: 5_000,
            sprite: SpriteId::Bat2,
        },
        EnemyTypeId::Zombie => EnemyType {
            speed: 5_000,
            size: 9_000,
            health: 30_000,
            power: 20_000,
            sprite: SpriteId::Zombie,
        },
        EnemyTypeId::Eye => EnemyType {
            speed: 13_000,
            size: 7_000,
            health: 25_000,
            power: 25_000,
            sprite: SpriteId::Eye,
        },
        EnemyTypeId::Phantom => EnemyType {
            speed: 18_000,
            size: 9_000,
            health: 30_000,
            power: 30_000,
            sprite: SpriteId::Phantom,
        },
        EnemyTypeId::Mummy => EnemyType {
            speed: 9_000,
            size: 9_000,
            health: 40_000,
            power: 30_000,
            sprite: SpriteId::Mummy,
        },
        EnemyTypeId::Hood => EnemyType {
            speed: 18_000,
            size: 9_000,
            health: 40_000,
            power: 50_000,
            sprite: SpriteId::Hood,
        },
        EnemyTypeId::Hood2 => EnemyType {
            speed: 16_000,
            size: 9_000,
            health: 60_000,
            power: 70_000,
            sprite: SpriteId::Hood2,
        },
        EnemyTypeId::Plantguy => EnemyType {
            speed: 12_000,
            size: 9_000,
            health: 60_000,
            power: 40_000,
            sprite: SpriteId::Plantguy,
        },
        EnemyTypeId::Raddish => EnemyType {
            speed: 17_000,
            size: 9_000,
            health: 40_000,
            power: 60_000,
            sprite: SpriteId::Raddish,
        },
        EnemyTypeId::Crawl => EnemyType {
            speed: 5_000,
            size: 9_000,
            health: 75_000,
            power: 50_000,
            sprite: SpriteId::Crawl,
        },
        EnemyTypeId::Shadow => EnemyType {
            speed: 22_000,
            size: 9_000,
            health: 75_000,
            power: 75_000,
            sprite: SpriteId::Shadow,
        },
    }
}

/// The stats of kind `id`.
pub fn enemy_type(id: EnemyTypeId) -> (t: EnemyType)
    ensures
        t == et(id),
{
    match id {
        EnemyTypeId::Snake => EnemyType {
            speed: 15_000,
            size: 8_000,
            health: 5_000,
            power: 5_000,
            sprite: SpriteId::Snake,
        },
        EnemyTypeId::Skeleton => EnemyType {
            speed: 15_000,
            size: 9_000,
            health: 10_000,
            power: 10_000,
            sprite: SpriteId::Skeleton,
        },
        EnemyTypeId::Skeleton2 => EnemyType {
            speed: 15_000,
            size: 9_000,
            health: 20_000,
            power: 20_000,
            sprite: SpriteId::Skeleton2,
        },
        EnemyTypeId::Bat => EnemyType {
            speed: 25_000,
            size: 8_000,
            health: 4_000,
            power: 4_000,
            sprite: SpriteId::Bat,
        },
        EnemyTypeId::Bat2 => EnemyType {
            speed: 25_000,
            size: 9_000,
            health: 30_000,
            power: 5_000,
            sprite: SpriteId::Bat2,
        },
        EnemyTypeId::Zombie => EnemyType {
            speed: 5_000,
            size: 9_000,
            health: 30_000,
            power: 20_000,
            sprite: SpriteId::Zombie,
        },
        EnemyTypeId::Eye => EnemyType {
            speed: 13_000,
            size: 7_000,
            health: 25_000,
            power: 25_000,
            sprite: SpriteId::Eye,
        },
        EnemyTypeId::Phantom => EnemyType {
            speed: 18_000,
            size: 9_000,
            health: 30_000,
            power: 30_000,
            sprite: SpriteId::Phantom,
        },
        EnemyTypeId::Mummy => EnemyType {
            speed: 9_000,
            size: 9_000,
            health: 40_000,
            power: 30_000,
            sprite: SpriteId::Mummy,
        },
        EnemyTypeId::Hood => EnemyType {
            speed: 18_000,
            size: 9_000,
            health: 40_000,
            power: 50_000,
            sprite: SpriteId::Hood,
        },
        EnemyTypeId::Hood2 => EnemyType {
            speed: 16_000,
            size: 9_000,
            health: 60_000,
            power: 70_000,
            sprite: SpriteId::Hood2,
        },
        EnemyTypeId::Plantguy => EnemyType {
            speed: 12_000,
            size: 9_000,
            health: 60_000,
            power: 40_000,
            sprite: SpriteId::Plantguy,
        },
        EnemyTypeId::Raddish => EnemyType {
            speed: 17_000,
            size: 9_000,
            health: 40_000,
            power: 60_000,
            sprite: SpriteId::Raddish,
        },
        EnemyTypeId::Crawl => EnemyType {
            speed: 5_000,
            size: 9_000,
            health: 75_000,
            power: 50_000,
            sprite: SpriteId::Crawl,
        },
        EnemyTypeId::Shadow => EnemyType {
            speed: 22_000,
            size: 9_000,
            health: 75_000,
            power: 75_000,
            sprite: SpriteId::Shadow,
        },
    }
}

/// Every kind's stats are bounded and its starting health positive.
pub proof fn lemma_enemy_type_bounds(id: EnemyTypeId)
    ensures
        0 <= et(id).speed <= 100_000,
        0 < et(id).size <= 100_000,
        0 < et(id).health <= 100_000,
        0 <= et(id).power <= 100_000,
{
}

/// One live enemy: a position, its remaining health, and its kind.
#[derive(Clone, Copy, PartialEq, Eq, Structural, Debug)]
pub struct Enemy {
    /// World position.
    pub p: crate::game::Pos,
    /// Remaining health; the enemy dies when this reaches zero or less.
    pub health: i64,
    /// The kind whose stats this enemy shares.
    pub t: EnemyTypeId,
}

/// Health stays inside the band that one tick of damage cannot leave.
pub const ENEMY_HEALTH_LOW: i64 = -2_000_000_000_000;

/// The enemy's fields are inside the simulation's bounds.
pub open spec fn enemy_wf(e: Enemy) -> bool {
    &&& crate::game::pos_ok(e.p)
    &&& ENEMY_HEALTH_LOW <= e.health <= 1_000_000_000
}

/// A fresh enemy of kind `id` at the given position, health from its kind.
pub fn get_enemy(x: i64, y: i64, id: EnemyTypeId) -> (e: Enemy)
    requires
        -POS_LIMIT <= x <= POS_LIMIT,
        -POS_LIMIT <= y <= POS_LIMIT,
    ensures
        e.p.x == x,
        e.p.y == y,
        e.t == id,
        e.health == et(id).health,
        enemy_wf(e),
{
    let t = enemy_type(id);
    proof {
        lemma_enemy_type_bounds(id);
    }
    Enemy { p: crate::game::Pos { x, y }, health: t.health, t: id }
}

/// The wave active at spawn counter `i`: buckets of one hundred spawns
/// walk the table, wrapping around. Each entry pairs an enemy kind with
/// its spawn weight (expected spawns per second, fixed-point).
pub open spec fn wave_spec(i: int) -> Seq<(EnemyTypeId, i64)> {
    let b = (i / 100) % 32;
    if b == 0 {
        seq![(EnemyTypeId::Snake, 2000i64)]
    } else if b == 1 {
        seq![(EnemyTypeId::Snake, 2000i64), (EnemyTypeId::Skeleton, 2000i64)]
    } else if b == 2 {
        seq![(EnemyTypeId::Snake, 2000i64), (EnemyTypeId::Skeleton, 2000i64)]
    } else if b == 3 {
        seq![(EnemyTypeId::Bat, 4000i64)]
    } else if b == 4 {
        seq![(EnemyTypeId::Zombie, 4000i64)]
    } else if b == 5 {
        seq![(EnemyTypeId::Zombie, 4000i64)]
    } else if b == 6 {
        seq![(EnemyTypeId::Bat, 2000i64), (EnemyTypeId::Skeleton, 2000i64)]
    } else if b == 7 {
        seq![(EnemyTypeId::Bat, 2000i64), (EnemyTypeId::Skeleton, 2000i64)]
    } else if b == 8 {
        seq![(EnemyTypeId::Bat, 2000i64), (EnemyTypeId::Eye, 2000i64)]
    } else if b == 9 {
        seq![(EnemyTypeId::Phantom, 4000i64)]
    } else if b == 10 {
        seq![(EnemyTypeId::Phantom, 4000i64)]
    } else if b == 11 {
        seq![(EnemyTypeId::Bat2, 2000i64), (EnemyTypeId::Zombie, 2000i64)]
    } else if b == 12 {
        seq![(EnemyTypeId::Bat2, 2000i64), (EnemyTypeId::Zombie, 2000i64)]
    } else if b == 13 {
        seq![(EnemyTypeId::Mummy, 2000i64), (EnemyTypeId::Zombie, 2000i64)]
    } else if b == 14 {
        seq![(EnemyTypeId::Mummy, 2000i64), (EnemyTypeId::Zombie, 2000i64)]
    } else if b == 15 {
        seq![(EnemyTypeId::Hood, 4000i64)]
    } else if b == 16 {
        seq![(EnemyTypeId::Hood, 2000i64), (EnemyTypeId::Eye, 2000i64)]
    } else if b == 17 {
        seq![(EnemyTypeId::Bat, 10000i64)]
    } else if b == 18 {
        seq![(EnemyTypeId::Snake, 2000i64), (EnemyTypeId::Plantguy, 2000i64)]
    } else if b == 19 {
        seq![(EnemyTypeId::Snake, 2000i64), (EnemyTypeId::Plantguy, 2000i64)]
    } else if b == 20 {
        seq![(EnemyTypeId::Hood2, 4000i64)]
    } else if b == 21 {
        seq![(EnemyTypeId::Hood2, 2000i64), (EnemyTypeId::Hood, 2000i64)]
    } else if b == 22 {
        seq![(EnemyTypeId::Hood2, 4000i64)]
    } else if b == 23 {
        seq![(EnemyTypeId::Phantom, 8000i64)]
    } else if b == 24 {
        seq![(EnemyTypeId::Snake, 2000i64), (EnemyTypeId::Raddish, 2000i64)]
    } else if b == 25 {
        seq![(EnemyTypeId::Raddish, 2000i64), (EnemyTypeId::Plantguy, 2000i64)]
    } else if b == 26 {
        seq![(EnemyTypeId::Skeleton2, 2000i64), (EnemyTypeId::Crawl, 2000i64)]
    } else if b == 27 {
        seq![(EnemyTypeId::Skeleton2, 2000i64), (EnemyTypeId::Crawl, 2000i64)]
    } else if b == 28 {
        seq![(EnemyTypeId::Crawl, 4000i64)]
    } else if b == 29 {
        seq![(EnemyTypeId::Shadow, 3000i64)]
    } else if b == 30 {
        seq![(EnemyTypeId::Shadow, 4000i64), (EnemyTypeId::Crawl, 8000i64)]
    } else if b == 31 {
        seq![(EnemyTypeId::Shadow, 5000i64)]
    } else {
        seq![(EnemyTypeId::Shadow, 5000i64)]
    }
}

/// The wave active at spawn counter `i`.
pub fn get_wave(i: u64) -> (r: Vec<(EnemyTypeId, i64)>)
    ensures
        r@ == wave_spec(i as int),
        1 <= r@.len() <= 2,
        forall|k: int| 0 <= k < r@.len() ==> 0 < (#[trigger] r@[k]).1 <= 10_000,
{
    let b = (i / 100) % 32;
    if b == 0 {
        let r: Vec<(EnemyTypeId, i64)> = vec![(EnemyTypeId::Snake, 2000i64)];
        proof { assert(r@ =~= wave_spec(i as int)); }
        r
    } else if b == 1 {
        let r: Vec<(EnemyTypeId, i64)> = vec![(EnemyTypeId::Snake, 2000i64), (EnemyTypeId::Skeleton, 2000i64)];
        proof { assert(r@ =~= wave_spec(i as int)); }
        r
    } else if b == 2 {
        let r: Vec<(EnemyTypeId, i64)> = vec![(EnemyTypeId::Snake, 2000i64), (EnemyTypeId::Skeleton, 2000i64)];
        proof { assert(r@ =~= wave_spec(i as int)); }
        r
    } else if b == 3 {
        let r: Vec<(EnemyTypeId, i64)> = vec![(EnemyTypeId::Bat, 4000i64)];
        proof { assert(r@ =~= wave_spec(i as int)); }
        r
    } else if b == 4 {
        let r: Vec<(EnemyTypeId, i64)> = vec![(EnemyTypeId::Zombie, 4000i64)];
        proof { assert(r@ =~= wave_spec(i as int)); }
        r
    } else if b == 5 {
        let r: Vec<(EnemyTypeId, i64)> = vec![(EnemyTypeId::Zombie, 4000i64)];
        proof { assert(r@ =~= wave_spec(i as int)); }
        r
    } else if b == 6 {
        let r: Vec<(EnemyTypeId, i64)> = vec![(EnemyTypeId::Bat, 2000i64), (EnemyTypeId::Skeleton, 2000i64)];
        proof { assert(r@ =~= wave_spec(i as int)); }
        r
    } else if b == 7 {
        let r: Vec<(EnemyTypeId, i64)> = vec![(EnemyTypeId::Bat, 2000i64), (EnemyTypeId::Skeleton, 2000i64)];
        proof { assert(r@ =~= wave_spec(i as int)); }
        r
    } else if b == 8 {
        let r: Vec<(EnemyTypeId, i64)> = vec![(EnemyTypeId::Bat, 2000i64), (EnemyTypeId::Eye, 2000i64)];
        proof { assert(r@ =~= wave_spec(i as int)); }
        r
    } else if b == 9 {
        let r: Vec<(EnemyTypeId, i64)> = vec![(EnemyTypeId::Phantom, 4000i64)];
        proof { assert(r@ =~= wave_spec(i as int)); }
        r
    } else if b == 10 {
        let r: Vec<(EnemyTypeId, i64)> = vec![(EnemyTypeId::Phantom, 4000i64)];
        proof { assert(r@ =~= wave_spec(i as int)); }
        r
    } else if b == 11 {
        let r: Vec<(EnemyTypeId, i64)> = vec![(EnemyTypeId::Bat2, 2000i64), (EnemyTypeId::Zombie, 2000i64)];
        proof { assert(r@ =~= wave_spec(i as int)); }
        r
    } else if b == 12 {
        let r: Vec<(EnemyTypeId, i64)> = vec![(EnemyTypeId::Bat2, 2000i64), (EnemyTypeId::Zombie, 2000i64)];
        proof { assert(r@ =~= wave_spec(i as int)); }
        r
    } else if b == 13 {
        let r: Vec<(EnemyTypeId, i64)> = vec![(EnemyTypeId::Mummy, 2000i64), (EnemyTypeId::Zombie, 2000i64)];
        proof { assert(r@ =~= wave_spec(i as int)); }
        r
    } else if b == 14 {
        let r: Vec<(EnemyTypeId, i64)> = vec![(EnemyTypeId::Mummy, 2000i64), (EnemyTypeId::Zombie, 2000i64)];
        proof { assert(r@ =~= wave_spec(i as int)); }
        r
    } else if b == 15 {
        let r: Vec<(EnemyTypeId, i64)> = vec![(EnemyTypeId::Hood, 4000i64)];
        proof { assert(r@ =~= wave_spec(i as int)); }
        r
    } else if b == 16 {
        let r: Vec<(EnemyTypeId, i64)> = vec![(EnemyTypeId::Hood, 2000i64), (EnemyTypeId::Eye, 2000i64)];
        proof { assert(r@ =~= wave_spec(i as int)); }
        r
    } else if b == 17 {
        let r: Vec<(EnemyTypeId, i64)> = vec![(EnemyTypeId::Bat, 10000i64)];
        proof { assert(r@ =~= wave_spec(i as int)); }
        r
    } else if b == 18 {
        let r: Vec<(EnemyTypeId, i64)> = vec![(EnemyTypeId::Snake, 2000i64), (EnemyTypeId::Plantguy, 2000i64)];
        proof { assert(r@ =~= wave_spec(i as int)); }
        r
    } else if b == 19 {
        let r: Vec<(EnemyTypeId, i64)> = vec![(EnemyTypeId::Snake, 2000i64), (EnemyTypeId::Plantguy, 2000i64)];
        proof { assert(r@ =~= wave_spec(i as int)); }
        r
    } else if b == 20 {
        let r: Vec<(EnemyTypeId, i64)> = vec![(EnemyTypeId::Hood2, 4000i64)];
        proof { assert(r@ =~= wave_spec(i as int)); }
        r
    } else if b == 21 {
        let r: Vec<(EnemyTypeId, i64)> = vec![(EnemyTypeId::Hood2, 2000i64), (EnemyTypeId::Hood, 2000i64)];
        proof { assert(r@ =~= wave_spec(i as int)); }
        r
    } else if b == 22 {
        let r: Vec<(EnemyTypeId, i64)> = vec![(EnemyTypeId::Hood2, 4000i64)];
        proof { assert(r@ =~= wave_spec(i as int)); }
        r
    } else if b == 23 {
        let r: Vec<(EnemyTypeId, i64)> = vec![(EnemyTypeId::Phantom, 8000i64)];
        proof { assert(r@ =~= wave_spec(i as int)); }
        r
    } else if b == 24 {
        let r: Vec<(EnemyTypeId, i64)> = vec![(EnemyTypeId::Snake, 2000i64), (EnemyTypeId::Raddish, 2000i64)];
        proof { assert(r@ =~= wave_spec(i as int)); }
        r
    } else if b == 25 {
        let r: Vec<(EnemyTypeId, i64)> = vec![(EnemyTypeId::Raddish, 2000i64), (EnemyTypeId::Plantguy, 2000i64)];
        proof { assert(r@ =~= wave_spec(i as int)); }
        r
    } else if b == 26 {
        let r: Vec<(EnemyTypeId, i64)> = vec![(EnemyTypeId::Skeleton2, 2000i64), (EnemyTypeId::Crawl, 2000i64)];
        proof { assert(r@ =~= wave_spec(i as int)); }
        r
    } else if b == 27 {
        let r: Vec<(EnemyTypeId, i64)> = vec![(EnemyTypeId::Skeleton2, 2000i64), (EnemyTypeId::Crawl, 2000i64)];
        proof { assert(r@ =~= wave_spec(i as int)); }
        r
    } else if b == 28 {
        let r: Vec<(EnemyTypeId, i64)> = vec![(EnemyTypeId::Crawl, 4000i64)];
        proof { assert(r@ =~= wave_spec(i as int)); }
        r
    } else if b == 29 {
        let r: Vec<(EnemyTypeId, i64)> = vec![(EnemyTypeId::Shadow, 3000i64)];
        proof { assert(r@ =~= wave_spec(i as int)); }
        r
    } else if b == 30 {
        let r: Vec<(EnemyTypeId, i64)> = vec![(EnemyTypeId::Shadow, 4000i64), (EnemyTypeId::Crawl, 8000i64)];
        proof { assert(r@ =~= wave_spec(i as int)); }
        r
    } else if b == 31 {
        let r: Vec<(EnemyTypeId, i64)> = vec![(EnemyTypeId::Shadow, 5000i64)];
        proof { assert(r@ =~= wave_spec(i as int)); }
        r
    } else {
        let r: Vec<(EnemyTypeId, i64)> = vec![(EnemyTypeId::Shadow, 5000i64)];
        proof { assert(r@ =~= wave_spec(i as int)); }
        r
    }
}

} // verus!
