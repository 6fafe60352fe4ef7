//! Sprite bitmaps: fixed-size RGB images the renderer blits.
//!
//! The bitmaps are data the caller supplies at startup (decoded from
//! image files); the library only fixes their shape and reads their
//! texels. A sprite's top-left texel is its transparent color.

use vstd::prelude::*;
use crate::screen::Color;

verus! {

/// Texels per sprite row.
pub const WIDTH: usize = 18;

/// Rows per sprite.
pub const HEIGHT: usize = 24;

/// One fixed-size RGB bitmap, rows top to bottom.
pub struct Sprite {
    /// `HEIGHT` rows of `WIDTH` texels each.
    pub rows: Vec<Vec<Color>>,
}

/// The bitmap has exactly its fixed shape.
pub open spec fn sprite_wf(s: &Sprite) -> bool {
    &&& s.rows@.len() == HEIGHT
    &&& forall|r: int| 0 <= r < HEIGHT as int ==> (#[trigger] s.rows@[r])@.len() == WIDTH
}

/// The texel at row `r`, column `c`.
pub open spec fn texel(s: &Sprite, r: int, c: int) -> Color {
    s.rows@[r]@[c]
}

/// The sprite's transparent color: its top-left texel.
pub open spec fn transparent(s: &Sprite) -> Color {
    texel(s, 0, 0)
}

/// A sprite filled with one color everywhere (so fully transparent).
pub fn uniform_sprite(c: Color) -> (s: Sprite)
    ensures
        sprite_wf(&s),
        forall|r: int, cc: int|
            0 <= r < HEIGHT as int && 0 <= cc < WIDTH as int ==> texel(&s, r, cc) == c,
{
    let mut rows: Vec<Vec<Color>> = Vec::new();
    let mut r: usize = 0;
    while r < HEIGHT
        invariant
            r <= HEIGHT,
            rows@.len() == r,
            forall|i: int| 0 <= i < r ==> (#[trigger] rows@[i])@.len() == WIDTH,
            forall|i: int, j: int|
                0 <= i < r && 0 <= j < WIDTH as int ==> #[trigger] (rows@[i])@[j] == c,
        decreases HEIGHT - r,
    {
        let mut row: Vec<Color> = Vec::new();
        let mut cc: usize = 0;
        while cc < WIDTH
            invariant
                cc <= WIDTH,
                row@.len() == cc,
                forall|j: int| 0 <= j < cc ==> row@[j] == c,
            decreases WIDTH - cc,
        {
            row.push(c);
            cc = cc + 1;
        }
        rows.push(row);
        r = r + 1;
    }
    Sprite { rows }
}

/// The fixed bitmaps of every drawable thing, supplied at startup.
pub struct SpriteSet {
    pub player: Sprite,
    pub diamond: Sprite,
    pub knife: Sprite,
    pub axe: Sprite,
    pub star: Sprite,
    pub wind: Sprite,
    pub bat: Sprite,
    pub bat2: Sprite,
    pub crawl: Sprite,
    pub eye: Sprite,
    pub phantom: Sprite,
    pub hood: Sprite,
    pub hood2: Sprite,
    pub mummy: Sprite,
    pub plantguy: Sprite,
    pub raddish: Sprite,
    pub shadow: Sprite,
    pub skeleton: Sprite,
    pub skeleton2: Sprite,
    pub snake: Sprite,
    pub zombie: Sprite,
}

/// Every bitmap in the set has its fixed shape.
pub open spec fn set_wf(ss: &SpriteSet) -> bool {
    &&& sprite_wf(&ss.player)
    &&& sprite_wf(&ss.diamond)
    &&& sprite_wf(&ss.knife)
    &&& sprite_wf(&ss.axe)
    &&& sprite_wf(&ss.star)
    &&& sprite_wf(&ss.wind)
    &&& sprite_wf(&ss.bat)
    &&& sprite_wf(&ss.bat2)
    &&& sprite_wf(&ss.crawl)
    &&& sprite_wf(&ss.eye)
    &&& sprite_wf(&ss.phantom)
    &&& sprite_wf(&ss.hood)
    &&& sprite_wf(&ss.hood2)
    &&& sprite_wf(&ss.mummy)
    &&& sprite_wf(&ss.plantguy)
    &&& sprite_wf(&ss.raddish)
    &&& sprite_wf(&ss.shadow)
    &&& sprite_wf(&ss.skeleton)
    &&& sprite_wf(&ss.skeleton2)
    &&& sprite_wf(&ss.snake)
    &&& sprite_wf(&ss.zombie)
}

/// The bitmap named by `id`.
pub open spec fn spec_sprite_of(ss: &SpriteSet, id: crate::enemies::SpriteId) -> &Sprite {
    match id {
        crate::enemies::SpriteId::Player => &ss.player,
        crate::enemies::SpriteId::Diamond => &ss.diamond,
        crate::enemies::SpriteId::Knife => &ss.knife,
        crate::enemies::SpriteId::Axe => &ss.axe,
        crate::enemies::SpriteId::Star => &ss.star,
        crate::enemies::SpriteId::Wind => &ss.wind,
        crate::enemies::SpriteId::Bat => &ss.bat,
        crate::enemies::SpriteId::Bat2 => &ss.bat2,
        crate::enemies::SpriteId::Crawl => &ss.crawl,
        crate::enemies::SpriteId::Eye => &ss.eye,
        crate::enemies::SpriteId::Phantom => &ss.phantom,
        crate::enemies::SpriteId::Hood => &ss.hood,
        crate::enemies::SpriteId::Hood2 => &ss.hood2,
        crate::enemies::SpriteId::Mummy => &ss.mummy,
        crate::enemies::SpriteId::Plantguy => &ss.plantguy,
        crate::enemies::SpriteId::Raddish => &ss.raddish,
        crate::enemies::SpriteId::Shadow => &ss.shadow,
        crate::enemies::SpriteId::Skeleton => &ss.skeleton,
        crate::enemies::SpriteId::Skeleton2 => &ss.skeleton2,
        crate::enemies::SpriteId::Snake => &ss.snake,
        crate::enemies::SpriteId::Zombie => &ss.zombie,
    }
}

impl SpriteSet {
    /// The bitmap named by `id`.
    pub fn sprite_of(&self, id: crate::enemies::SpriteId) -> (s: &Sprite)
        ensures
            s == spec_sprite_of(self, id),
    {
        match id {
            crate::enemies::SpriteId::Player => &self.player,
            crate::enemies::SpriteId::Diamond => &self.diamond,
            crate::enemies::SpriteId::Knife => &self.knife,
            crate::enemies::SpriteId::Axe => &self.axe,
            crate::enemies::SpriteId::Star => &self.star,
            crate::enemies::SpriteId::Wind => &self.wind,
            crate::enemies::SpriteId::Bat => &self.bat,
            crate::enemies::SpriteId::Bat2 => &self.bat2,
            crate::enemies::SpriteId::Crawl => &self.crawl,
            crate::enemies::SpriteId::Eye => &self.eye,
            crate::enemies::SpriteId::Phantom => &self.phantom,
            crate::enemies::SpriteId::Hood => &self.hood,
            crate::enemies::SpriteId::Hood2 => &self.hood2,
            crate::enemies::SpriteId::Mummy => &self.mummy,
            crate::enemies::SpriteId::Plantguy => &self.plantguy,
            crate::enemies::SpriteId::Raddish => &self.raddish,
            crate::enemies::SpriteId::Shadow => &self.shadow,
            crate::enemies::SpriteId::Skeleton => &self.skeleton,
            crate::enemies::SpriteId::Skeleton2 => &self.skeleton2,
            crate::enemies::SpriteId::Snake => &self.snake,
            crate::enemies::SpriteId::Zombie => &self.zombie,
        }
    }
}

} // verus!
