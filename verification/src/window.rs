//! A window: a sub-rectangle of the screen with its own origin, through
//! which the world is drawn. It projects world coordinates to virtual
//! pixels (with the vertical compression that corrects the 2x3 cell
//! aspect), clips against its own bounds, blits sprites with a
//! transparent color and four-way orientation, and fills circles.

use vstd::prelude::*;
use crate::fixed::{div_trunc, div_trunc_i64};
use crate::screen::{Screen, Color, lemma_flat_coords, lemma_pixel_index};
use crate::sprites::{Sprite, sprite_wf, texel, transparent, WIDTH, HEIGHT};
use crate::game::Dir;

verus! {

/// World units per pixel row, in fixed-point thousandths: the world is
/// squeezed by two-fifths vertically when projected.
pub const Y_STEP: i64 = 1_400;

/// World x to pixel column.
pub fn convert_x(x: i64) -> (r: i64)
    requires
        x != i64::MIN,
    ensures
        r == div_trunc(x as int, 1000),
{
    div_trunc_i64(x, 1000)
}

/// World y to pixel row, compressed.
pub fn convert_y(y: i64) -> (r: i64)
    requires
        y != i64::MIN,
    ensures
        r == div_trunc(y as int, Y_STEP as int),
{
    div_trunc_i64(y, Y_STEP)
}

/// Pixel column to world x.
pub fn iconvert_x(x: usize) -> (r: i64)
    requires
        x <= 1_000_000,
    ensures
        r == x * 1000,
{
    (x as i64) * 1000
}

/// Pixel row to world y, stretched.
pub fn iconvert_y(y: usize) -> (r: i64)
    requires
        y <= 1_000_000,
    ensures
        r == y * (Y_STEP as int),
{
    (y as i64) * Y_STEP
}

/// A sub-rectangle of the screen: its size and its offset from the
/// screen's top-left corner, in virtual pixels.
#[derive(Clone, Copy, PartialEq, Eq, Structural, Debug)]
pub struct Window {
    /// Pixels per window row.
    pub width: usize,
    /// Window pixel rows.
    pub height: usize,
    /// Horizontal offset into the screen.
    pub dx: usize,
    /// Vertical offset into the screen.
    pub dy: usize,
}

/// The window fits inside the screen.
pub open spec fn win_wf(w: Window, s: Screen) -> bool {
    &&& s.wf()
    &&& w.dx + w.width <= s.width
    &&& w.dy + w.height <= s.height
}

/// Screen pixel `i` lies inside the window.
pub open spec fn in_win(w: Window, sw: int, i: int) -> bool {
    &&& w.dy <= i / sw < w.dy + w.height
    &&& w.dx <= i % sw < w.dx + w.width
}

/// The screen after the window is filled with one color.
pub open spec fn win_fill_spec(buf: Seq<Color>, sw: int, w: Window, color: Color) -> Seq<Color> {
    Seq::new(
        buf.len(),
        |i: int|
            if in_win(w, sw, i) {
                color
            } else {
                buf[i]
            },
    )
}

/// The sprite texel covering window-local pixel `(lx, ly)` for a sprite
/// anchored at `(x0, y0)`: left and right mirror horizontally, up and
/// down transpose the bitmap. `None` outside the sprite's box.
pub open spec fn sprite_texel_at(
    sp: &Sprite,
    x0: int,
    y0: int,
    lx: int,
    ly: int,
    face: Dir,
) -> Option<Color> {
    let dx = lx - x0;
    let dy = ly - y0;
    match face {
        Dir::Right => if 0 <= dx < WIDTH as int && 0 <= dy < HEIGHT as int {
            Some(texel(sp, dy, dx))
        } else {
            None
        },
        Dir::Left => if 0 <= dx < WIDTH as int && 0 <= dy < HEIGHT as int {
            Some(texel(sp, dy, WIDTH as int - 1 - dx))
        } else {
            None
        },
        Dir::Down => if 0 <= dx < HEIGHT as int && 0 <= dy < WIDTH as int {
            Some(texel(sp, dx, dy))
        } else {
            None
        },
        Dir::Up => if 0 <= dx < HEIGHT as int && 0 <= dy < WIDTH as int {
            Some(texel(sp, dx, WIDTH as int - 1 - dy))
        } else {
            None
        },
    }
}

/// The screen after a sprite is blitted at anchor `(x0, y0)`: every
/// window pixel covered by an opaque texel takes that texel.
pub open spec fn sprite_paint(
    buf: Seq<Color>,
    sw: int,
    w: Window,
    x0: int,
    y0: int,
    sp: &Sprite,
    face: Dir,
) -> Seq<Color> {
    Seq::new(
        buf.len(),
        |i: int|
            if in_win(w, sw, i) {
                match sprite_texel_at(sp, x0, y0, i % sw - w.dx, i / sw - w.dy, face) {
                    Some(c) => if c != transparent(sp) {
                        c
                    } else {
                        buf[i]
                    },
                    None => buf[i],
                }
            } else {
                buf[i]
            },
    )
}

/// The anchor column of a sprite centered at world x `cx`.
pub open spec fn sprite_x0(cx: int) -> int {
    div_trunc(cx, 1000) - (WIDTH as int) / 2
}

/// The anchor row of an upright sprite whose feet stand at world y `cy`.
pub open spec fn sprite_y0(cy: int, face: Dir) -> int {
    match face {
        Dir::Right | Dir::Left => div_trunc(cy, Y_STEP as int) - (HEIGHT as int - (
        WIDTH as int) / 2),
        Dir::Up | Dir::Down => div_trunc(cy, Y_STEP as int) - (WIDTH as int) / 2,
    }
}

/// The screen after a circle of world radius `r` centered at world
/// `(cx, cy)` is filled: a window pixel is painted exactly when its
/// world-projected distance from the center is at most `r`.
pub open spec fn circle_paint(
    buf: Seq<Color>,
    sw: int,
    w: Window,
    cx: int,
    cy: int,
    r: int,
    color: Color,
) -> Seq<Color> {
    Seq::new(
        buf.len(),
        |i: int|
            if in_win(w, sw, i) && ((i % sw - w.dx) * 1000 - cx) * ((i % sw - w.dx) * 1000 - cx) + (
            (i / sw - w.dy) * (Y_STEP as int) - cy) * ((i / sw - w.dy) * (Y_STEP as int) - cy) <= r
                * r {
                color
            } else {
                buf[i]
            },
    )
}

impl Window {
    /// Writes one pixel, window-local coordinates.
    pub fn set(&self, screen: &mut Screen, x: usize, y: usize, color: Color)
        requires
            win_wf(*self, *old(screen)),
            x < self.width,
            y < self.height,
        ensures
            win_wf(*self, *final(screen)),
            final(screen).width == old(screen).width,
            final(screen).height == old(screen).height,
            final(screen)@ == old(screen)@.update(
                (y + self.dy) * old(screen).width + (x + self.dx),
                color,
            ),
    {
        screen.set(x + self.dx, y + self.dy, color);
    }

    /// Fills the whole window with one color; the screen outside it is
    /// untouched.
    pub fn fill(&self, screen: &mut Screen, color: Color)
        requires
            win_wf(*self, *old(screen)),
        ensures
            win_wf(*self, *final(screen)),
            final(screen).width == old(screen).width,
            final(screen).height == old(screen).height,
            final(screen)@ == win_fill_spec(
                old(screen)@,
                old(screen).width as int,
                *self,
                color,
            ),
    {
        let ghost target = win_fill_spec(old(screen)@, old(screen).width as int, *self, color);
        let ghost w0 = screen.width as int;
        let ghost n = screen@.len() as int;
        if screen.width == 0 {
            proof {
                assert(screen@ =~= target);
            }
            return ;
        }
        let mut px: Vec<Color> = Vec::new();
        let mut y: usize = 0;
        while y < screen.height
            invariant
                screen == old(screen),
                screen.wf(),
                screen.width >= 1,
                win_wf(*self, *screen),
                w0 == screen.width as int,
                n == screen@.len(),
                target == win_fill_spec(old(screen)@, w0, *self, color),
                y <= screen.height,
                px@.len() == y * w0,
                forall|k: int| 0 <= k < px@.len() ==> px@[k] == target[k],
            decreases screen.height - y,
        {
            let mut x: usize = 0;
            while x < screen.width
                invariant
                    screen == old(screen),
                    screen.wf(),
                    screen.width >= 1,
                    win_wf(*self, *screen),
                    w0 == screen.width as int,
                    n == screen@.len(),
                    target == win_fill_spec(old(screen)@, w0, *self, color),
                    y < screen.height,
                    x <= screen.width,
                    px@.len() == y * w0 + x,
                    forall|k: int| 0 <= k < px@.len() ==> px@[k] == target[k],
                decreases screen.width - x,
            {
                proof {
                    lemma_pixel_index(w0, screen.height as int, x as int, y as int);
                    lemma_flat_coords(w0, y as int, x as int);
                }
                let inside = self.dy <= y && y < self.dy + self.height && self.dx <= x && x
                    < self.dx + self.width;
                let idx = y * screen.width + x;
                let c = if inside {
                    color
                } else {
                    screen.pixels[idx]
                };
                px.push(c);
                x = x + 1;
            }
            proof {
                assert((y + 1) * w0 == y * w0 + w0) by (nonlinear_arith);
            }
            y = y + 1;
        }
        proof {
            assert(px@.len() == screen.height * w0);
            assert(screen.height * w0 == screen@.len()) by (nonlinear_arith)
                requires
                    screen@.len() == w0 * screen.height,
            ;
        }
        screen.pixels = px;
        proof {
            assert(screen@ =~= target);
        }
    }

    /// Blits a sprite centered at world `(cx, cy)`: texels equal to the
    /// sprite's transparent color are never painted, the window clips,
    /// and `face` mirrors or transposes the bitmap.
    pub fn sprite(&self, screen: &mut Screen, cx: i64, cy: i64, sp: &Sprite, face: Dir)
        requires
            win_wf(*self, *old(screen)),
            sprite_wf(sp),
            -2_050_000_000 <= cx <= 2_050_000_000,
            -2_050_000_000 <= cy <= 2_050_000_000,
        ensures
            win_wf(*self, *final(screen)),
            final(screen).width == old(screen).width,
            final(screen).height == old(screen).height,
            final(screen)@ == sprite_paint(
                old(screen)@,
                old(screen).width as int,
                *self,
                sprite_x0(cx as int),
                sprite_y0(cy as int, face),
                sp,
                face,
            ),
    {
        let x0 = convert_x(cx) - (WIDTH as i64) / 2;
        let y0 = match face {
            Dir::Right | Dir::Left => convert_y(cy) - (HEIGHT as i64 - (WIDTH as i64) / 2),
            Dir::Up | Dir::Down => convert_y(cy) - (WIDTH as i64) / 2,
        };
        let ghost target = sprite_paint(
            old(screen)@,
            old(screen).width as int,
            *self,
            x0 as int,
            y0 as int,
            sp,
            face,
        );
        let ghost w0 = screen.width as int;
        let ghost n = screen@.len() as int;
        if screen.width == 0 {
            proof {
                assert(screen@ =~= target);
            }
            return ;
        }
        let mut px: Vec<Color> = Vec::new();
        let mut y: usize = 0;
        while y < screen.height
            invariant
                screen == old(screen),
                screen.wf(),
                screen.width >= 1,
                win_wf(*self, *screen),
                sprite_wf(sp),
                w0 == screen.width as int,
                n == screen@.len(),
                -3_000_000_000 <= x0 as int <= 3_000_000_000,
                -3_000_000_000 <= y0 as int <= 3_000_000_000,
                target == sprite_paint(old(screen)@, w0, *self, x0 as int, y0 as int, sp, face),
                y <= screen.height,
                px@.len() == y * w0,
                forall|k: int| 0 <= k < px@.len() ==> px@[k] == target[k],
            decreases screen.height - y,
        {
            let mut x: usize = 0;
            while x < screen.width
                invariant
                    screen == old(screen),
                    screen.wf(),
                    screen.width >= 1,
                    win_wf(*self, *screen),
                    sprite_wf(sp),
                    w0 == screen.width as int,
                    n == screen@.len(),
                    -3_000_000_000 <= x0 as int <= 3_000_000_000,
                    -3_000_000_000 <= y0 as int <= 3_000_000_000,
                    target == sprite_paint(
                        old(screen)@,
                        w0,
                        *self,
                        x0 as int,
                        y0 as int,
                        sp,
                        face,
                    ),
                    y < screen.height,
                    x <= screen.width,
                    px@.len() == y * w0 + x,
                    forall|k: int| 0 <= k < px@.len() ==> px@[k] == target[k],
                decreases screen.width - x,
            {
                proof {
                    lemma_pixel_index(w0, screen.height as int, x as int, y as int);
                    lemma_flat_coords(w0, y as int, x as int);
                }
                let idx = y * screen.width + x;
                let old_c = screen.pixels[idx];
                let inside = self.dy <= y && y < self.dy + self.height && self.dx <= x && x
                    < self.dx + self.width;
                let mut c = old_c;
                if inside {
                    let lx = (x - self.dx) as i64;
                    let ly = (y - self.dy) as i64;
                    let ddx = lx - x0;
                    let ddy = ly - y0;
                    let tr = {
                        let t0 = &sp.rows[0];
                        t0[0]
                    };
                    match face {
                        Dir::Right => {
                            if 0 <= ddx && ddx < WIDTH as i64 && 0 <= ddy && ddy < HEIGHT as i64 {
                                let t = sp.rows[ddy as usize][ddx as usize];
                                if !(t == tr) {
                                    c = t;
                                }
                            }
                        },
                        Dir::Left => {
                            if 0 <= ddx && ddx < WIDTH as i64 && 0 <= ddy && ddy < HEIGHT as i64 {
                                let t = sp.rows[ddy as usize][(WIDTH as i64 - 1 - ddx) as usize];
                                if !(t == tr) {
                                    c = t;
                                }
                            }
                        },
                        Dir::Down => {
                            if 0 <= ddx && ddx < HEIGHT as i64 && 0 <= ddy && ddy < WIDTH as i64 {
                                let t = sp.rows[ddx as usize][ddy as usize];
                                if !(t == tr) {
                                    c = t;
                                }
                            }
                        },
                        Dir::Up => {
                            if 0 <= ddx && ddx < HEIGHT as i64 && 0 <= ddy && ddy < WIDTH as i64 {
                                let t = sp.rows[ddx as usize][(WIDTH as i64 - 1 - ddy) as usize];
                                if !(t == tr) {
                                    c = t;
                                }
                            }
                        },
                    }
                }
                px.push(c);
                x = x + 1;
            }
            proof {
                assert((y + 1) * w0 == y * w0 + w0) by (nonlinear_arith);
            }
            y = y + 1;
        }
        proof {
            assert(px@.len() == screen.height * w0);
            assert(screen.height * w0 == screen@.len()) by (nonlinear_arith)
                requires
                    screen@.len() == w0 * screen.height,
            ;
        }
        screen.pixels = px;
        proof {
            assert(screen@ =~= target);
        }
    }

    /// Fills the circle of world radius `r` centered at world
    /// `(cx, cy)`: every window pixel whose world-projected distance from
    /// the center is at most `r` is painted.
    pub fn circle(&self, screen: &mut Screen, cx: i64, cy: i64, r: i64, color: Color)
        requires
            win_wf(*self, *old(screen)),
            -2_050_000_000 <= cx <= 2_050_000_000,
            -2_050_000_000 <= cy <= 2_050_000_000,
            0 <= r <= 1_000_000_000,
        ensures
            win_wf(*self, *final(screen)),
            final(screen).width == old(screen).width,
            final(screen).height == old(screen).height,
            final(screen)@ == circle_paint(
                old(screen)@,
                old(screen).width as int,
                *self,
                cx as int,
                cy as int,
                r as int,
                color,
            ),
    {
        let ghost target = circle_paint(
            old(screen)@,
            old(screen).width as int,
            *self,
            cx as int,
            cy as int,
            r as int,
            color,
        );
        let ghost w0 = screen.width as int;
        let ghost n = screen@.len() as int;
        if screen.width == 0 {
            proof {
                assert(screen@ =~= target);
            }
            return ;
        }
        proof {
            assert(0 <= r * r <= 1_000_000_000_000_000_000) by (nonlinear_arith)
                requires
                    0 <= r <= 1_000_000_000,
            ;
        }
        let r2 = r * r;
        let mut px: Vec<Color> = Vec::new();
        let mut y: usize = 0;
        while y < screen.height
            invariant
                screen == old(screen),
                screen.wf(),
                screen.width >= 1,
                win_wf(*self, *screen),
                w0 == screen.width as int,
                n == screen@.len(),
                -2_050_000_000 <= cx <= 2_050_000_000,
                -2_050_000_000 <= cy <= 2_050_000_000,
                0 <= r <= 1_000_000_000,
                r2 == r * r,
                target == circle_paint(old(screen)@, w0, *self, cx as int, cy as int, r as int, color),
                y <= screen.height,
                px@.len() == y * w0,
                forall|k: int| 0 <= k < px@.len() ==> px@[k] == target[k],
            decreases screen.height - y,
        {
            let mut x: usize = 0;
            while x < screen.width
                invariant
                    screen == old(screen),
                    screen.wf(),
                    screen.width >= 1,
                    win_wf(*self, *screen),
                    w0 == screen.width as int,
                    n == screen@.len(),
                    -2_050_000_000 <= cx <= 2_050_000_000,
                    -2_050_000_000 <= cy <= 2_050_000_000,
                    0 <= r <= 1_000_000_000,
                    r2 == r * r,
                    target == circle_paint(
                        old(screen)@,
                        w0,
                        *self,
                        cx as int,
                        cy as int,
                        r as int,
                        color,
                    ),
                    y < screen.height,
                    x <= screen.width,
                    px@.len() == y * w0 + x,
                    forall|k: int| 0 <= k < px@.len() ==> px@[k] == target[k],
                decreases screen.width - x,
            {
                proof {
                    lemma_pixel_index(w0, screen.height as int, x as int, y as int);
                    lemma_flat_coords(w0, y as int, x as int);
                }
                let idx = y * screen.width + x;
                let old_c = screen.pixels[idx];
                let inside = self.dy <= y && y < self.dy + self.height && self.dx <= x && x
                    < self.dx + self.width;
                let mut c = old_c;
                if inside {
                    let wx = ((x - self.dx) as i64) * 1000;
                    let wy = ((y - self.dy) as i64) * Y_STEP;
                    let ddx = wx - cx;
                    let ddy = wy - cy;
                    proof {
                        crate::fixed::lemma_dist2_bounds_wide(ddx as int, ddy as int);
                    }
                    if ddx * ddx + ddy * ddy <= r2 {
                        c = color;
                    }
                }
                px.push(c);
                x = x + 1;
            }
            proof {
                assert((y + 1) * w0 == y * w0 + w0) by (nonlinear_arith);
            }
            y = y + 1;
        }
        proof {
            assert(px@.len() == screen.height * w0);
            assert(screen.height * w0 == screen@.len()) by (nonlinear_arith)
                requires
                    screen@.len() == w0 * screen.height,
            ;
        }
        screen.pixels = px;
        proof {
            assert(screen@ =~= target);
        }
    }
}

} // verus!
