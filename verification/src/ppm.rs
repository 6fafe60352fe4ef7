//! A parser for plain-text PPM images (the `P3` form), the format the
//! sprite bitmaps ship in: a magic line, one comment line, the fixed
//! dimensions, the sample ceiling, then one decimal sample per line,
//! three per texel, row-major.

use vstd::prelude::*;
use crate::screen::Color;
use crate::sprites::{Sprite, sprite_wf, texel, WIDTH, HEIGHT};

verus! {

/// An ASCII decimal digit.
pub open spec fn is_digit(b: u8) -> bool {
    48 <= b <= 57
}

/// The value of an all-digit string, most significant first.
pub open spec fn dec_value(s: Seq<u8>) -> int
    decreases s.len(),
{
    if s.len() == 0 {
        0
    } else {
        dec_value(s.drop_last()) * 10 + (s.last() - 48)
    }
}

/// One line holds a sample: digits only, value at most 255.
pub open spec fn valid_sample(s: Seq<u8>) -> bool {
    &&& s.len() >= 1
    &&& (forall|i: int| 0 <= i < s.len() ==> is_digit(#[trigger] s[i]))
    &&& dec_value(s) <= 255
}

/// A digit string's value only grows with more digits.
proof fn lemma_dec_monotone(s: Seq<u8>, k: int)
    requires
        0 <= k <= s.len(),
        forall|i: int| 0 <= i < s.len() ==> is_digit(#[trigger] s[i]),
    ensures
        dec_value(s) >= dec_value(s.subrange(0, k)),
        dec_value(s) >= 0,
    decreases s.len(),
{
    if s.len() == 0 {
    } else {
        let prefix = s.drop_last();
        assert(prefix =~= s.subrange(0, s.len() - 1));
        lemma_dec_monotone(prefix, if k <= s.len() - 1 {
            k
        } else {
            s.len() - 1
        });
        if k <= s.len() - 1 {
            assert(s.subrange(0, k) =~= prefix.subrange(0, k));
        } else {
            assert(s.subrange(0, k) =~= s);
        }
    }
}

/// Parses one decimal sample line: digits only, at most 255.
pub fn parse_sample(s: &Vec<u8>) -> (r: Option<u8>)
    ensures
        r is Some <==> valid_sample(s@),
        r is Some ==> r->Some_0 == dec_value(s@),
{
    if s.len() == 0 {
        return None;
    }
    let n = s.len();
    let mut acc: u32 = 0;
    let mut i: usize = 0;
    while i < n
        invariant
            n == s@.len() >= 1,
            i <= n,
            forall|j: int| 0 <= j < i ==> is_digit(#[trigger] s@[j]),
            acc == dec_value(s@.subrange(0, i as int)),
            acc <= 255,
        decreases n - i,
    {
        proof {
            assert(s@.subrange(0, i + 1).drop_last() =~= s@.subrange(0, i as int));
        }
        let b = s[i];
        if b < 48 || b > 57 {
            return None;
        }
        let v = acc * 10 + (b - 48) as u32;
        if v > 255 {
            proof {
                if forall|j: int| 0 <= j < s@.len() ==> is_digit(#[trigger] s@[j]) {
                    lemma_dec_monotone(s@, i + 1);
                }
            }
            return None;
        }
        acc = v;
        i = i + 1;
    }
    proof {
        assert(s@.subrange(0, n as int) =~= s@);
    }
    Some(acc as u8)
}

/// The texel a valid image holds at row `r`, column `c`.
pub open spec fn ppm_texel(lines: Seq<Seq<u8>>, r: int, c: int) -> Color {
    Color {
        r: dec_value(lines[4 + (r * (WIDTH as int) + c) * 3]) as u8,
        g: dec_value(lines[4 + (r * (WIDTH as int) + c) * 3 + 1]) as u8,
        b: dec_value(lines[4 + (r * (WIDTH as int) + c) * 3 + 2]) as u8,
    }
}

/// The lines form a valid plain-text image of the fixed sprite shape:
/// the `P3` magic, a comment, the exact dimensions, the sample ceiling
/// `255`, and one valid sample per line, three per texel.
pub open spec fn ppm_ok(lines: Seq<Seq<u8>>) -> bool {
    &&& lines.len() == 4 + (WIDTH as int) * (HEIGHT as int) * 3
    &&& lines[0] =~= seq![80u8, 51u8]
    &&& lines[1].len() >= 1 && lines[1][0] == 35u8
    &&& lines[2] =~= seq![49u8, 56u8, 32u8, 50u8, 52u8]
    &&& lines[3] =~= seq![50u8, 53u8, 53u8]
    &&& (forall|k: int| 4 <= k < lines.len() ==> valid_sample(#[trigger] lines[k]))
}

/// Parses a sprite from the lines of a plain-text image: the result
/// exists exactly when the lines form a valid image, and then every
/// texel is the decoded sample triple of its three lines.
pub fn parse_ppm(lines: &Vec<Vec<u8>>) -> (r: Option<Sprite>)
    ensures
        r is Some <==> ppm_ok(lines.deep_view()),
        r is Some ==> sprite_wf(&r->Some_0) && (forall|rr: int, cc: int|
            0 <= rr < HEIGHT as int && 0 <= cc < WIDTH as int ==> texel(&r->Some_0, rr, cc)
                == ppm_texel(lines.deep_view(), rr, cc)),
{
    let ghost dv = lines.deep_view();
    proof {
        assert(dv.len() == lines@.len());
        assert(forall|i: int| 0 <= i < lines@.len() ==> dv[i] == #[trigger] lines@[i]@);
    }
    if lines.len() != 4 + WIDTH * HEIGHT * 3 {
        return None;
    }
    let l0 = &lines[0];
    if !(l0.len() == 2 && l0[0] == 80 && l0[1] == 51) {
        proof {
            if dv[0].len() == 2 && dv[0][0] == 80 && dv[0][1] == 51 {
                assert(dv[0] =~= seq![80u8, 51u8]);
            }
            assert(!(dv[0] =~= seq![80u8, 51u8]));
        }
        return None;
    }
    proof {
        assert(dv[0] =~= seq![80u8, 51u8]);
    }
    let l1 = &lines[1];
    if !(l1.len() >= 1 && l1[0] == 35) {
        return None;
    }
    let l2 = &lines[2];
    if !(l2.len() == 5 && l2[0] == 49 && l2[1] == 56 && l2[2] == 32 && l2[3] == 50 && l2[4]
        == 52) {
        proof {
            if dv[2].len() == 5 && dv[2][0] == 49 && dv[2][1] == 56 && dv[2][2] == 32 && dv[2][3]
                == 50 && dv[2][4] == 52 {
                assert(dv[2] =~= seq![49u8, 56u8, 32u8, 50u8, 52u8]);
            }
            assert(!(dv[2] =~= seq![49u8, 56u8, 32u8, 50u8, 52u8]));
        }
        return None;
    }
    proof {
        assert(dv[2] =~= seq![49u8, 56u8, 32u8, 50u8, 52u8]);
    }
    let l3 = &lines[3];
    if !(l3.len() == 3 && l3[0] == 50 && l3[1] == 53 && l3[2] == 53) {
        proof {
            if dv[3].len() == 3 && dv[3][0] == 50 && dv[3][1] == 53 && dv[3][2] == 53 {
                assert(dv[3] =~= seq![50u8, 53u8, 53u8]);
            }
            assert(!(dv[3] =~= seq![50u8, 53u8, 53u8]));
        }
        return None;
    }
    proof {
        assert(dv[3] =~= seq![50u8, 53u8, 53u8]);
    }

    let mut rows: Vec<Vec<Color>> = Vec::new();
    let mut rr: usize = 0;
    while rr < HEIGHT
        invariant
            lines@.len() == 4 + WIDTH * HEIGHT * 3,
            dv == lines.deep_view(),
            dv.len() == lines@.len(),
            forall|i: int| 0 <= i < lines@.len() ==> dv[i] == #[trigger] lines@[i]@,
            rr <= HEIGHT,
            rows@.len() == rr,
            forall|i: int| 0 <= i < rr ==> (#[trigger] rows@[i])@.len() == WIDTH,
            forall|i: int, j: int|
                0 <= i < rr && 0 <= j < WIDTH as int ==> #[trigger] (rows@[i])@[j] == ppm_texel(
                    dv,
                    i,
                    j,
                ),
            forall|k: int| 4 <= k < 4 + rr * (WIDTH as int) * 3 ==> valid_sample(#[trigger] dv[k]),
        decreases HEIGHT - rr,
    {
        let mut row: Vec<Color> = Vec::new();
        let mut cc: usize = 0;
        while cc < WIDTH
            invariant
                lines@.len() == 4 + WIDTH * HEIGHT * 3,
                dv == lines.deep_view(),
                dv.len() == lines@.len(),
                forall|i: int| 0 <= i < lines@.len() ==> dv[i] == #[trigger] lines@[i]@,
                rr < HEIGHT,
                cc <= WIDTH,
                row@.len() == cc,
                forall|j: int| 0 <= j < cc ==> #[trigger] row@[j] == ppm_texel(dv, rr as int, j),
                forall|k: int|
                    4 <= k < 4 + (rr * (WIDTH as int) + cc) * 3 ==> valid_sample(
                        #[trigger] dv[k],
                    ),
            decreases WIDTH - cc,
        {
            let base = 4 + (rr * WIDTH + cc) * 3;
            proof {
                assert(rr * (WIDTH as int) + cc < (WIDTH as int) * (HEIGHT as int))
                    by (nonlinear_arith)
                    requires
                        0 <= rr < HEIGHT as int,
                        0 <= cc < WIDTH as int,
                ;
            }
            let red = parse_sample(&lines[base]);
            let green = parse_sample(&lines[base + 1]);
            let blue = parse_sample(&lines[base + 2]);
            match (red, green, blue) {
                (Some(cr), Some(cg), Some(cb)) => {
                    row.push(Color { r: cr, g: cg, b: cb });
                },
                _ => {
                    return None;
                },
            }
            cc = cc + 1;
        }
        rows.push(row);
        proof {
            assert((rr + 1) * (WIDTH as int) * 3 == (rr * (WIDTH as int) + (WIDTH as int)) * 3)
                by (nonlinear_arith);
        }
        rr = rr + 1;
    }
    proof {
        assert(4 + (HEIGHT as int) * (WIDTH as int) * 3 == 4 + (WIDTH as int) * (HEIGHT as int)
            * 3) by (nonlinear_arith);
        assert(forall|k: int| 4 <= k < dv.len() ==> valid_sample(#[trigger] dv[k]));
    }
    Some(Sprite { rows })
}

} // verus!
