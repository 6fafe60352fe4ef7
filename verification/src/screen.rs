//! The virtual pixel buffer and its quantizer.
//!
//! A `Screen` holds one RGB triple per virtual pixel; each terminal cell
//! covers a 2-wide, 3-tall block of them. Rendering classifies the six
//! pixels of a cell as light or dark around their mean brightness, picks
//! the block-element glyph whose filled sub-cells match, and paints the
//! filled part in the average light color and the rest in the average
//! dark color. Consecutive cells skip re-emitting an unchanged color.

use vstd::prelude::*;

verus! {

/// One RGB color.
#[derive(Clone, Copy, PartialEq, Eq, Structural, Debug)]
pub struct Color {
    pub r: u8,
    pub g: u8,
    pub b: u8,
}

/// Pure black, the default pixel and the stand-in for an empty average.
pub open spec fn black() -> Color {
    Color { r: 0, g: 0, b: 0 }
}

/// Perceived brightness: green weighs most, red less, blue least.
pub open spec fn lightness_spec(c: Color) -> int {
    c.r / 8 + c.g / 2 + c.b / 32
}

/// Perceived brightness of one pixel.
pub fn lightness(c: Color) -> (l: u8)
    ensures
        l == lightness_spec(c),
        l <= 165,
{
    c.r / 8 + c.g / 2 + c.b / 32
}

/// Mean brightness of six pixels, each sample truncated to a sixth.
pub open spec fn mean_spec(cs: Seq<Color>) -> int
    recommends
        cs.len() == 6,
{
    lightness_spec(cs[0]) / 6 + lightness_spec(cs[1]) / 6 + lightness_spec(cs[2]) / 6
        + lightness_spec(cs[3]) / 6 + lightness_spec(cs[4]) / 6 + lightness_spec(cs[5]) / 6
}

/// Whether pixel `i` of the cell counts as light.
pub open spec fn is_light(cs: Seq<Color>, i: int) -> bool {
    lightness_spec(cs[i]) > mean_spec(cs)
}

/// The 6-bit mask of light pixels, bit `i` for pixel `i`.
pub open spec fn block_mask_spec(cs: Seq<Color>) -> int {
    (if is_light(cs, 0) { 1int } else { 0int }) + (if is_light(cs, 1) { 2int } else { 0int })
        + (if is_light(cs, 2) { 4int } else { 0int }) + (if is_light(cs, 3) { 8int } else { 0int })
        + (if is_light(cs, 4) { 16int } else { 0int }) + (if is_light(cs, 5) { 32int } else {
        0int
    })
}

/// Sum of the red channel over a sequence of colors.
pub open spec fn sum_r(cs: Seq<Color>) -> int
    decreases cs.len(),
{
    if cs.len() == 0 {
        0
    } else {
        sum_r(cs.drop_last()) + cs.last().r
    }
}

/// Sum of the green channel over a sequence of colors.
pub open spec fn sum_g(cs: Seq<Color>) -> int
    decreases cs.len(),
{
    if cs.len() == 0 {
        0
    } else {
        sum_g(cs.drop_last()) + cs.last().g
    }
}

/// Sum of the blue channel over a sequence of colors.
pub open spec fn sum_b(cs: Seq<Color>) -> int
    decreases cs.len(),
{
    if cs.len() == 0 {
        0
    } else {
        sum_b(cs.drop_last()) + cs.last().b
    }
}

/// The channel-wise average of a set of colors; black when the set is empty.
pub open spec fn avg_spec(cs: Seq<Color>) -> Color {
    if cs.len() == 0 {
        black()
    } else {
        Color {
            r: (sum_r(cs) / cs.len() as int) as u8,
            g: (sum_g(cs) / cs.len() as int) as u8,
            b: (sum_b(cs) / cs.len() as int) as u8,
        }
    }
}

/// The channel-wise average color of at most six samples.
pub fn color_avg(colors: &Vec<Color>) -> (avg: Color)
    requires
        colors.len() <= 6,
    ensures
        avg == avg_spec(colors@),
{
    let n = colors.len();
    if n == 0 {
        return Color { r: 0, g: 0, b: 0 };
    }
    let mut tr: u16 = 0;
    let mut tg: u16 = 0;
    let mut tb: u16 = 0;
    let mut i: usize = 0;
    while i < n
        invariant
            i <= n <= 6,
            n == colors.len(),
            tr == sum_r(colors@.subrange(0, i as int)),
            tg == sum_g(colors@.subrange(0, i as int)),
            tb == sum_b(colors@.subrange(0, i as int)),
            tr <= 255 * i,
            tg <= 255 * i,
            tb <= 255 * i,
        decreases n - i,
    {
        let c = colors[i];
        proof {
            assert(colors@.subrange(0, i + 1).drop_last() =~= colors@.subrange(0, i as int));
            assert(colors@.subrange(0, i + 1).last() == colors@[i as int]);
        }
        tr = tr + c.r as u16;
        tg = tg + c.g as u16;
        tb = tb + c.b as u16;
        i = i + 1;
    }
    proof {
        assert(colors@.subrange(0, n as int) =~= colors@);
    }
    Color { r: (tr / n as u16) as u8, g: (tg / n as u16) as u8, b: (tb / n as u16) as u8 }
}

/// Two to the `k`-th, for the six mask bits.
pub open spec fn two_pow(k: int) -> int
    decreases k,
{
    if k <= 0 {
        1
    } else {
        2 * two_pow(k - 1)
    }
}

/// The values of `two_pow` on the six mask bits.
pub proof fn lemma_two_pow_values()
    ensures
        two_pow(0) == 1,
        two_pow(1) == 2,
        two_pow(2) == 4,
        two_pow(3) == 8,
        two_pow(4) == 16,
        two_pow(5) == 32,
        two_pow(6) == 64,
{
    assert(two_pow(1) == 2 * two_pow(0));
    assert(two_pow(2) == 2 * two_pow(1));
    assert(two_pow(3) == 2 * two_pow(2));
    assert(two_pow(4) == 2 * two_pow(3));
    assert(two_pow(5) == 2 * two_pow(4));
    assert(two_pow(6) == 2 * two_pow(5));
}

/// The light pixels among the first `k` of the cell, in pixel order.
pub open spec fn lights_partial(cs: Seq<Color>, k: int) -> Seq<Color>
    decreases k,
{
    if k <= 0 {
        Seq::empty()
    } else if is_light(cs, k - 1) {
        lights_partial(cs, k - 1).push(cs[k - 1])
    } else {
        lights_partial(cs, k - 1)
    }
}

/// The dark pixels among the first `k` of the cell, in pixel order.
pub open spec fn darks_partial(cs: Seq<Color>, k: int) -> Seq<Color>
    decreases k,
{
    if k <= 0 {
        Seq::empty()
    } else if is_light(cs, k - 1) {
        darks_partial(cs, k - 1)
    } else {
        darks_partial(cs, k - 1).push(cs[k - 1])
    }
}

/// The light pixels of a cell, in pixel order.
pub open spec fn lights_spec(cs: Seq<Color>) -> Seq<Color> {
    lights_partial(cs, 6)
}

/// The dark pixels of a cell, in pixel order.
pub open spec fn darks_spec(cs: Seq<Color>) -> Seq<Color> {
    darks_partial(cs, 6)
}

/// Quantizes the six pixels of one cell: the light mask, the background
/// (average dark color) and the foreground (average light color).
pub fn get_block(colors: &Vec<Color>) -> (r: (u32, Color, Color))
    requires
        colors.len() == 6,
    ensures
        r.0 == block_mask_spec(colors@),
        r.0 < 64,
        r.1 == avg_spec(darks_spec(colors@)),
        r.2 == avg_spec(lights_spec(colors@)),
{
    let mean: u8 = lightness(colors[0]) / 6 + lightness(colors[1]) / 6 + lightness(colors[2]) / 6
        + lightness(colors[3]) / 6 + lightness(colors[4]) / 6 + lightness(colors[5]) / 6;
    assert(mean == mean_spec(colors@));
    let mut block: u32 = 0;
    let mut lights: Vec<Color> = Vec::new();
    let mut darks: Vec<Color> = Vec::new();
    let mut i: usize = 0;
    let mut bit: u32 = 1;
    while i < 6
        invariant
            i <= 6,
            colors.len() == 6,
            bit == two_pow(i as int),
            bit <= 64,
            mean == mean_spec(colors@),
            lights@ == lights_partial(colors@, i as int),
            darks@ == darks_partial(colors@, i as int),
            lights@.len() <= i,
            darks@.len() <= i,
            block == block_partial(colors@, i as int),
            block < bit,
        decreases 6 - i,
    {
        proof {
            assert(two_pow(i + 1) == 2 * two_pow(i as int));
            lemma_two_pow_values();
            assert(lights_partial(colors@, i + 1) == if is_light(colors@, i as int) {
                lights_partial(colors@, i as int).push(colors@[i as int])
            } else {
                lights_partial(colors@, i as int)
            });
            assert(darks_partial(colors@, i + 1) == if is_light(colors@, i as int) {
                darks_partial(colors@, i as int)
            } else {
                darks_partial(colors@, i as int).push(colors@[i as int])
            });
        }
        let c = colors[i];
        assert(c == colors@[i as int]);
        if lightness(c) > mean {
            assert(is_light(colors@, i as int));
            block = block + bit;
            lights.push(c);
        } else {
            assert(!is_light(colors@, i as int));
            darks.push(c);
        }
        assert(lights@ == lights_partial(colors@, i + 1));
        assert(darks@ == darks_partial(colors@, i + 1));
        i = i + 1;
        bit = bit * 2;
    }
    proof {
        lemma_block_partial_full(colors@);
        lemma_two_pow_values();
    }
    let bg = color_avg(&darks);
    let fg = color_avg(&lights);
    (block, bg, fg)
}

/// The mask built from the first `k` pixels of the cell.
pub open spec fn block_partial(cs: Seq<Color>, k: int) -> int
    decreases k,
{
    if k <= 0 {
        0
    } else {
        block_partial(cs, k - 1) + (if is_light(cs, k - 1) {
            two_pow(k - 1)
        } else {
            0int
        })
    }
}

/// The full mask equals the sum of the set bits.
proof fn lemma_block_partial_full(cs: Seq<Color>)
    ensures
        block_partial(cs, 6) == block_mask_spec(cs),
{
    lemma_two_pow_values();
    assert(block_partial(cs, 1) == block_partial(cs, 0) + (if is_light(cs, 0) {
        two_pow(0)
    } else {
        0int
    }));
    assert(block_partial(cs, 2) == block_partial(cs, 1) + (if is_light(cs, 1) {
        two_pow(1)
    } else {
        0int
    }));
    assert(block_partial(cs, 3) == block_partial(cs, 2) + (if is_light(cs, 2) {
        two_pow(2)
    } else {
        0int
    }));
    assert(block_partial(cs, 4) == block_partial(cs, 3) + (if is_light(cs, 3) {
        two_pow(3)
    } else {
        0int
    }));
    assert(block_partial(cs, 5) == block_partial(cs, 4) + (if is_light(cs, 4) {
        two_pow(4)
    } else {
        0int
    }));
    assert(block_partial(cs, 6) == block_partial(cs, 5) + (if is_light(cs, 5) {
        two_pow(5)
    } else {
        0int
    }));
}

/// The Unicode scalar of the glyph whose filled sub-cells match `mask`:
/// a space for the empty mask, a full block for the full one, legacy
/// half blocks for the left and right columns, a sextant otherwise.
pub open spec fn sextant_spec(mask: int) -> int {
    if mask == 0 {
        0x20
    } else if mask < 0x15 {
        0x1FB00 + mask - 1
    } else if mask == 0x15 {
        0x258C
    } else if mask < 0x2A {
        0x1FB00 + mask - 2
    } else if mask == 0x2A {
        0x2590
    } else if mask < 0x3F {
        0x1FB00 + mask - 3
    } else {
        0x2588
    }
}

/// The Unicode scalar of the glyph for a 6-bit light mask.
pub fn sextant(block: u32) -> (glyph: u32)
    requires
        block < 64,
    ensures
        glyph == sextant_spec(block as int),
{
    if block == 0 {
        0x20
    } else if block < 0x15 {
        0x1FB00 + block - 1
    } else if block == 0x15 {
        0x258C
    } else if block < 0x2A {
        0x1FB00 + block - 2
    } else if block == 0x2A {
        0x2590
    } else if block < 0x3F {
        0x1FB00 + block - 3
    } else {
        0x2588
    }
}

/// Bright white, the initial foreground the emitter assumes.
pub open spec fn white() -> Color {
    Color { r: 255, g: 255, b: 255 }
}

/// A flat index lies inside the buffer.
pub proof fn lemma_pixel_index(width: int, height: int, x: int, y: int)
    by (nonlinear_arith)
    requires
        0 <= x < width <= 32768,
        0 <= y < height <= 32768,
    ensures
        0 <= y * width + x < width * height,
        width * height <= 0x4000_0000,
{
}

/// The virtual pixel buffer: `width * height` colors, row-major.
pub struct Screen {
    /// Virtual pixels per row: twice the terminal column count.
    pub width: usize,
    /// Virtual pixel rows: three per terminal row, one terminal row spared.
    pub height: usize,
    /// The pixels, row-major, `width * height` of them.
    pub pixels: Vec<Color>,
}

impl Screen {
    /// The pixels, row-major.
    pub open spec fn view(&self) -> Seq<Color> {
        self.pixels@
    }

    /// The buffer matches its dimensions and the 2x3 cell grid.
    pub open spec fn wf(&self) -> bool {
        &&& self@.len() == self.width * self.height
        &&& self.width % 2 == 0
        &&& self.height % 3 == 0
        &&& self.width <= 32768
        &&& self.height <= 32768
    }

    /// An empty screen; call `init` or `resize` before drawing.
    pub fn new() -> (s: Screen)
        ensures
            s.wf(),
            s.width == 0,
            s.height == 0,
    {
        Screen { width: 0, height: 0, pixels: Vec::new() }
    }

    /// Reallocates the buffer for a terminal of `cols` columns and `rows`
    /// rows, all pixels black. One terminal row is spared to avoid scroll
    /// artifacts; each remaining cell covers 2x3 virtual pixels.
    pub fn resize(&mut self, cols: usize, rows: usize)
        requires
            1 <= rows <= 10922,
            cols <= 16384,
        ensures
            final(self).wf(),
            final(self).width == 2 * cols,
            final(self).height == 3 * (rows - 1),
            final(self)@ == Seq::new((2 * cols * (3 * (rows - 1))) as nat, |i: int| black()),
    {
        let w = cols * 2;
        let h = (rows - 1) * 3;
        proof {
            assert(w * h <= 0x4000_0000) by (nonlinear_arith)
                requires
                    0 <= w <= 32768,
                    0 <= h <= 32768,
            ;
        }
        let n = w * h;
        let mut px: Vec<Color> = Vec::new();
        let mut i: usize = 0;
        while i < n
            invariant
                i <= n,
                px@.len() == i,
                forall|j: int| 0 <= j < i ==> px@[j] == black(),
            decreases n - i,
        {
            px.push(Color { r: 0, g: 0, b: 0 });
            i = i + 1;
        }
        self.width = w;
        self.height = h;
        self.pixels = px;
        proof {
            assert(self@ =~= Seq::new((2 * cols * (3 * (rows - 1))) as nat, |i: int| black()));
        }
    }

    /// Readies the screen: reallocates the buffer and hands back the
    /// control bytes that hide the cursor and erase the display.
    pub fn init(&mut self, cols: usize, rows: usize) -> (ops: Vec<u8>)
        requires
            1 <= rows <= 10922,
            cols <= 16384,
        ensures
            final(self).wf(),
            final(self).width == 2 * cols,
            final(self).height == 3 * (rows - 1),
            final(self)@ == Seq::new((2 * cols * (3 * (rows - 1))) as nat, |i: int| black()),
            ops@ == civis_spec() + ed_spec(),
    {
        self.resize(cols, rows);
        let mut ops = civis();
        let mut tail = ed();
        ops.append(&mut tail);
        proof {
            assert(ops@ =~= civis_spec() + ed_spec());
        }
        ops
    }

    /// The control bytes that restore the cursor and reset attributes.
    pub fn restore(&self) -> (ops: Vec<u8>)
        ensures
            ops@ == cnorm_spec() + sgr0_spec(),
    {
        let mut ops = cnorm();
        let mut tail = sgr0();
        ops.append(&mut tail);
        proof {
            assert(ops@ =~= cnorm_spec() + sgr0_spec());
        }
        ops
    }

    /// Writes one virtual pixel. Callers clip: the coordinates must lie
    /// inside the buffer.
    pub fn set(&mut self, x: usize, y: usize, color: Color)
        requires
            old(self).wf(),
            x < old(self).width,
            y < old(self).height,
        ensures
            final(self).wf(),
            final(self).width == old(self).width,
            final(self).height == old(self).height,
            final(self)@ == old(self)@.update(y * old(self).width + x, color),
    {
        proof {
            lemma_pixel_index(self.width as int, self.height as int, x as int, y as int);
        }
        let idx = y * self.width + x;
        self.pixels[idx] = color;
    }
}

/// Paints every pixel of the screen one color.
pub fn fill(screen: &mut Screen, color: Color)
    requires
        old(screen).wf(),
    ensures
        final(screen).wf(),
        final(screen).width == old(screen).width,
        final(screen).height == old(screen).height,
        final(screen)@ == Seq::new(old(screen)@.len(), |i: int| color),
{
    let ghost n = screen@.len();
    let mut y: usize = 0;
    while y < screen.height
        invariant
            screen.wf(),
            screen.width == old(screen).width,
            screen.height == old(screen).height,
            screen@.len() == n,
            y <= screen.height,
            forall|i: int| 0 <= i < y * screen.width ==> screen@[i] == color,
            forall|i: int| y * screen.width <= i < n ==> screen@[i] == old(screen)@[i],
        decreases screen.height - y,
    {
        let mut x: usize = 0;
        while x < screen.width
            invariant
                screen.wf(),
                screen.width == old(screen).width,
                screen.height == old(screen).height,
                screen@.len() == n,
                y < screen.height,
                x <= screen.width,
                forall|i: int| 0 <= i < y * screen.width + x ==> screen@[i] == color,
                forall|i: int| y * screen.width + x <= i < n ==> screen@[i] == old(screen)@[i],
            decreases screen.width - x,
        {
            proof {
                lemma_pixel_index(
                    screen.width as int,
                    screen.height as int,
                    x as int,
                    y as int,
                );
            }
            screen.set(x, y, color);
            x = x + 1;
        }
        proof {
            assert((y + 1) * screen.width == y * screen.width + screen.width) by (nonlinear_arith);
        }
        y = y + 1;
    }
    proof {
        assert(n == screen.height * screen.width) by (nonlinear_arith)
            requires
                n == screen.width * screen.height,
        ;
        assert(screen@ =~= Seq::new(old(screen)@.len(), |i: int| color));
    }
}

/// Paints every pixel of the screen black.
pub fn clear(screen: &mut Screen)
    requires
        old(screen).wf(),
    ensures
        final(screen).wf(),
        final(screen).width == old(screen).width,
        final(screen).height == old(screen).height,
        final(screen)@ == Seq::new(old(screen)@.len(), |i: int| black()),
{
    fill(screen, Color { r: 0, g: 0, b: 0 });
}

/// The decimal digits of `n`, most significant first, as ASCII bytes.
pub open spec fn dec_spec(n: int) -> Seq<u8>
    decreases n,
{
    if n < 10 {
        seq![(48 + n) as u8]
    } else {
        dec_spec(n / 10).push((48 + n % 10) as u8)
    }
}

/// Appends the decimal digits of `n` to `out`.
pub fn push_dec(out: &mut Vec<u8>, n: u64)
    ensures
        final(out)@ == old(out)@ + dec_spec(n as int),
    decreases n,
{
    if n < 10 {
        out.push(48 + n as u8);
        proof {
            assert(out@ =~= old(out)@ + dec_spec(n as int));
        }

    } else {
        push_dec(out, n / 10);
        out.push(48 + (n % 10) as u8);
        proof {
            assert(out@ =~= old(out)@ + dec_spec(n as int));
        }
    }
}

/// Control string that makes the cursor visible again.
pub open spec fn cnorm_spec() -> Seq<u8> {
    seq![27u8, 91u8, 63u8, 50u8, 53u8, 104u8]
}

/// Control string that hides the cursor.
pub open spec fn civis_spec() -> Seq<u8> {
    seq![27u8, 91u8, 63u8, 50u8, 53u8, 108u8]
}

/// Control string that erases the whole display.
pub open spec fn ed_spec() -> Seq<u8> {
    seq![27u8, 91u8, 50u8, 74u8]
}

/// Control string that resets all attributes, then a newline.
pub open spec fn sgr0_spec() -> Seq<u8> {
    seq![27u8, 91u8, 48u8, 109u8, 10u8]
}

/// Control string that moves the cursor to 1-based row `x + 1`, column `y + 1`.
pub open spec fn cup_spec(x: int, y: int) -> Seq<u8> {
    seq![27u8, 91u8] + dec_spec(x + 1) + seq![59u8] + dec_spec(y + 1) + seq![72u8]
}

/// Control string that sets the 24-bit background color.
pub open spec fn setab_spec(c: Color) -> Seq<u8> {
    seq![27u8, 91u8, 52u8, 56u8, 59u8, 50u8, 59u8] + dec_spec(c.r as int) + seq![59u8] + dec_spec(
        c.g as int,
    ) + seq![59u8] + dec_spec(c.b as int) + seq![109u8]
}

/// Control string that sets the 24-bit foreground color.
pub open spec fn setaf_spec(c: Color) -> Seq<u8> {
    seq![27u8, 91u8, 51u8, 56u8, 59u8, 50u8, 59u8] + dec_spec(c.r as int) + seq![59u8] + dec_spec(
        c.g as int,
    ) + seq![59u8] + dec_spec(c.b as int) + seq![109u8]
}

/// Bytes that make the cursor visible.
pub fn cnorm() -> (r: Vec<u8>)
    ensures
        r@ == cnorm_spec(),
{
    let mut v: Vec<u8> = Vec::new();
    v.push(27);
    v.push(91);
    v.push(63);
    v.push(50);
    v.push(53);
    v.push(104);
    proof {
        assert(v@ =~= cnorm_spec());
    }
    v
}

/// Bytes that hide the cursor.
pub fn civis() -> (r: Vec<u8>)
    ensures
        r@ == civis_spec(),
{
    let mut v: Vec<u8> = Vec::new();
    v.push(27);
    v.push(91);
    v.push(63);
    v.push(50);
    v.push(53);
    v.push(108);
    proof {
        assert(v@ =~= civis_spec());
    }
    v
}

/// Bytes that erase the whole display.
pub fn ed() -> (r: Vec<u8>)
    ensures
        r@ == ed_spec(),
{
    let mut v: Vec<u8> = Vec::new();
    v.push(27);
    v.push(91);
    v.push(50);
    v.push(74);
    proof {
        assert(v@ =~= ed_spec());
    }
    v
}

/// Bytes that reset all attributes, then a newline.
pub fn sgr0() -> (r: Vec<u8>)
    ensures
        r@ == sgr0_spec(),
{
    let mut v: Vec<u8> = Vec::new();
    v.push(27);
    v.push(91);
    v.push(48);
    v.push(109);
    v.push(10);
    proof {
        assert(v@ =~= sgr0_spec());
    }
    v
}

/// Bytes that move the cursor to 1-based row `x + 1`, column `y + 1`.
pub fn cup(x: usize, y: usize) -> (r: Vec<u8>)
    requires
        x < usize::MAX,
        y < usize::MAX,
    ensures
        r@ == cup_spec(x as int, y as int),
{
    let mut v: Vec<u8> = Vec::new();
    v.push(27);
    v.push(91);
    push_dec(&mut v, (x + 1) as u64);
    v.push(59);
    push_dec(&mut v, (y + 1) as u64);
    v.push(72);
    proof {
        assert(v@ =~= cup_spec(x as int, y as int));
    }
    v
}

/// Bytes that set the 24-bit background color.
pub fn setab(c: Color) -> (r: Vec<u8>)
    ensures
        r@ == setab_spec(c),
{
    let mut v: Vec<u8> = Vec::new();
    v.push(27);
    v.push(91);
    v.push(52);
    v.push(56);
    v.push(59);
    v.push(50);
    v.push(59);
    push_dec(&mut v, c.r as u64);
    v.push(59);
    push_dec(&mut v, c.g as u64);
    v.push(59);
    push_dec(&mut v, c.b as u64);
    v.push(109);
    proof {
        assert(v@ =~= setab_spec(c));
    }
    v
}

/// Bytes that set the 24-bit foreground color.
pub fn setaf(c: Color) -> (r: Vec<u8>)
    ensures
        r@ == setaf_spec(c),
{
    let mut v: Vec<u8> = Vec::new();
    v.push(27);
    v.push(91);
    v.push(51);
    v.push(56);
    v.push(59);
    v.push(50);
    v.push(59);
    push_dec(&mut v, c.r as u64);
    v.push(59);
    push_dec(&mut v, c.g as u64);
    v.push(59);
    push_dec(&mut v, c.b as u64);
    v.push(109);
    proof {
        assert(v@ =~= setaf_spec(c));
    }
    v
}

/// One rendered terminal cell: the glyph to print and the colors to set
/// first. A color is emitted only when it differs from the color the
/// terminal already holds from the previous cell.
#[derive(Clone, Copy, PartialEq, Eq, Structural, Debug)]
pub struct Cell {
    /// Unicode scalar of the glyph.
    pub glyph: u32,
    /// Background: the average color of the dark pixels.
    pub bg: Color,
    /// Foreground: the average color of the light pixels.
    pub fg: Color,
    /// Whether the background color must be emitted before this cell.
    pub emit_bg: bool,
    /// Whether the foreground color must be emitted before this cell.
    pub emit_fg: bool,
}

/// The six pixels under cell `k` (row-major over cells), reading order.
pub open spec fn cell_pixels(buf: Seq<Color>, width: int, k: int) -> Seq<Color> {
    let cols = width / 2;
    let cy = k / cols;
    let cx = k % cols;
    seq![
        buf[(cy * 3) * width + cx * 2],
        buf[(cy * 3) * width + cx * 2 + 1],
        buf[(cy * 3 + 1) * width + cx * 2],
        buf[(cy * 3 + 1) * width + cx * 2 + 1],
        buf[(cy * 3 + 2) * width + cx * 2],
        buf[(cy * 3 + 2) * width + cx * 2 + 1],
    ]
}

/// Background color of cell `k`.
pub open spec fn cell_bg(buf: Seq<Color>, width: int, k: int) -> Color {
    avg_spec(darks_spec(cell_pixels(buf, width, k)))
}

/// Foreground color of cell `k`.
pub open spec fn cell_fg(buf: Seq<Color>, width: int, k: int) -> Color {
    avg_spec(lights_spec(cell_pixels(buf, width, k)))
}

/// Glyph of cell `k`.
pub open spec fn cell_glyph(buf: Seq<Color>, width: int, k: int) -> int {
    sextant_spec(block_mask_spec(cell_pixels(buf, width, k)))
}

/// The full rendering of cell `k`, emission flags included: a color is
/// emitted exactly when it differs from the previous cell's (the emitter
/// starts from a black background and a white foreground).
pub open spec fn render_cell(buf: Seq<Color>, width: int, k: int) -> Cell {
    Cell {
        glyph: cell_glyph(buf, width, k) as u32,
        bg: cell_bg(buf, width, k),
        fg: cell_fg(buf, width, k),
        emit_bg: cell_bg(buf, width, k) != (if k == 0 {
            black()
        } else {
            cell_bg(buf, width, k - 1)
        }),
        emit_fg: cell_fg(buf, width, k) != (if k == 0 {
            white()
        } else {
            cell_fg(buf, width, k - 1)
        }),
    }
}

/// Decomposing a flat index into its row and column.
pub proof fn lemma_flat_coords(width: int, y: int, x: int)
    by (nonlinear_arith)
    requires
        width > 0,
        0 <= x < width,
        0 <= y,
    ensures
        (y * width + x) / width == y,
        (y * width + x) % width == x,
{
}

impl Screen {
    /// Quantizes the whole buffer to terminal cells, row-major: one glyph
    /// with its colors per 2x3 pixel block, re-emitting a color only when
    /// it changed since the cell before.
    pub fn render(&self) -> (cells: Vec<Cell>)
        requires
            self.wf(),
        ensures
            cells@.len() == (self.width / 2) * (self.height / 3),
            forall|k: int|
                0 <= k < cells@.len() ==> cells@[k] == render_cell(
                    self@,
                    self.width as int,
                    k,
                ),
    {
        let cols = self.width / 2;
        let crows = self.height / 3;
        proof {
            assert(cols * crows <= 0x4000_0000 && crows * cols <= 0x4000_0000)
                by (nonlinear_arith)
                requires
                    0 <= cols <= 16384,
                    0 <= crows <= 10923,
            ;
        }
        let mut cells: Vec<Cell> = Vec::new();
        let mut prev_bg = Color { r: 0, g: 0, b: 0 };
        let mut prev_fg = Color { r: 255, g: 255, b: 255 };
        let mut cy: usize = 0;
        while cy < crows
            invariant
                self.wf(),
                cols == self.width / 2,
                crows == self.height / 3,
                cy <= crows,
                crows * cols <= 0x4000_0000,
                cells@.len() == cy * cols,
                cells@.len() <= 0x4000_0000,
                forall|k: int|
                    0 <= k < cells@.len() ==> cells@[k] == render_cell(
                        self@,
                        self.width as int,
                        k,
                    ),
                prev_bg == (if cells@.len() == 0 {
                    black()
                } else {
                    cell_bg(self@, self.width as int, cells@.len() - 1)
                }),
                prev_fg == (if cells@.len() == 0 {
                    white()
                } else {
                    cell_fg(self@, self.width as int, cells@.len() - 1)
                }),
            decreases crows - cy,
        {
            let mut cx: usize = 0;
            proof {
                assert(cy * cols + cols <= crows * cols) by (nonlinear_arith)
                    requires
                        cy < crows,
                        cols >= 0,
                ;
            }
            while cx < cols
                invariant
                    self.wf(),
                    cols == self.width / 2,
                    crows == self.height / 3,
                    cy < crows,
                    cx <= cols,
                    cy * cols + cols <= crows * cols,
                    crows * cols <= 0x4000_0000,
                    cells@.len() == cy * cols + cx,
                    forall|k: int|
                        0 <= k < cells@.len() ==> cells@[k] == render_cell(
                            self@,
                            self.width as int,
                            k,
                        ),
                    prev_bg == (if cells@.len() == 0 {
                        black()
                    } else {
                        cell_bg(self@, self.width as int, cells@.len() - 1)
                    }),
                    prev_fg == (if cells@.len() == 0 {
                        white()
                    } else {
                        cell_fg(self@, self.width as int, cells@.len() - 1)
                    }),
                decreases cols - cx,
            {
                let ghost k = cells@.len() as int;
                proof {
                    assert(3 * crows == self.height && 2 * cols == self.width);
                    assert(cy * 3 + 2 < self.height) by (nonlinear_arith)
                        requires
                            cy < crows,
                            3 * crows == self.height,
                    ;
                    assert(cx * 2 + 1 < self.width) by (nonlinear_arith)
                        requires
                            cx < cols,
                            2 * cols == self.width,
                    ;
                    lemma_pixel_index(
                        self.width as int,
                        self.height as int,
                        cx as int * 2,
                        cy as int * 3,
                    );
                    lemma_pixel_index(
                        self.width as int,
                        self.height as int,
                        cx as int * 2 + 1,
                        cy as int * 3,
                    );
                    lemma_pixel_index(
                        self.width as int,
                        self.height as int,
                        cx as int * 2,
                        cy as int * 3 + 1,
                    );
                    lemma_pixel_index(
                        self.width as int,
                        self.height as int,
                        cx as int * 2 + 1,
                        cy as int * 3 + 1,
                    );
                    lemma_pixel_index(
                        self.width as int,
                        self.height as int,
                        cx as int * 2,
                        cy as int * 3 + 2,
                    );
                    lemma_pixel_index(
                        self.width as int,
                        self.height as int,
                        cx as int * 2 + 1,
                        cy as int * 3 + 2,
                    );
                    lemma_flat_coords(cols as int, cy as int, cx as int);
                }
                let mut six: Vec<Color> = Vec::new();
                let base0 = (cy * 3) * self.width + cx * 2;
                let base1 = (cy * 3 + 1) * self.width + cx * 2;
                let base2 = (cy * 3 + 2) * self.width + cx * 2;
                six.push(self.pixels[base0]);
                six.push(self.pixels[base0 + 1]);
                six.push(self.pixels[base1]);
                six.push(self.pixels[base1 + 1]);
                six.push(self.pixels[base2]);
                six.push(self.pixels[base2 + 1]);
                proof {
                    assert(six@ =~= cell_pixels(self@, self.width as int, k));
                }
                let (block, bg, fg) = get_block(&six);
                let glyph = sextant(block);
                let cell = Cell {
                    glyph,
                    bg,
                    fg,
                    emit_bg: !(bg == prev_bg),
                    emit_fg: !(fg == prev_fg),
                };
                cells.push(cell);
                prev_bg = bg;
                prev_fg = fg;
                cx = cx + 1;
            }
            proof {
                assert((cy + 1) * cols == cy * cols + cols) by (nonlinear_arith);
            }
            cy = cy + 1;
        }
        proof {
            assert(crows * cols == cols * crows) by (nonlinear_arith);
        }
        cells
    }
}

/// The buffer after painting a horizontal bar: three pixel rows starting
/// at `y0`, filled with `color` up to column `x0` and black beyond it.
pub open spec fn bar_spec(buf: Seq<Color>, width: int, y0: int, x0: int, color: Color) -> Seq<
    Color,
> {
    Seq::new(
        buf.len(),
        |i: int|
            if y0 <= i / width < y0 + 3 {
                if i % width <= x0 {
                    color
                } else {
                    black()
                }
            } else {
                buf[i]
            },
    )
}

/// Paints a gauge: three pixel rows from `y0`, colored for the filled
/// fraction `num / den` of the width and black for the rest.
pub fn render_bar(screen: &mut Screen, num: i64, den: i64, y0: usize, color: Color)
    requires
        old(screen).wf(),
        old(screen).width >= 1,
        0 <= num <= den,
        0 < den <= 4_000_000_000_000,
        y0 + 3 <= old(screen).height,
    ensures
        final(screen).wf(),
        final(screen).width == old(screen).width,
        final(screen).height == old(screen).height,
        final(screen)@ == bar_spec(
            old(screen)@,
            old(screen).width as int,
            y0 as int,
            old(screen).width as int * num / den as int,
            color,
        ),
{
    let w = screen.width as i64;
    proof {
        assert(w * num <= w * den && 0 <= w * num) by (nonlinear_arith)
            requires
                0 <= num <= den,
                0 < w,
        ;
        assert(w * den <= 32768 * 4_000_000_000_000) by (nonlinear_arith)
            requires
                0 < w <= 32768,
                0 < den <= 4_000_000_000_000,
        ;
        assert((w * num) as int / den as int <= w) by (nonlinear_arith)
            requires
                0 <= num <= den,
                0 < den,
                0 < w,
        ;
    }
    let x0 = (w * num / den) as usize;
    let ghost x0s = old(screen).width as int * num / den as int;
    let ghost w0 = screen.width as int;
    let ghost target = bar_spec(old(screen)@, w0, y0 as int, x0s, color);
    let mut px: Vec<Color> = Vec::new();
    let mut y: usize = 0;
    while y < screen.height
        invariant
            screen == old(screen),
            screen.wf(),
            screen.width >= 1,
            w0 == screen.width as int,
            x0 == x0s,
            y0 + 3 <= screen.height,
            y <= screen.height,
            target == bar_spec(old(screen)@, w0, y0 as int, x0s, color),
            px@.len() == y * w0,
            forall|k: int| 0 <= k < px@.len() ==> px@[k] == target[k],
        decreases screen.height - y,
    {
        let mut x: usize = 0;
        while x < screen.width
            invariant
                screen == old(screen),
                screen.wf(),
                screen.width >= 1,
                w0 == screen.width as int,
                x0 == x0s,
                y0 + 3 <= screen.height,
                y < screen.height,
                x <= screen.width,
                target == bar_spec(old(screen)@, w0, y0 as int, x0s, color),
                px@.len() == y * w0 + x,
                forall|k: int| 0 <= k < px@.len() ==> px@[k] == target[k],
            decreases screen.width - x,
        {
            proof {
                lemma_pixel_index(w0, screen.height as int, x as int, y as int);
                lemma_flat_coords(w0, y as int, x as int);
            }
            let c = if y0 <= y && y < y0 + 3 {
                if x <= x0 {
                    color
                } else {
                    Color { r: 0, g: 0, b: 0 }
                }
            } else {
                let idx = y * screen.width + x;
                screen.pixels[idx]
            };
            px.push(c);
            x = x + 1;
        }
        proof {
            assert((y + 1) * w0 == y * w0 + w0) by (nonlinear_arith);
        }
        y = y + 1;
    }
    proof {
        assert(px@.len() == screen.height * w0);
        assert(screen.height * w0 == screen@.len()) by (nonlinear_arith)
            requires
                screen@.len() == w0 * screen.height,
        ;
    }
    screen.pixels = px;
    proof {
        assert(screen@ =~= target);
    }
}

/// Over a uniform buffer, every cell reads the same six pixels.
proof fn lemma_cell_pixels_uniform(buf: Seq<Color>, width: int, height: int, c: Color, k: int)
    requires
        buf.len() == width * height,
        width % 2 == 0,
        height % 3 == 0,
        2 <= width <= 32768,
        3 <= height <= 32768,
        0 <= k < (width / 2) * (height / 3),
        forall|i: int| 0 <= i < buf.len() ==> buf[i] == c,
    ensures
        cell_pixels(buf, width, k) =~= Seq::new(6, |i: int| c),
{
    let cols = width / 2;
    let crows = height / 3;
    let cy = k / cols;
    let cx = k % cols;
    assert(0 <= cx < cols);
    assert(0 <= cy < crows) by (nonlinear_arith)
        requires
            0 <= k < crows * cols,
            cols > 0,
            cy == k / cols,
    ;
    assert(cy * 3 + 2 < height) by (nonlinear_arith)
        requires
            cy < crows,
            crows == height / 3,
            height % 3 == 0,
    ;
    assert(cx * 2 + 1 < width) by (nonlinear_arith)
        requires
            cx < cols,
            cols == width / 2,
            width % 2 == 0,
    ;
    lemma_pixel_index(width, height, cx * 2, cy * 3);
    lemma_pixel_index(width, height, cx * 2 + 1, cy * 3);
    lemma_pixel_index(width, height, cx * 2, cy * 3 + 1);
    lemma_pixel_index(width, height, cx * 2 + 1, cy * 3 + 1);
    lemma_pixel_index(width, height, cx * 2, cy * 3 + 2);
    lemma_pixel_index(width, height, cx * 2 + 1, cy * 3 + 2);
}

/// Rendering a buffer that is uniformly one color yields one and the same
/// cell everywhere, and after the first cell no color is ever re-emitted.
pub proof fn lemma_render_uniform(buf: Seq<Color>, width: int, height: int, c: Color, k: int)
    requires
        buf.len() == width * height,
        width % 2 == 0,
        height % 3 == 0,
        2 <= width <= 32768,
        3 <= height <= 32768,
        0 <= k < (width / 2) * (height / 3),
        forall|i: int| 0 <= i < buf.len() ==> buf[i] == c,
    ensures
        render_cell(buf, width, k).glyph == render_cell(buf, width, 0).glyph,
        render_cell(buf, width, k).bg == render_cell(buf, width, 0).bg,
        render_cell(buf, width, k).fg == render_cell(buf, width, 0).fg,
        k > 0 ==> !render_cell(buf, width, k).emit_bg,
        k > 0 ==> !render_cell(buf, width, k).emit_fg,
{
    lemma_cell_pixels_uniform(buf, width, height, c, 0);
    lemma_cell_pixels_uniform(buf, width, height, c, k);
    if k > 0 {
        lemma_cell_pixels_uniform(buf, width, height, c, k - 1);
    }
}

} // verus!
