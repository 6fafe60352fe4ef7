//! Tests of the rasterizer: glyph selection, color averaging, cell
//! quantization, the escape-byte builders, the gauges and the window
//! drawing primitives.

use survivors::game::{render_health_bar, render_xp_bar, Player};
use survivors::screen::{
    civis, clear, cnorm, color_avg, cup, ed, fill, get_block, push_dec, setab, setaf, sextant,
    sgr0, Color, Screen,
};
use survivors::sprites::uniform_sprite;
use survivors::window::{convert_x, convert_y, iconvert_x, iconvert_y, Window};

fn rgb(r: u8, g: u8, b: u8) -> Color {
    Color { r, g, b }
}

#[test]
fn sextant_glyph_selection() {
    assert_eq!(sextant(0), 0x20); // all dark: a space
    assert_eq!(sextant(63), 0x2588); // all light: the full block
    assert_eq!(sextant(0b010101), 0x258C); // left column: legacy half block
    assert_eq!(sextant(0b101010), 0x2590); // right column: legacy half block
    assert_eq!(sextant(1), 0x1FB00); // the first sextant glyph
    assert_eq!(sextant(2), 0x1FB01);
    assert_eq!(sextant(0b010110), 0x1FB00 + 0b010110 - 2); // past the left-half gap
    assert_eq!(sextant(0b111110), 0x1FB3B); // the last sextant glyph
}

#[test]
fn color_avg_is_channelwise() {
    let cs = vec![rgb(255, 0, 0), rgb(0, 0, 255)];
    assert_eq!(color_avg(&cs), rgb(127, 0, 127));
    let empty: Vec<Color> = vec![];
    assert_eq!(color_avg(&empty), rgb(0, 0, 0));
}

#[test]
fn get_block_classifies_around_mean() {
    // Three white pixels (bits 0..2) over three black ones.
    let cs = vec![
        rgb(255, 255, 255),
        rgb(255, 255, 255),
        rgb(255, 255, 255),
        rgb(0, 0, 0),
        rgb(0, 0, 0),
        rgb(0, 0, 0),
    ];
    let (block, bg, fg) = get_block(&cs);
    assert_eq!(block, 0b000111);
    assert_eq!(bg, rgb(0, 0, 0));
    assert_eq!(fg, rgb(255, 255, 255));
}

#[test]
fn uniform_black_renders_spaces_with_one_emission() {
    let mut s = Screen::new();
    s.init(4, 3);
    assert_eq!(s.width, 8);
    assert_eq!(s.height, 6);
    let cells = s.render();
    assert_eq!(cells.len(), 4 * 2);
    for c in cells.iter() {
        assert_eq!(c.glyph, 0x20);
        assert_eq!(c.bg, rgb(0, 0, 0));
    }
    // Only the very first cell may emit colors (the foreground starts
    // assumed white); nothing is ever re-emitted after it.
    assert!(cells[0].emit_fg);
    assert!(!cells[0].emit_bg);
    for c in cells.iter().skip(1) {
        assert!(!c.emit_fg && !c.emit_bg);
    }
}

#[test]
fn uniform_bright_renders_full_blocks_with_one_emission() {
    let mut s = Screen::new();
    s.init(4, 3);
    fill(&mut s, rgb(255, 255, 255));
    let cells = s.render();
    for c in cells.iter() {
        assert_eq!(c.glyph, 0x2588);
        assert_eq!(c.fg, rgb(255, 255, 255));
    }
    // White on the assumed white foreground over an empty dark set that
    // averages to the assumed black background: nothing to emit at all.
    for c in cells.iter() {
        assert!(!c.emit_fg && !c.emit_bg);
    }
}

#[test]
fn set_and_clear_pixels() {
    let mut s = Screen::new();
    s.resize(2, 2);
    s.set(1, 1, rgb(9, 8, 7));
    assert_eq!(s.pixels[1 * 4 + 1], rgb(9, 8, 7));
    clear(&mut s);
    assert_eq!(s.pixels[1 * 4 + 1], rgb(0, 0, 0));
}

#[test]
fn escape_builders_emit_exact_bytes() {
    assert_eq!(cnorm(), b"\x1b[?25h".to_vec());
    assert_eq!(civis(), b"\x1b[?25l".to_vec());
    assert_eq!(ed(), b"\x1b[2J".to_vec());
    assert_eq!(sgr0(), b"\x1b[0m\n".to_vec());
    assert_eq!(cup(0, 0), b"\x1b[1;1H".to_vec());
    assert_eq!(cup(12, 4), b"\x1b[13;5H".to_vec());
    assert_eq!(setaf(rgb(255, 0, 16)), b"\x1b[38;2;255;0;16m".to_vec());
    assert_eq!(setab(rgb(0, 128, 2)), b"\x1b[48;2;0;128;2m".to_vec());
    let mut v: Vec<u8> = Vec::new();
    push_dec(&mut v, 907);
    assert_eq!(v, b"907".to_vec());
}

#[test]
fn init_and_restore_hand_back_control_bytes() {
    let mut s = Screen::new();
    let ops = s.init(2, 2);
    assert_eq!(ops, b"\x1b[?25l\x1b[2J".to_vec());
    assert_eq!(s.restore(), b"\x1b[?25h\x1b[0m\n".to_vec());
}

#[test]
fn bars_fill_their_fraction() {
    let mut s = Screen::new();
    s.resize(2, 3); // 4 x 6 pixels
    let mut p = Player::new();
    p.health = 25_000;
    p.health_max = 50_000;
    render_health_bar(&p, &mut s);
    // Bottom three rows: x <= 4 * 25 / 50 = 2 colored red, the rest black.
    let w = s.width;
    for y in 3..6 {
        for x in 0..w {
            let expected = if x <= 2 { rgb(255, 0, 0) } else { rgb(0, 0, 0) };
            assert_eq!(s.pixels[y * w + x], expected);
        }
    }
    p.xp = 5_000; // halfway from threshold 0 to 10
    render_xp_bar(&p, &mut s);
    for x in 0..w {
        let expected = if x <= 2 { rgb(0, 0, 255) } else { rgb(0, 0, 0) };
        assert_eq!(s.pixels[x], expected);
    }
}

#[test]
fn world_projection_round_trip() {
    assert_eq!(convert_x(5_500), 5);
    assert_eq!(convert_x(-5_500), -5);
    assert_eq!(convert_y(14_000), 10);
    assert_eq!(convert_y(-14_000), -10);
    assert_eq!(iconvert_x(7), 7_000);
    assert_eq!(iconvert_y(10), 14_000);
}

#[test]
fn window_set_translates_and_fill_stays_inside() {
    let mut s = Screen::new();
    s.resize(4, 3); // 8 x 6
    let w = Window { width: 4, height: 2, dx: 2, dy: 1 };
    w.set(&mut s, 0, 0, rgb(1, 2, 3));
    assert_eq!(s.pixels[1 * 8 + 2], rgb(1, 2, 3));
    w.fill(&mut s, rgb(7, 7, 7));
    // Inside the window.
    assert_eq!(s.pixels[1 * 8 + 2], rgb(7, 7, 7));
    assert_eq!(s.pixels[2 * 8 + 5], rgb(7, 7, 7));
    // Outside it.
    assert_eq!(s.pixels[0], rgb(0, 0, 0));
    assert_eq!(s.pixels[3 * 8 + 2], rgb(0, 0, 0));
}

#[test]
fn sprite_blit_honors_transparency_and_anchor() {
    let mut s = Screen::new();
    s.resize(10, 11); // 20 x 30 pixels
    let w = Window { width: 20, height: 30, dx: 0, dy: 0 };
    w.fill(&mut s, rgb(0, 50, 0));
    let mut sp = uniform_sprite(rgb(0, 0, 0)); // all transparent
    sp.rows[5][3] = rgb(200, 10, 10);
    // Anchor so the sprite's box starts at pixel (0, 0).
    w.sprite(&mut s, 9_000, 21_000, &sp, survivors::game::Dir::Right);
    assert_eq!(s.pixels[5 * 20 + 3], rgb(200, 10, 10));
    // A transparent texel left the background alone.
    assert_eq!(s.pixels[0], rgb(0, 50, 0));
    // Mirrored: the texel lands on the flipped column, 18 - 1 - 3.
    w.fill(&mut s, rgb(0, 50, 0));
    w.sprite(&mut s, 9_000, 21_000, &sp, survivors::game::Dir::Left);
    assert_eq!(s.pixels[5 * 20 + 14], rgb(200, 10, 10));
    assert_eq!(s.pixels[5 * 20 + 3], rgb(0, 50, 0));
}

#[test]
fn circle_uses_compressed_world_metric() {
    let mut s = Screen::new();
    s.resize(10, 11);
    let w = Window { width: 20, height: 30, dx: 0, dy: 0 };
    w.circle(&mut s, 10_000, 14_000, 1_000, rgb(5, 5, 5));
    // The center pixel (10, 10) and its horizontal neighbor at exactly
    // one unit are painted; the vertical neighbor is 1.4 units away.
    assert_eq!(s.pixels[10 * 20 + 10], rgb(5, 5, 5));
    assert_eq!(s.pixels[10 * 20 + 11], rgb(5, 5, 5));
    assert_eq!(s.pixels[11 * 20 + 10], rgb(0, 0, 0));
}
