//! Tests of the sprite image parser, the random generator, the wave
//! table, the projectile motion laws and the key handling.

use survivors::enemies::{enemy_type, get_wave, EnemyTypeId, SpriteId};
use survivors::game::{Dir, Pos};
use survivors::input::{apply_key, decode_escape, key_action, Input, KeyAction};
use survivors::ppm::{parse_ppm, parse_sample};
use survivors::rng::Rng;
use survivors::weapons::{create_weapons, move_diagonal, move_straight, MotionLaw, Projectile};

fn ppm_lines(sample: &str) -> Vec<Vec<u8>> {
    let mut lines: Vec<Vec<u8>> = Vec::new();
    lines.push(b"P3".to_vec());
    lines.push(b"# test image".to_vec());
    lines.push(b"18 24".to_vec());
    lines.push(b"255".to_vec());
    for _ in 0..(18 * 24 * 3) {
        lines.push(sample.as_bytes().to_vec());
    }
    lines
}

#[test]
fn ppm_valid_image_parses() {
    let lines = ppm_lines("7");
    let sp = parse_ppm(&lines).expect("a valid image parses");
    assert_eq!(sp.rows.len(), 24);
    for row in sp.rows.iter() {
        assert_eq!(row.len(), 18);
        for t in row.iter() {
            assert_eq!((t.r, t.g, t.b), (7, 7, 7));
        }
    }
}

#[test]
fn ppm_rejects_bad_magic() {
    let mut lines = ppm_lines("7");
    lines[0] = b"P6".to_vec();
    assert!(parse_ppm(&lines).is_none());
}

#[test]
fn ppm_rejects_bad_dimensions() {
    let mut lines = ppm_lines("7");
    lines[2] = b"18 25".to_vec();
    assert!(parse_ppm(&lines).is_none());
}

#[test]
fn ppm_rejects_oversized_sample() {
    let mut lines = ppm_lines("7");
    lines[10] = b"256".to_vec();
    assert!(parse_ppm(&lines).is_none());
}

#[test]
fn ppm_rejects_short_input() {
    let mut lines = ppm_lines("7");
    lines.pop();
    assert!(parse_ppm(&lines).is_none());
}

#[test]
fn sample_parsing_is_exact() {
    assert_eq!(parse_sample(&b"0".to_vec()), Some(0));
    assert_eq!(parse_sample(&b"255".to_vec()), Some(255));
    assert_eq!(parse_sample(&b"007".to_vec()), Some(7));
    assert_eq!(parse_sample(&b"256".to_vec()), None);
    assert_eq!(parse_sample(&b"".to_vec()), None);
    assert_eq!(parse_sample(&b"1a".to_vec()), None);
}

#[test]
fn rng_is_deterministic_and_in_range() {
    let mut a = Rng::new(7);
    let mut b = Rng::new(7);
    for _ in 0..100 {
        assert_eq!(a.generate(), b.generate());
    }
    let mut c = Rng::new(8);
    let mut distinct = false;
    let mut d = Rng::new(7);
    for _ in 0..10 {
        if c.generate() != d.generate() {
            distinct = true;
        }
    }
    assert!(distinct);
    let mut r = Rng::new(99);
    for _ in 0..100 {
        let v = r.gen_range(10, 14);
        assert!((10..14).contains(&v));
        let u = r.gen_unit();
        assert!((0..1000).contains(&u));
    }
}

#[test]
fn wave_table_cycles_in_buckets() {
    let w0 = get_wave(0);
    assert_eq!(w0.len(), 1);
    assert_eq!(w0[0], (EnemyTypeId::Snake, 2000));
    let w1 = get_wave(150);
    assert_eq!(w1.len(), 2);
    assert_eq!(w1[0], (EnemyTypeId::Snake, 2000));
    assert_eq!(w1[1], (EnemyTypeId::Skeleton, 2000));
    let w17 = get_wave(1_750);
    assert_eq!(w17, vec![(EnemyTypeId::Bat, 10_000)]);
    // The table wraps after thirty-two buckets.
    assert_eq!(get_wave(3_200), get_wave(0));
}

#[test]
fn enemy_stats_are_the_table() {
    let snake = enemy_type(EnemyTypeId::Snake);
    assert_eq!(snake.speed, 15_000);
    assert_eq!(snake.size, 8_000);
    assert_eq!(snake.health, 5_000);
    assert_eq!(snake.power, 5_000);
    assert_eq!(snake.sprite, SpriteId::Snake);
    let shadow = enemy_type(EnemyTypeId::Shadow);
    assert_eq!(shadow.power, 75_000);
}

#[test]
fn straight_projectile_marches() {
    let mut pr = Projectile { p: Pos { x: 0, y: 0 }, dir: Dir::Right, sprite: SpriteId::Knife };
    move_straight(&mut pr, &Pos { x: 0, y: 0 }, 200_000, 1_000);
    assert_eq!((pr.p.x, pr.p.y), (200_000, 0));
    pr.dir = Dir::Up;
    move_straight(&mut pr, &Pos { x: 0, y: 0 }, 200_000, 500);
    assert_eq!((pr.p.x, pr.p.y), (200_000, -100_000));
}

#[test]
fn diagonal_projectile_drifts_outward() {
    let mut pr = Projectile {
        p: Pos { x: 10_000, y: 0 },
        dir: Dir::Up,
        sprite: SpriteId::Star,
    };
    move_diagonal(&mut pr, &Pos { x: 0, y: 0 }, 100_000, 1_000);
    assert_eq!((pr.p.x, pr.p.y), (110_000, 0));
    assert_eq!(pr.dir, Dir::Right);
    // Spawned exactly on the player, it leaves to the right.
    let mut on = Projectile { p: Pos { x: 0, y: 0 }, dir: Dir::Up, sprite: SpriteId::Star };
    move_diagonal(&mut on, &Pos { x: 0, y: 0 }, 100_000, 1_000);
    assert!(on.p.x > 0);
}

#[test]
fn weapon_table_stats() {
    let ws = create_weapons();
    assert_eq!(ws.len(), 4);
    assert_eq!(ws[0].sprite, SpriteId::Axe);
    assert_eq!(ws[0].law, MotionLaw::Parabola);
    assert_eq!(ws[0].damage, 50_000);
    assert_eq!(ws[1].law, MotionLaw::Straight);
    assert_eq!(ws[1].speed, 200_000);
    assert_eq!(ws[2].law, MotionLaw::Diagonal);
    assert_eq!(ws[2].cooldown, 3_000);
    assert_eq!(ws[3].law, MotionLaw::Spiral);
    assert_eq!(ws[3].size, 8_000);
    for w in ws.iter() {
        assert_eq!(w.amount, 0);
        assert_eq!(w.last, 0);
        assert!(w.projectiles.is_empty());
    }
}

#[test]
fn keys_map_to_intents() {
    assert_eq!(key_action(b'w'), KeyAction::Move(Dir::Up));
    assert_eq!(key_action(b'a'), KeyAction::Move(Dir::Left));
    assert_eq!(key_action(b's'), KeyAction::Move(Dir::Down));
    assert_eq!(key_action(b'd'), KeyAction::Move(Dir::Right));
    assert_eq!(key_action(b'A'), KeyAction::Move(Dir::Up));
    assert_eq!(key_action(b'D'), KeyAction::Move(Dir::Left));
    assert_eq!(key_action(b'B'), KeyAction::Move(Dir::Down));
    assert_eq!(key_action(b'C'), KeyAction::Move(Dir::Right));
    assert_eq!(key_action(b' '), KeyAction::Halt);
    assert_eq!(key_action(b'q'), KeyAction::Quit);
    assert_eq!(key_action(b'x'), KeyAction::Ignore);
}

#[test]
fn escape_sequences_decode_to_final_byte() {
    assert_eq!(decode_escape(b'w', None, None), Some(b'w'));
    assert_eq!(decode_escape(27, Some(91), Some(b'A')), Some(b'A'));
    assert_eq!(decode_escape(27, None, None), None);
    assert_eq!(decode_escape(27, Some(91), None), None);
}

#[test]
fn apply_key_sets_intent_and_facing() {
    let mut p = survivors::game::Player::new();
    apply_key(&mut p, b'a');
    assert_eq!(p.dir, Some(Dir::Left));
    assert_eq!(p.face, Dir::Left);
    apply_key(&mut p, b'w');
    assert_eq!(p.dir, Some(Dir::Up));
    assert_eq!(p.face, Dir::Left); // facing only changes left or right
    apply_key(&mut p, b' ');
    assert_eq!(p.dir, None);
}

#[test]
fn cbreak_clears_canonical_and_echo() {
    let input = Input {
        termios: survivors::input::termios {
            c_iflag: 1,
            c_oflag: 2,
            c_cflag: 3,
            c_lflag: 0xffff_ffff,
            c_line: 4,
            c_cc: vec![9; 32],
        },
    };
    let t = input.cbreak();
    assert_eq!(t.c_lflag & survivors::input::ICANON, 0);
    assert_eq!(t.c_lflag & survivors::input::ECHO, 0);
    assert_eq!(t.c_lflag | survivors::input::ICANON | survivors::input::ECHO, 0xffff_ffff);
    assert_eq!(t.c_cc[survivors::input::VMIN], 0);
    assert_eq!(t.c_cc[survivors::input::VTIME], 0);
    assert_eq!(t.c_cc[0], 9);
    assert_eq!(t.c_iflag, 1);
}
