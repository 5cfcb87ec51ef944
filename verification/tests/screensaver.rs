use sd_rust::config::KEY_COUNT;
use sd_rust::render::Rgb;
use sd_rust::screensaver::{cell_color, Matrix, COLS, DEFAULT_SEED, ROWS};

fn xorshift(rng: &mut u64) -> u64 {
    *rng ^= *rng << 13;
    *rng ^= *rng >> 7;
    *rng ^= *rng << 17;
    *rng
}

/// Stepping and rendering many frames never panics (glyphs stay in bounds),
/// always yields the 15 correctly-sized tiles, and actually paints green rain
/// (a green channel with black R/B, never stray colours).
#[test]
fn steps_and_renders_in_bounds() {
    let mut m = Matrix::new(Some(1_700_000_000_123_456_789));
    let mut saw_green = false;
    for _ in 0..1000 {
        m.step();
        let tiles = m.render();
        assert_eq!(tiles.len(), KEY_COUNT);
        for t in &tiles {
            assert!(t.pixels.len() == 72 * 72);
            for p in &t.pixels {
                // Rain is green: red only appears in the near-white head.
                assert!(p.g >= p.r && p.g >= p.b, "non-green pixel {p:?}");
                saw_green |= p.g > 0;
            }
        }
    }
    assert!(saw_green, "1000 frames produced no rain");
}

#[test]
fn seeds_are_odd() {
    assert_eq!(Matrix::new(Some(0)).rng, 1);
    assert_eq!(Matrix::new(Some(7)).rng, 7);
    assert_eq!(Matrix::new(None).rng, DEFAULT_SEED | 1);
}

#[test]
fn chance_takes_its_course() {
    // The first draw from 1 is a multiple of three, so a stream is spawned.
    let mut rng = 1;
    assert_eq!(xorshift(&mut rng), 1_082_269_761);
    assert_eq!(rng % 3, 0);
    let column = xorshift(&mut rng) as usize % COLS;
    let len = 4 + (xorshift(&mut rng) % 14) as i32;
    let period = 1 + (xorshift(&mut rng) % 3) as u8;
    let glyphs: Vec<u8> = (0..ROWS).map(|_| (xorshift(&mut rng) % 16) as u8).collect();
    let mut m = Matrix::new(Some(1));
    m.step();
    let c = &m.columns[column];
    assert!(c.active);
    assert_eq!((c.head, c.len, c.period, c.phase), (0, len, period, 0));
    assert_eq!(c.glyphs, glyphs);
}

#[test]
fn streams_fall_and_retire() {
    let mut m = Matrix::new(Some(1));
    m.columns[5].active = true;
    m.columns[5].len = 4;
    m.columns[5].period = 2;
    m.columns[5].head = 17;
    m.step();
    assert_eq!((m.columns[5].head, m.columns[5].phase), (17, 1));
    m.step();
    assert_eq!((m.columns[5].head, m.columns[5].phase), (18, 0));
    assert!(m.columns[5].active);
    m.step();
    m.step();
    assert_eq!(m.columns[5].head, 19);
    assert!(!m.columns[5].active);
}

#[test]
fn glyphs_are_drawn_in_their_cells() {
    let mut m = Matrix::new(Some(1));
    // The box glyph, with one more glyph behind it.
    m.columns[0].active = true;
    m.columns[0].len = 4;
    m.columns[0].period = 1;
    m.columns[0].head = 1;
    m.columns[0].glyphs[1] = 12;
    m.columns[0].glyphs[0] = 10;
    let tiles = m.render();
    let t = &tiles[0];
    let head = Rgb { r: 180, g: 255, b: 180 };
    let black = Rgb { r: 0, g: 0, b: 0 };
    let trail = Rgb { r: 0, g: (60.0f32 + 195.0 * 0.75) as u8, b: (30.0f32 * 0.75) as u8 };
    // The box: its border is lit, its inside is not.
    assert_eq!(t.pixel(2, 15), head);
    assert_eq!(t.pixel(11, 28), head);
    assert_eq!(t.pixel(4, 17), black);
    assert_eq!(t.pixel(1, 15), black);
    assert_eq!(t.pixel(12, 15), black);
    assert_eq!(t.pixel(2, 29), black);
    // The equals sign above it, one behind the head.
    assert_eq!(t.pixel(2, 4), trail);
    assert_eq!(t.pixel(2, 6), black);
    assert_eq!(t.pixel(11, 9), trail);
    // A column of another key.
    m.columns[23].active = true;
    m.columns[23].len = 4;
    m.columns[23].period = 1;
    m.columns[23].head = 13;
    m.columns[23].glyphs[13] = 12;
    let tiles = m.render();
    // Its cell begins at 345, 195 of the deck, which is 57, 51 of the last key.
    assert_eq!(tiles[14].pixel(59, 51), head);
    assert_eq!(tiles[14].pixel(58, 51), black);
    assert_eq!(tiles[14].pixel(59, 64), head);
    assert_eq!(tiles[14].pixel(59, 65), black);
}

#[test]
fn trails_fade_linearly() {
    for len in 4..18 {
        assert_eq!(cell_color(0, len), Rgb { r: 180, g: 255, b: 180 });
        for d in 1..len {
            // 1 just behind the head, 0 at the tail
            let t = 1.0 - d as f32 / len as f32;
            let want = Rgb { r: 0, g: (60.0 + 195.0 * t) as u8, b: (30.0 * t) as u8 };
            assert_eq!(cell_color(d, len), want);
        }
    }
}

#[test]
fn a_frame_is_the_same_twice_and_black_without_streams() {
    let mut m = Matrix::new(Some(1));
    assert!(m.render().iter().all(|t| t.pixels.iter().all(|p| *p == Rgb { r: 0, g: 0, b: 0 })));
    for _ in 0..40 {
        m.step();
    }
    let (once, twice) = (m.render(), m.render());
    assert!(once.iter().zip(&twice).all(|(a, b)| a.pixels == b.pixels));
}
