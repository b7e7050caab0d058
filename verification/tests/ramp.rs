use ascplayer::ramp::{quantize, GlyphRamp};
use ascplayer::CHARS;

fn ramp_of(len: usize) -> GlyphRamp {
    let mut chars = String::new();
    for i in 0..len {
        chars.push(char::from_u32(0x100 + i as u32).unwrap());
    }
    GlyphRamp::new(&chars).unwrap()
}

#[test]
fn empty_ramp_is_rejected() {
    assert!(GlyphRamp::new("").is_none());
    assert!(GlyphRamp::new(" ").is_some());
}

#[test]
fn ramp_keeps_its_glyphs_in_order() {
    let ramp = GlyphRamp::new(CHARS).unwrap();
    assert_eq!(ramp.len(), 5);
    assert_eq!(ramp.glyph(0), ' ');
    assert_eq!(ramp.glyph(60), '\u{2591}');
    assert_eq!(ramp.glyph(128), '\u{2592}');
    assert_eq!(ramp.glyph(204), '\u{2593}');
    assert_eq!(ramp.glyph(255), '\u{2588}');
}

#[test]
fn ramp_counts_characters_not_bytes() {
    let ramp = GlyphRamp::new("\u{2591}\u{2588}").unwrap();
    assert_eq!(ramp.len(), 2);
    assert_eq!(ramp.glyph(127), '\u{2591}');
    assert_eq!(ramp.glyph(128), '\u{2588}');
}

#[test]
fn quantize_uses_linear_buckets() {
    let ramp = GlyphRamp::new(CHARS).unwrap();
    assert_eq!(quantize(0, &ramp), 0);
    assert_eq!(quantize(51, &ramp), 0);
    assert_eq!(quantize(52, &ramp), 1);
    assert_eq!(quantize(128, &ramp), 2);
    assert_eq!(quantize(204, &ramp), 3);
    assert_eq!(quantize(205, &ramp), 4);
    assert_eq!(quantize(255, &ramp), 4);
}

#[test]
fn quantize_matches_the_formula_everywhere() {
    for len in [1usize, 2, 3, 5, 10, 70, 255, 256, 257, 1000] {
        let ramp = ramp_of(len);
        for luminance in 0..=255u8 {
            assert_eq!(quantize(luminance, &ramp), len * luminance as usize / 256);
        }
    }
}

#[test]
fn quantize_is_monotonic() {
    for len in [1usize, 2, 5, 16, 70, 256, 300] {
        let ramp = ramp_of(len);
        let mut last = 0;
        for luminance in 0..=255u8 {
            let index = quantize(luminance, &ramp);
            assert!(index >= last);
            assert!(index < len);
            last = index;
        }
    }
}

#[test]
fn quantize_endpoints() {
    for len in 1..=256usize {
        let ramp = ramp_of(len);
        assert_eq!(quantize(0, &ramp), 0);
        assert_eq!(quantize(255, &ramp), len - 1);
    }
}

#[test]
fn quantize_on_a_ramp_longer_than_the_luminance_range() {
    let ramp = ramp_of(257);
    assert_eq!(quantize(0, &ramp), 0);
    assert_eq!(quantize(255, &ramp), 255);
    let ramp = ramp_of(512);
    assert_eq!(quantize(255, &ramp), 510);
}

#[test]
fn single_glyph_ramp_maps_everything_to_it() {
    let ramp = GlyphRamp::new("#").unwrap();
    for luminance in 0..=255u8 {
        assert_eq!(quantize(luminance, &ramp), 0);
        assert_eq!(ramp.glyph(luminance), '#');
    }
}
