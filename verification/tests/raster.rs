use ascplayer::frame::ScaledFrame;
use ascplayer::ramp::GlyphRamp;
use ascplayer::raster::rasterize;
use ascplayer::{CHARS, HEIGHT, WIDTH};

fn gray(levels: &[u8]) -> Vec<u8> {
    let mut data = Vec::new();
    for level in levels {
        data.push(*level);
        data.push(*level);
        data.push(*level);
    }
    data
}

#[test]
fn rasterize_breaks_after_every_row() {
    let ramp = GlyphRamp::new("ab").unwrap();
    let frame = ScaledFrame::new(2, 2, gray(&[0, 255, 255, 0])).unwrap();
    assert_eq!(rasterize(&frame, &ramp, 2), "ab\nba\n");
}

#[test]
fn rasterize_leaves_a_partial_last_row_without_a_break() {
    let ramp = GlyphRamp::new("ab").unwrap();
    let frame = ScaledFrame::new(3, 1, gray(&[0, 255, 200])).unwrap();
    assert_eq!(rasterize(&frame, &ramp, 2), "ab\nb");
    let frame = ScaledFrame::new(5, 1, gray(&[0, 0, 0, 0, 255])).unwrap();
    assert_eq!(rasterize(&frame, &ramp, 3), "aaa\nab");
    assert_eq!(rasterize(&frame, &ramp, 7), "aaaab");
}

#[test]
fn rasterize_goes_by_the_row_width_it_is_given() {
    let ramp = GlyphRamp::new("ab").unwrap();
    let frame = ScaledFrame::new(2, 3, gray(&[0, 255, 0, 255, 0, 255])).unwrap();
    assert_eq!(rasterize(&frame, &ramp, 2), "ab\nab\nab\n");
    assert_eq!(rasterize(&frame, &ramp, 3), "aba\nbab\n");
    assert_eq!(rasterize(&frame, &ramp, 1), "a\nb\na\nb\na\nb\n");
    assert_eq!(rasterize(&frame, &ramp, 6), "ababab\n");
}

#[test]
fn rasterize_of_an_empty_frame_is_empty() {
    let ramp = GlyphRamp::new(CHARS).unwrap();
    let frame = ScaledFrame::new(0, 0, vec![]).unwrap();
    assert_eq!(rasterize(&frame, &ramp, 4), "");
}

#[test]
fn rasterize_picks_glyphs_by_mean_luminance() {
    let ramp = GlyphRamp::new(CHARS).unwrap();
    let data = vec![
        0, 0, 0, //
        255, 0, 0, //
        128, 128, 128, //
        255, 255, 100, //
        255, 255, 255, //
        51, 51, 54, //
    ];
    let frame = ScaledFrame::new(3, 2, data).unwrap();
    assert_eq!(rasterize(&frame, &ramp, 3), " \u{2591}\u{2592}\n\u{2593}\u{2588}\u{2591}\n");
}

#[test]
fn rasterize_line_count_is_the_row_count_rounded_up() {
    let ramp = GlyphRamp::new("ab").unwrap();
    for pixels in 0..40u32 {
        let frame = ScaledFrame::new(pixels, 1, vec![0; 3 * pixels as usize]).unwrap();
        for row_width in 1..12u32 {
            let text = rasterize(&frame, &ramp, row_width);
            let lines: Vec<&str> = text.lines().collect();
            let full = (pixels / row_width) as usize;
            assert_eq!(lines.len(), ((pixels + row_width - 1) / row_width) as usize);
            assert_eq!(text.chars().count(), pixels as usize + full);
            for line in &lines[..full] {
                assert_eq!(line.chars().count(), row_width as usize);
            }
            if pixels % row_width != 0 {
                assert_eq!(lines[full].chars().count(), (pixels % row_width) as usize);
                assert!(!text.ends_with('\n'));
            }
        }
    }
}

#[test]
fn black_clip_renders_as_the_first_glyph_everywhere() {
    let ramp = GlyphRamp::new(CHARS).unwrap();
    let width = 2 * WIDTH;
    assert_eq!(width, 640);
    assert_eq!(HEIGHT, 240);
    let mut row = " ".repeat(640);
    row.push('\n');
    let expected = row.repeat(240);
    let mut frames = Vec::new();
    for _ in 0..10 {
        let frame = ScaledFrame::new(width, HEIGHT, vec![0; 640 * 240 * 3]).unwrap();
        frames.push(rasterize(&frame, &ramp, width));
    }
    assert_eq!(frames.len(), 10);
    for text in &frames {
        assert_eq!(text, &expected);
        assert_eq!(text.lines().count(), 240);
    }
}

#[test]
fn single_glyph_ramp_renders_every_pixel_alike() {
    let ramp = GlyphRamp::new("#").unwrap();
    let data: Vec<u8> = (0..48u32).map(|i| (i * 5) as u8).collect();
    let frame = ScaledFrame::new(4, 4, data).unwrap();
    assert_eq!(rasterize(&frame, &ramp, 4), "####\n####\n####\n####\n");
}

#[test]
fn white_frame_renders_as_the_last_glyph() {
    let ramp = GlyphRamp::new(CHARS).unwrap();
    let frame = ScaledFrame::new(3, 1, vec![255; 9]).unwrap();
    assert_eq!(rasterize(&frame, &ramp, 3), "\u{2588}\u{2588}\u{2588}\n");
}
