//! The frame rasterizer: one glyph per pixel, rows separated by line breaks.

use vstd::prelude::*;
use crate::frame::{luminances, raw_frame_to_lum, ScaledFrame};
use crate::layout::{
    lemma_line_breaks_step,
    lemma_lines_are_rows,
    lines,
    row_count,
    with_line_breaks,
};
use crate::ramp::{lemma_quantize_in_range, quantize_index, GlyphRamp};

verus! {

/// Assumed of std's `String::push`, not proved: the string afterwards is the
/// string before with the character appended at its end.
pub assume_specification[ String::push ](text: &mut String, ch: char)
    ensures
        final(text)@ == old(text)@.push(ch),
;

/// The glyph of each luminance, in order.
pub open spec fn glyphs_of(lums: Seq<u8>, ramp: Seq<char>) -> Seq<char> {
    Seq::new(lums.len(), |i: int| ramp[quantize_index(lums[i], ramp.len()) as int])
}

/// The text block of a pixel buffer on a ramp.
pub open spec fn rendered(data: Seq<u8>, ramp: Seq<char>, row_width: nat) -> Seq<char> {
    with_line_breaks(glyphs_of(luminances(data), ramp), row_width)
}

/// Whether no glyph of the ramp is a line break.
pub open spec fn breaks_no_line(ramp: Seq<char>) -> bool {
    forall|i: int| 0 <= i < ramp.len() ==> ramp[i] != '\n'
}

/// Renders `frame` as text: pixels in row-major order, each as the ramp
/// glyph of its luminance, with a line break after every `row_width` glyphs.
/// On a ramp without a line break among its glyphs, the text has as many
/// lines as `row_width` goes into the pixel count, rounded up, and every
/// full row is a line of exactly `row_width` characters.
pub fn rasterize(frame: &ScaledFrame, ramp: &GlyphRamp, row_width: u32) -> (text: String)
    requires
        row_width >= 1,
    ensures
        text@ == rendered(frame@.data, ramp@, row_width as nat),
        breaks_no_line(ramp@) ==> lines(text@).len() == row_count(
            frame@.data.len() / 3,
            row_width as nat,
        ),
        breaks_no_line(ramp@) ==> forall|row: int|
            0 <= row < (frame@.data.len() / 3) / (row_width as nat) ==> (#[trigger] lines(
                text@,
            )[row]).len() == row_width,
{
    proof {
        use_type_invariant(ramp);
        if breaks_no_line(ramp@) {
            lemma_rendered_lines(frame@.data, ramp@, row_width as nat);
        }
    }
    let lums = raw_frame_to_lum(frame);
    let ghost glyphs = glyphs_of(lums@, ramp@);
    let width = row_width as usize;
    let mut text = String::new();
    let mut i: usize = 0;
    assert(text@ =~= with_line_breaks(glyphs.take(0), row_width as nat));
    while i < lums.len()
        invariant
            i <= lums@.len(),
            width == row_width,
            width >= 1,
            glyphs == glyphs_of(lums@, ramp@),
            text@ == with_line_breaks(glyphs.take(i as int), row_width as nat),
        decreases lums@.len() - i,
    {
        proof {
            lemma_line_breaks_step(glyphs, row_width as nat, i as int);
        }
        text.push(ramp.glyph(lums[i]));
        if (i + 1) % width == 0 {
            text.push('\n');
        }
        i += 1;
    }
    assert(glyphs.take(i as int) =~= glyphs);
    text
}

/// On a ramp that holds no line break, the text of a frame has one line
/// for each row of pixels that is filled or begun, `ceil(pixels / row_width)`
/// in all, and every filled row is a line of exactly `row_width` characters.
pub proof fn lemma_rendered_lines(data: Seq<u8>, ramp: Seq<char>, row_width: nat)
    requires
        1 <= row_width,
        1 <= ramp.len(),
        breaks_no_line(ramp),
    ensures
        lines(rendered(data, ramp, row_width)).len() == row_count(data.len() / 3, row_width),
        forall|row: int|
            0 <= row < (data.len() / 3) / row_width ==> (#[trigger] lines(
                rendered(data, ramp, row_width),
            )[row]).len() == row_width,
{
    let lums = luminances(data);
    let glyphs = glyphs_of(lums, ramp);
    assert forall|i: int| 0 <= i < glyphs.len() implies glyphs[i] != '\n' by {
        lemma_quantize_in_range(lums[i], ramp.len());
    }
    lemma_lines_are_rows(glyphs, row_width);
}

/// Where every pixel has the same luminance, every glyph is the same: the
/// first of the ramp for a black frame.
pub proof fn lemma_uniform_frame(data: Seq<u8>, ramp: Seq<char>, level: u8)
    requires
        forall|i: int| 0 <= i < data.len() ==> data[i] == level,
    ensures
        forall|i: int|
            0 <= i < data.len() / 3 ==> #[trigger] glyphs_of(luminances(data), ramp)[i]
                == ramp[quantize_index(level, ramp.len()) as int],
        level == 0 ==> forall|i: int|
            0 <= i < data.len() / 3 ==> #[trigger] glyphs_of(luminances(data), ramp)[i] == ramp[0],
{
    assert forall|i: int| 0 <= i < data.len() / 3 implies #[trigger] luminances(data)[i]
        == level by {
        assert(data[3 * i] == level && data[3 * i + 1] == level && data[3 * i + 2] == level);
    }
    assert(ramp.len() * 0 == 0) by (nonlinear_arith);
}

/// On a ramp of one glyph every pixel becomes that glyph.
pub proof fn lemma_single_glyph_frame(data: Seq<u8>, ramp: Seq<char>)
    requires
        ramp.len() == 1,
    ensures
        forall|i: int|
            0 <= i < data.len() / 3 ==> #[trigger] glyphs_of(luminances(data), ramp)[i] == ramp[0],
{
}

} // verus!
