//! The glyph ramp and the linear bucket mapping from luminance to glyph.

use vstd::prelude::*;

verus! {

/// Glyph index for a luminance on a ramp of `ramp_len` glyphs:
/// `floor(ramp_len * luminance / 256)`.
pub open spec fn quantize_index(luminance: u8, ramp_len: nat) -> nat {
    (ramp_len * (luminance as nat)) / 256
}

/// An ordered, non-empty sequence of glyphs, lightest first.
#[derive(Debug)]
pub struct GlyphRamp {
    glyphs: Vec<char>,
}

impl View for GlyphRamp {
    type V = Seq<char>;

    closed spec fn view(&self) -> Seq<char> {
        self.glyphs@
    }
}

impl GlyphRamp {
    /// A ramp always holds at least one glyph.
    #[verifier::type_invariant]
    pub open spec fn wf(self) -> bool {
        self@.len() >= 1
    }

    /// Builds a ramp from the characters of `chars`, in order.
    /// An empty string is no ramp.
    pub fn new(chars: &str) -> (ramp: Option<GlyphRamp>)
        ensures
            ramp is Some <==> chars@.len() >= 1,
            ramp matches Some(r) ==> r@ == chars@,
    {
        let mut glyphs: Vec<char> = Vec::new();
        for c in it: chars.chars()
            invariant
                it.seq() == chars@,
                glyphs@ == chars@.take(it.index() as int),
        {
            glyphs.push(c);
        }
        if glyphs.len() == 0 {
            None
        } else {
            Some(GlyphRamp { glyphs })
        }
    }

    /// Number of glyphs on the ramp; at least one.
    pub fn len(&self) -> (n: usize)
        ensures
            n == self@.len(),
            n >= 1,
    {
        proof {
            use_type_invariant(self);
        }
        self.glyphs.len()
    }

    /// The glyph that stands for `luminance`.
    pub fn glyph(&self, luminance: u8) -> (c: char)
        ensures
            c == self@[quantize_index(luminance, self@.len()) as int],
    {
        proof {
            use_type_invariant(self);
        }
        let index = quantize(luminance, self);
        self.glyphs[index]
    }
}

/// Maps a luminance to its glyph index on `ramp`: a fixed linear bucket
/// mapping. The darkest luminance takes the first glyph, and on a ramp of at
/// most 256 glyphs the brightest takes the last.
pub fn quantize(luminance: u8, ramp: &GlyphRamp) -> (index: usize)
    ensures
        index == quantize_index(luminance, ramp@.len()),
        index < ramp@.len(),
        luminance == 0 ==> index == 0,
        luminance == 255 && ramp@.len() <= 256 ==> index == ramp@.len() - 1,
{
    let n = ramp.len();
    proof {
        lemma_quantize_in_range(luminance, n as nat);
        lemma_quantize_darkest(n as nat);
        if n <= 256 {
            lemma_quantize_brightest(n as nat);
        }
    }
    let wide: u128 = (n as u128) * (luminance as u128) / 256;
    wide as usize
}

/// Every luminance lands on a glyph of the ramp.
pub proof fn lemma_quantize_in_range(luminance: u8, ramp_len: nat)
    requires
        ramp_len >= 1,
    ensures
        quantize_index(luminance, ramp_len) < ramp_len,
{
    assert(ramp_len * (luminance as nat) <= ramp_len * 255) by (nonlinear_arith)
        requires
            luminance <= 255,
    ;
}

/// Brighter pixels never get an earlier glyph.
pub proof fn lemma_quantize_monotonic(low: u8, high: u8, ramp_len: nat)
    requires
        low <= high,
    ensures
        quantize_index(low, ramp_len) <= quantize_index(high, ramp_len),
{
    assert(ramp_len * (low as nat) <= ramp_len * (high as nat)) by (nonlinear_arith)
        requires
            low <= high,
    ;
}

/// Luminance 0 takes the first glyph.
pub proof fn lemma_quantize_darkest(ramp_len: nat)
    ensures
        quantize_index(0, ramp_len) == 0,
{
    assert(ramp_len * 0 == 0) by (nonlinear_arith);
}

/// On a ramp of at most 256 glyphs, luminance 255 takes the last glyph.
pub proof fn lemma_quantize_brightest(ramp_len: nat)
    requires
        1 <= ramp_len <= 256,
    ensures
        quantize_index(255, ramp_len) == ramp_len - 1,
{
}

/// A ramp of more than 256 glyphs has more glyphs than there are
/// luminances: its last glyph is never reached.
pub proof fn lemma_quantize_long_ramp(luminance: u8, ramp_len: nat)
    requires
        ramp_len > 256,
    ensures
        quantize_index(luminance, ramp_len) < ramp_len - 1,
{
    assert(ramp_len * (luminance as nat) <= ramp_len * 255) by (nonlinear_arith)
        requires
            luminance <= 255,
    ;
}

/// A ramp of one glyph gives that glyph for every luminance.
pub proof fn lemma_single_glyph(luminance: u8)
    ensures
        quantize_index(luminance, 1) == 0,
{
}

} // verus!
