//! Scaled frames: interleaved 8-bit RGB pixel buffers of a fixed raster, and
//! the luminance of their pixels.

use vstd::prelude::*;

verus! {

/// What a scaled frame is: a raster size and its interleaved RGB bytes.
pub ghost struct FrameView {
    pub width: nat,
    pub height: nat,
    pub data: Seq<u8>,
}

impl FrameView {
    /// The buffer holds three bytes for each pixel of the raster, no more.
    pub open spec fn wf(self) -> bool {
        self.data.len() == self.width * self.height * 3
    }
}

/// Why a pixel buffer was not accepted as a frame.
#[derive(Clone, Copy, Debug, PartialEq, Eq, Structural)]
pub enum FrameError {
    /// The buffer length is not width x height x 3.
    BufferSizeMismatch,
}

/// A pixel buffer in interleaved RGB layout whose length matches its raster.
#[derive(Debug)]
pub struct ScaledFrame {
    width: u32,
    height: u32,
    data: Vec<u8>,
}

impl View for ScaledFrame {
    type V = FrameView;

    closed spec fn view(&self) -> FrameView {
        FrameView { width: self.width as nat, height: self.height as nat, data: self.data@ }
    }
}

impl ScaledFrame {
    /// A frame's buffer always matches its raster.
    #[verifier::type_invariant]
    pub open spec fn wf(self) -> bool {
        self@.wf()
    }

    /// Accepts `data` as a frame of `width` x `height` pixels exactly when
    /// it holds three bytes per pixel.
    pub fn new(width: u32, height: u32, data: Vec<u8>) -> (frame: Result<ScaledFrame, FrameError>)
        ensures
            frame is Ok <==> data@.len() == width * height * 3,
            frame matches Ok(f) ==> f@ == (FrameView {
                width: width as nat,
                height: height as nat,
                data: data@,
            }) && f@.wf(),
            frame matches Err(e) ==> e == FrameError::BufferSizeMismatch,
    {
        assert(width * height <= 0xffff_ffff * 0xffff_ffff) by (nonlinear_arith)
            requires
                width <= 0xffff_ffff,
                height <= 0xffff_ffff,
        ;
        let expected: u128 = (width as u128) * (height as u128) * 3;
        if data.len() as u128 == expected {
            Ok(ScaledFrame { width, height, data })
        } else {
            Err(FrameError::BufferSizeMismatch)
        }
    }

    /// Raster width in pixels.
    pub fn width(&self) -> (w: u32)
        ensures
            w == self@.width,
    {
        self.width
    }

    /// Raster height in pixels.
    pub fn height(&self) -> (h: u32)
        ensures
            h == self@.height,
    {
        self.height
    }

    /// The interleaved RGB bytes, row-major.
    pub fn data(&self) -> (bytes: &Vec<u8>)
        ensures
            bytes@ == self@.data,
            self@.wf(),
    {
        proof {
            use_type_invariant(self);
        }
        &self.data
    }
}

/// The complete three-byte groups of `bytes`, in order; a trailing group of
/// fewer than three bytes is left out.
pub open spec fn triples(bytes: Seq<u8>) -> Seq<Seq<u8>> {
    Seq::new(bytes.len() / 3, |i: int| bytes.subrange(3 * i, 3 * i + 3))
}

/// Unweighted mean of the three channels, truncated.
pub open spec fn luminance(red: u8, green: u8, blue: u8) -> u8 {
    ((red + green + blue) / 3) as u8
}

/// Per-pixel luminance of an interleaved RGB buffer, in pixel order.
pub open spec fn luminances(data: Seq<u8>) -> Seq<u8> {
    Seq::new(data.len() / 3, |i: int| luminance(data[3 * i], data[3 * i + 1], data[3 * i + 2]))
}

/// The byte sequences held by a vector of byte vectors.
pub open spec fn contents(groups: Seq<Vec<u8>>) -> Seq<Seq<u8>> {
    groups.map_values(|group: Vec<u8>| group@)
}

/// Splits a byte buffer into its complete groups of three.
pub fn divide_in_triples_u8(list: Vec<u8>) -> (res: Vec<Vec<u8>>)
    ensures
        contents(res@) == triples(list@),
{
    let mut res: Vec<Vec<u8>> = Vec::new();
    let groups = list.len() / 3;
    let mut i: usize = 0;
    while i < groups
        invariant
            groups == list@.len() / 3,
            3 * groups <= list@.len() <= usize::MAX,
            i <= groups,
            res@.len() == i,
            forall|k: int| 0 <= k < i ==> (#[trigger] res@[k])@ == list@.subrange(3 * k, 3 * k + 3),
        decreases groups - i,
    {
        let mut chunk: Vec<u8> = Vec::new();
        chunk.push(list[3 * i]);
        chunk.push(list[3 * i + 1]);
        chunk.push(list[3 * i + 2]);
        assert(chunk@ == list@.subrange(3 * i, 3 * i + 3));
        res.push(chunk);
        i += 1;
    }
    assert(contents(res@) =~= triples(list@));
    res
}

/// Luminance of every pixel of `frame`, in row-major order.
pub fn raw_frame_to_lum(frame: &ScaledFrame) -> (res: Vec<u8>)
    ensures
        res@ == luminances(frame@.data),
{
    let mut res: Vec<u8> = Vec::new();
    let bytes = frame.data().clone();
    assert(bytes@ == frame@.data);
    let data = divide_in_triples_u8(bytes);
    let n = data.len();
    assert(contents(data@).len() == n);
    let mut i: usize = 0;
    while i < n
        invariant
            n == data@.len(),
            n == frame@.data.len() / 3,
            i <= n,
            contents(data@) == triples(frame@.data),
            res@ == luminances(frame@.data).take(i as int),
        decreases n - i,
    {
        let pixel = &data[i];
        assert(pixel@ == contents(data@)[i as int]);
        assert(pixel@ == frame@.data.subrange(3 * i, 3 * i + 3));
        let sum: u16 = pixel[0] as u16 + pixel[1] as u16 + pixel[2] as u16;
        res.push((sum / 3) as u8);
        i += 1;
    }
    res
}

} // verus!
