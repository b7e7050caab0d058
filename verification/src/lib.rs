//! Verified core of a terminal video player: turning scaled RGB frames into
//! blocks of text, pacing them, and sequencing a playback session.
//!
//! The library does no input or output. It holds what is decided and
//! computed:
//!
//! - [`ramp`]: the glyph ramp and the mapping from luminance to glyph;
//! - [`frame`]: scaled frames and the luminance of their pixels;
//! - [`layout`] and [`raster`]: the text block of a frame, and what its
//!   lines are;
//! - [`pacing`]: the frame interval of a frame rate;
//! - [`terminal`]: the instructions given to the terminal around the frames;
//! - [`player`]: the session as a state machine, which asks its driver for
//!   one thing at a time (decode, draw, sleep, play audio) and takes the
//!   outcome as an event;
//! - [`session`]: what holds of every run of that machine.

use vstd::prelude::*;

pub mod frame;
pub mod layout;
pub mod pacing;
pub mod player;
pub mod ramp;
pub mod raster;
pub mod session;
pub mod terminal;

verus! {

/// The default glyph ramp: a blank and four block elements of rising density.
pub const CHARS: &'static str = " ░▒▓█";

/// Columns of the nominal character grid.
pub const WIDTH: u32 = 320;

/// Rows of the nominal character grid.
pub const HEIGHT: u32 = 240;

/// Where the audio is put once it is taken out of the video file. The file
/// is overwritten by each session and left behind.
pub const AUDIO_FILE: &'static str = "audio.wav";

/// The default ramp has five glyphs, none of them a line break, so that the
/// lines of a rendered frame are its rows.
pub proof fn lemma_default_ramp()
    ensures
        CHARS@.len() == 5,
        forall|i: int| 0 <= i < CHARS@.len() ==> CHARS@[i] != '\n',
{
    reveal_strlit(" ░▒▓█");
}

} // verus!
