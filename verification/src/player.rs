//! The player: a playback session as a state machine. The player decides
//! what happens next; whoever drives it performs each request (decoding,
//! terminal output, sleeping, audio) and reports what came of it.

use vstd::prelude::*;
use crate::frame::ScaledFrame;
use crate::pacing::{
    frame_interval,
    interval_of,
    lemma_interval_positive,
    FrameInterval,
    FrameRate,
};
use crate::ramp::GlyphRamp;
use crate::raster::{rasterize, rendered};

verus! {

/// Why a session was given up.
#[derive(Clone, Copy, Debug, PartialEq, Eq, Structural)]
pub enum Fault {
    /// The media subsystem failed to initialize.
    Initialization,
    /// The file is missing, unreadable, or no known container.
    Source,
    /// No usable video or audio track was found.
    TrackSelection,
    /// A packet was malformed or the codec unsupported.
    Decode,
    /// No audio output device, or it rejected the sample format.
    Device,
    /// Writing to the terminal failed.
    Rendering,
    /// A scaled frame's buffer did not match the target raster.
    Frame,
    /// An event was reported that the pending request cannot produce.
    Protocol,
}

/// How a session ended.
#[derive(Clone, Copy, Debug, PartialEq, Eq, Structural)]
pub enum Outcome {
    Finished,
    Aborted(Fault),
}

/// The selected video track: which stream's packets are decoded, and how
/// long each of its frames is shown. Fixed once selected.
#[derive(Clone, Copy, Debug, PartialEq, Eq, Structural)]
pub struct Track {
    pub stream: usize,
    pub interval: FrameInterval,
}

/// Where the frame loop stands. `flushing` tells the drain after the end of
/// input from the drain after a packet.
#[derive(Clone, Copy, Debug, PartialEq, Eq, Structural)]
pub enum Step {
    ReadingPacket,
    SendingPacket,
    SendingEof,
    ReceivingFrame { flushing: bool },
    Drawing { flushing: bool },
    Sleeping { flushing: bool },
    Clearing { flushing: bool },
}

/// What the player is waiting for.
#[derive(Clone, Copy, Debug, PartialEq, Eq, Structural)]
pub enum Stage {
    Idle,
    ExtractingAudio,
    StartingAudio,
    OpeningSource,
    SelectingTrack,
    PreparingTerminal(Track),
    Playing(Track, Step),
    Restoring(Outcome),
    Stopped(Outcome),
}

/// The session's state at large.
#[derive(Clone, Copy, Debug, PartialEq, Eq, Structural)]
pub enum PlayerState {
    Idle,
    AudioStarted,
    VideoPlaying,
    Finished,
    Aborted,
}

/// What the driver reports back.
#[derive(Debug, PartialEq, Eq)]
pub enum Event {
    /// Begin the session.
    Start,
    /// The pending request was carried out.
    Done,
    /// The pending request failed.
    Failed(Fault),
    /// The best video stream of the container and its declared frame rate.
    TrackSelected { stream: usize, frame_rate: FrameRate },
    /// The demuxer gave a packet of this stream.
    Packet { stream: usize },
    /// The demuxer has no more packets.
    EndOfInput,
    /// The decoder gave a frame; these are its bytes after scaling.
    Frame(Vec<u8>),
    /// The decoder has no frame to give for now.
    NoFrame,
}

/// What the player asks the driver to do next.
#[derive(Debug, PartialEq, Eq)]
pub enum Action {
    /// Transcode the file's audio into the intermediate waveform file.
    ExtractAudio,
    /// Start playing the waveform file on the output device.
    PlayAudio,
    /// Open the container.
    OpenSource,
    /// Pick the best video stream and set up its decoder.
    SelectVideoTrack,
    PrepareTerminal,
    /// Read the next packet from the container.
    ReadPacket,
    /// Feed the packet just read to the decoder.
    SendPacket,
    /// Tell the decoder that no more packets will come.
    SendEof,
    /// Ask the decoder for a frame and scale it to this raster, resampled
    /// bilinearly into interleaved 8-bit red, green and blue.
    ReceiveFrame { width: u32, height: u32 },
    /// Write this text block to the terminal.
    Draw(String),
    /// Block for the frame interval.
    Sleep(FrameInterval),
    ClearTerminal,
    RestoreTerminal,
    /// The session is over.
    Stop(Outcome),
}

/// An action with its text as a sequence of characters.
pub ghost enum ActionView {
    ExtractAudio,
    PlayAudio,
    OpenSource,
    SelectVideoTrack,
    PrepareTerminal,
    ReadPacket,
    SendPacket,
    SendEof,
    ReceiveFrame { width: u32, height: u32 },
    Draw(Seq<char>),
    Sleep(FrameInterval),
    ClearTerminal,
    RestoreTerminal,
    Stop(Outcome),
}

impl View for Action {
    type V = ActionView;

    open spec fn view(&self) -> ActionView {
        match *self {
            Action::ExtractAudio => ActionView::ExtractAudio,
            Action::PlayAudio => ActionView::PlayAudio,
            Action::OpenSource => ActionView::OpenSource,
            Action::SelectVideoTrack => ActionView::SelectVideoTrack,
            Action::PrepareTerminal => ActionView::PrepareTerminal,
            Action::ReadPacket => ActionView::ReadPacket,
            Action::SendPacket => ActionView::SendPacket,
            Action::SendEof => ActionView::SendEof,
            Action::ReceiveFrame { width, height } => ActionView::ReceiveFrame { width, height },
            Action::Draw(text) => ActionView::Draw(text@),
            Action::Sleep(interval) => ActionView::Sleep(interval),
            Action::ClearTerminal => ActionView::ClearTerminal,
            Action::RestoreTerminal => ActionView::RestoreTerminal,
            Action::Stop(outcome) => ActionView::Stop(outcome),
        }
    }
}

/// What a player is: its ramp, its target raster, and its stage.
pub ghost struct PlayerView {
    pub ramp: Seq<char>,
    pub width: u32,
    pub height: u32,
    pub stage: Stage,
}

impl PlayerView {
    /// The same player at another stage.
    pub open spec fn at(self, stage: Stage) -> PlayerView {
        PlayerView { stage, ..self }
    }
}

/// The widest character grid whose doubled width is still a raster width.
pub const MAX_GRID_WIDTH: u32 = 0x7fff_ffff;

/// The session's state at large for a stage.
pub open spec fn state_of(stage: Stage) -> PlayerState {
    match stage {
        Stage::Idle | Stage::ExtractingAudio | Stage::StartingAudio => PlayerState::Idle,
        Stage::OpeningSource | Stage::SelectingTrack | Stage::PreparingTerminal(_) =>
            PlayerState::AudioStarted,
        Stage::Playing(_, _) => PlayerState::VideoPlaying,
        Stage::Restoring(Outcome::Finished) | Stage::Stopped(Outcome::Finished) =>
            PlayerState::Finished,
        Stage::Restoring(Outcome::Aborted(_)) | Stage::Stopped(Outcome::Aborted(_)) =>
            PlayerState::Aborted,
    }
}

/// Whether the terminal's modes may have been changed and not yet restored.
pub open spec fn terminal_held(stage: Stage) -> bool {
    stage is PreparingTerminal || stage is Playing || stage is Restoring
}

/// Giving up for `fault`: a terminal that is held is restored first; a
/// failure of the restoring itself ends the session with the outcome it had,
/// or with the failure if it had finished.
pub open spec fn abort_transition(stage: Stage, fault: Fault) -> (Stage, ActionView) {
    match stage {
        Stage::Stopped(outcome) => (stage, ActionView::Stop(outcome)),
        Stage::Restoring(Outcome::Finished) => (
            Stage::Stopped(Outcome::Aborted(fault)),
            ActionView::Stop(Outcome::Aborted(fault)),
        ),
        Stage::Restoring(Outcome::Aborted(first)) => (
            Stage::Stopped(Outcome::Aborted(first)),
            ActionView::Stop(Outcome::Aborted(first)),
        ),
        Stage::PreparingTerminal(_) | Stage::Playing(_, _) => (
            Stage::Restoring(Outcome::Aborted(fault)),
            ActionView::RestoreTerminal,
        ),
        _ => (Stage::Stopped(Outcome::Aborted(fault)), ActionView::Stop(Outcome::Aborted(fault))),
    }
}

/// The fault that an event stands for where it is not the answer awaited: the
/// reported one for a failure, a breach of protocol for anything else.
pub open spec fn fault_of(event: Event) -> Fault {
    match event {
        Event::Failed(fault) => fault,
        _ => Fault::Protocol,
    }
}

/// Starting the audio: extract it, then play it, then turn to the video.
pub open spec fn audio_transition(stage: Stage, event: Event) -> (Stage, ActionView) {
    match (stage, event) {
        (Stage::Idle, Event::Start) => (Stage::ExtractingAudio, ActionView::ExtractAudio),
        (Stage::ExtractingAudio, Event::Done) => (Stage::StartingAudio, ActionView::PlayAudio),
        (Stage::StartingAudio, Event::Done) => (Stage::OpeningSource, ActionView::OpenSource),
        _ => abort_transition(stage, fault_of(event)),
    }
}

/// Opening the video and walking its packets: open the container, select
/// the track and fix the frame interval, prepare the terminal; then send each
/// packet of the selected stream to the decoder, pass over the others, and
/// send the end of stream when the input is exhausted.
pub open spec fn video_transition(view: PlayerView, event: Event) -> (Stage, ActionView) {
    match (view.stage, event) {
        (Stage::OpeningSource, Event::Done) => (
            Stage::SelectingTrack,
            ActionView::SelectVideoTrack,
        ),
        (Stage::SelectingTrack, Event::TrackSelected { stream, frame_rate }) => {
            if frame_rate.is_valid() {
                (
                    Stage::PreparingTerminal(Track { stream, interval: interval_of(frame_rate) }),
                    ActionView::PrepareTerminal,
                )
            } else {
                abort_transition(view.stage, Fault::TrackSelection)
            }
        },
        (Stage::PreparingTerminal(track), Event::Done) => (
            Stage::Playing(track, Step::ReadingPacket),
            ActionView::ReadPacket,
        ),
        (Stage::Playing(track, Step::ReadingPacket), Event::Packet { stream }) => {
            if stream == track.stream {
                (Stage::Playing(track, Step::SendingPacket), ActionView::SendPacket)
            } else {
                (Stage::Playing(track, Step::ReadingPacket), ActionView::ReadPacket)
            }
        },
        (Stage::Playing(track, Step::ReadingPacket), Event::EndOfInput) => (
            Stage::Playing(track, Step::SendingEof),
            ActionView::SendEof,
        ),
        (Stage::Playing(track, Step::SendingPacket), Event::Done) => (
            Stage::Playing(track, Step::ReceivingFrame { flushing: false }),
            ActionView::ReceiveFrame { width: view.width, height: view.height },
        ),
        (Stage::Playing(track, Step::SendingEof), Event::Done) => (
            Stage::Playing(track, Step::ReceivingFrame { flushing: true }),
            ActionView::ReceiveFrame { width: view.width, height: view.height },
        ),
        _ => abort_transition(view.stage, fault_of(event)),
    }
}

/// Draining the decoder: each frame is rasterized and drawn, then the
/// player sleeps for the frame interval, clears the terminal and asks for
/// the next frame. When the decoder has none, the player reads on, or, after
/// the end of stream, finishes.
pub open spec fn frames_transition(view: PlayerView, event: Event) -> (Stage, ActionView) {
    match (view.stage, event) {
        (Stage::Playing(track, Step::ReceivingFrame { flushing }), Event::Frame(data)) => {
            if data@.len() == view.width * view.height * 3 {
                (
                    Stage::Playing(track, Step::Drawing { flushing }),
                    ActionView::Draw(rendered(data@, view.ramp, view.width as nat)),
                )
            } else {
                abort_transition(view.stage, Fault::Frame)
            }
        },
        (Stage::Playing(track, Step::ReceivingFrame { flushing }), Event::NoFrame) => {
            if flushing {
                (Stage::Restoring(Outcome::Finished), ActionView::RestoreTerminal)
            } else {
                (Stage::Playing(track, Step::ReadingPacket), ActionView::ReadPacket)
            }
        },
        (Stage::Playing(track, Step::Drawing { flushing }), Event::Done) => (
            Stage::Playing(track, Step::Sleeping { flushing }),
            ActionView::Sleep(track.interval),
        ),
        (Stage::Playing(track, Step::Sleeping { flushing }), Event::Done) => (
            Stage::Playing(track, Step::Clearing { flushing }),
            ActionView::ClearTerminal,
        ),
        (Stage::Playing(track, Step::Clearing { flushing }), Event::Done) => (
            Stage::Playing(track, Step::ReceivingFrame { flushing }),
            ActionView::ReceiveFrame { width: view.width, height: view.height },
        ),
        _ => abort_transition(view.stage, fault_of(event)),
    }
}

/// Ending the session: once the terminal is restored the session stops, and
/// a stopped session stays stopped.
pub open spec fn end_transition(stage: Stage, event: Event) -> (Stage, ActionView) {
    match (stage, event) {
        (Stage::Restoring(outcome), Event::Done) => (
            Stage::Stopped(outcome),
            ActionView::Stop(outcome),
        ),
        _ => abort_transition(stage, fault_of(event)),
    }
}

/// Whether the frame loop is draining the decoder.
pub open spec fn draining(step: Step) -> bool {
    step is ReceivingFrame || step is Drawing || step is Sleeping || step is Clearing
}

/// The player's transition: the stage it moves to and the action it asks
/// for, for every stage and event.
pub open spec fn transition(view: PlayerView, event: Event) -> (Stage, ActionView) {
    match view.stage {
        Stage::Idle | Stage::ExtractingAudio | Stage::StartingAudio => audio_transition(
            view.stage,
            event,
        ),
        Stage::OpeningSource | Stage::SelectingTrack | Stage::PreparingTerminal(_) => {
            video_transition(view, event)
        },
        Stage::Playing(_, step) => if draining(step) {
            frames_transition(view, event)
        } else {
            video_transition(view, event)
        },
        Stage::Restoring(_) | Stage::Stopped(_) => end_transition(view.stage, event),
    }
}

/// Position of a state in the order in which a session passes through them.
pub open spec fn state_rank(state: PlayerState) -> nat {
    match state {
        PlayerState::Idle => 0,
        PlayerState::AudioStarted => 1,
        PlayerState::VideoPlaying => 2,
        PlayerState::Finished => 3,
        PlayerState::Aborted => 4,
    }
}

/// The session never stops while it holds the terminal: from a stage that
/// holds it, the only way to stop leads through restoring it. And the driver
/// is told to stop exactly when the session has stopped.
pub proof fn lemma_terminal_restored(view: PlayerView, event: Event)
    ensures
        transition(view, event).0 is Stopped && terminal_held(view.stage) ==> view.stage
            is Restoring,
        transition(view, event).1 is Stop <==> transition(view, event).0 is Stopped,
        terminal_held(view.stage) && !(view.stage is Restoring) ==> terminal_held(
            transition(view, event).0,
        ),
{
}

/// A frame is drawn exactly when the decoder gives one that fits the raster
/// while the player waits for it, and what is drawn is that frame's text. The
/// player sleeps only after drawing. So a request for a frame that yields
/// none draws nothing and lets no interval pass.
pub proof fn lemma_draw_needs_frame(view: PlayerView, event: Event)
    ensures
        transition(view, event).1 is Draw <==> (event matches Event::Frame(data) && data@.len()
            == view.width * view.height * 3 && view.stage matches Stage::Playing(
            _,
            Step::ReceivingFrame { .. },
        )),
        transition(view, event).1 matches ActionView::Draw(text) ==> (event matches Event::Frame(
            data,
        ) && text == rendered(data@, view.ramp, view.width as nat)),
        transition(view, event).1 is Sleep <==> (event is Done && view.stage
            matches Stage::Playing(_, Step::Drawing { .. })),
        event is NoFrame ==> !(transition(view, event).1 is Draw) && !(transition(view, event).1
            is Sleep),
{
}

/// The selected track is read-only while the video plays: every stage of
/// the frame loop keeps it, and every sleep lasts its frame interval.
pub proof fn lemma_track_fixed(view: PlayerView, event: Event)
    ensures
        view.stage matches Stage::Playing(track, _) ==> (transition(view, event).0
            matches Stage::Playing(next, _) ==> next == track),
        view.stage matches Stage::Playing(track, _) ==> (transition(view, event).1
            matches ActionView::Sleep(interval) ==> interval == track.interval),
        view.stage matches Stage::PreparingTerminal(track) ==> (transition(view, event).0
            matches Stage::Playing(next, _) ==> next == track),
        transition(view, event).0 matches Stage::PreparingTerminal(track) ==> (view.stage
            is SelectingTrack && track.interval.is_positive()),
{
    if let Event::TrackSelected { stream, frame_rate } = event {
        if frame_rate.is_valid() {
            lemma_interval_positive(frame_rate);
        }
    }
}

/// A stopped session stays as it is, whatever is reported to it.
pub proof fn lemma_stopped_stays(view: PlayerView, event: Event)
    requires
        view.stage is Stopped,
    ensures
        transition(view, event).0 == view.stage,
        transition(view, event).1 == ActionView::Stop(view.stage->Stopped_0),
{
}

/// A failure reported before the session has stopped aborts it. The fault
/// kept is the one reported, unless the terminal was already being restored
/// after an earlier fault, which is then kept.
pub proof fn lemma_failure_aborts(view: PlayerView, fault: Fault)
    requires
        !(view.stage is Stopped),
    ensures
        state_of(transition(view, Event::Failed(fault)).0) == PlayerState::Aborted,
        view.stage matches Stage::Restoring(Outcome::Aborted(first)) ==> transition(
            view,
            Event::Failed(fault),
        ).0 == Stage::Stopped(Outcome::Aborted(first)),
        !(view.stage matches Stage::Restoring(Outcome::Aborted(_))) ==> (transition(
            view,
            Event::Failed(fault),
        ).0 == Stage::Stopped(Outcome::Aborted(fault)) || transition(
            view,
            Event::Failed(fault),
        ).0 == Stage::Restoring(Outcome::Aborted(fault))),
{
}

/// After a failure the session is over at once, or as soon as the driver
/// has answered the request to restore the terminal, whatever the answer.
pub proof fn lemma_failure_stops_soon(view: PlayerView, fault: Fault, answer: Event)
    ensures
        transition(view, Event::Failed(fault)).0 is Stopped || (transition(
            view,
            Event::Failed(fault),
        ).1 is RestoreTerminal && transition(
            view.at(transition(view, Event::Failed(fault)).0),
            answer,
        ).0 is Stopped),
{
}

/// The state at large only moves forward: from idle to audio started to
/// video playing to finished, or to aborted from anywhere; a finished
/// session can still be aborted by a failure to restore the terminal.
pub proof fn lemma_state_order(view: PlayerView, event: Event)
    ensures
        state_rank(state_of(view.stage)) <= state_rank(state_of(transition(view, event).0)),
        state_rank(state_of(transition(view, event).0)) <= state_rank(state_of(view.stage)) + 1
            || state_of(transition(view, event).0) == PlayerState::Aborted,
{
}

/// A playback session.
#[derive(Debug)]
pub struct Player {
    ramp: GlyphRamp,
    width: u32,
    height: u32,
    stage: Stage,
}

impl View for Player {
    type V = PlayerView;

    closed spec fn view(&self) -> PlayerView {
        PlayerView { ramp: self.ramp@, width: self.width, height: self.height, stage: self.stage }
    }
}

impl Player {
    /// A player's raster always has at least one column and one row.
    #[verifier::type_invariant]
    pub open spec fn wf(self) -> bool {
        self@.width >= 1 && self@.height >= 1
    }

    /// A player for a character grid of `grid_width` x `grid_height`. Frames
    /// are scaled to twice the grid's width, since a glyph is about twice as
    /// tall as it is wide, and to the grid's height. A grid with no columns
    /// or rows, or too wide to double, gives no player.
    pub fn new(char_set: GlyphRamp, grid_width: u32, grid_height: u32) -> (player: Option<Player>)
        ensures
            player is Some <==> 1 <= grid_width <= MAX_GRID_WIDTH && 1 <= grid_height,
            player matches Some(p) ==> p@ == (PlayerView {
                ramp: char_set@,
                width: (2 * grid_width) as u32,
                height: grid_height,
                stage: Stage::Idle,
            }),
    {
        if grid_width == 0 || grid_width > MAX_GRID_WIDTH || grid_height == 0 {
            None
        } else {
            Some(
                Player {
                    ramp: char_set,
                    width: 2 * grid_width,
                    height: grid_height,
                    stage: Stage::Idle,
                },
            )
        }
    }

    /// The stage the player is in.
    pub fn stage(&self) -> (stage: Stage)
        ensures
            stage == self@.stage,
    {
        self.stage
    }

    /// The session's state at large.
    pub fn state(&self) -> (state: PlayerState)
        ensures
            state == state_of(self@.stage),
    {
        match self.stage {
            Stage::Idle | Stage::ExtractingAudio | Stage::StartingAudio => PlayerState::Idle,
            Stage::OpeningSource | Stage::SelectingTrack | Stage::PreparingTerminal(_) =>
                PlayerState::AudioStarted,
            Stage::Playing(_, _) => PlayerState::VideoPlaying,
            Stage::Restoring(Outcome::Finished) | Stage::Stopped(Outcome::Finished) =>
                PlayerState::Finished,
            Stage::Restoring(Outcome::Aborted(_)) | Stage::Stopped(Outcome::Aborted(_)) =>
                PlayerState::Aborted,
        }
    }

    /// Width of the raster that frames are scaled to.
    pub fn target_width(&self) -> (width: u32)
        ensures
            width == self@.width,
            width >= 1,
    {
        proof {
            use_type_invariant(self);
        }
        self.width
    }

    /// Height of the raster that frames are scaled to.
    pub fn target_height(&self) -> (height: u32)
        ensures
            height == self@.height,
            height >= 1,
    {
        proof {
            use_type_invariant(self);
        }
        self.height
    }

    /// The text block of `frame` on the player's ramp, in rows of `width`.
    pub fn frame_to_string(&self, frame: &ScaledFrame, width: u32) -> (text: String)
        requires
            width >= 1,
        ensures
            text@ == rendered(frame@.data, self@.ramp, width as nat),
    {
        rasterize(frame, &self.ramp, width)
    }

    /// Takes the driver's report and says what to do next.
    pub fn play(&mut self, event: Event) -> (action: Action)
        ensures
            final(self)@ == old(self)@.at(transition(old(self)@, event).0),
            action@ == transition(old(self)@, event).1,
    {
        match self.stage {
            Stage::Idle | Stage::ExtractingAudio | Stage::StartingAudio => self.play_audio(event),
            Stage::OpeningSource | Stage::SelectingTrack | Stage::PreparingTerminal(_) =>
                self.play_video(event),
            Stage::Playing(_, step) => match step {
                Step::ReadingPacket | Step::SendingPacket | Step::SendingEof => self.play_video(
                    event,
                ),
                _ => self.play_frames(event),
            },
            Stage::Restoring(_) | Stage::Stopped(_) => self.end(event),
        }
    }

    /// Gives the session up for `fault`, restoring the terminal first where
    /// it is held.
    fn abort(&mut self, fault: Fault) -> (action: Action)
        ensures
            final(self)@ == old(self)@.at(abort_transition(old(self)@.stage, fault).0),
            action@ == abort_transition(old(self)@.stage, fault).1,
    {
        match self.stage {
            Stage::Stopped(outcome) => Action::Stop(outcome),
            Stage::Restoring(Outcome::Finished) => {
                self.advance(Stage::Stopped(Outcome::Aborted(fault)));
                Action::Stop(Outcome::Aborted(fault))
            },
            Stage::Restoring(Outcome::Aborted(first)) => {
                self.advance(Stage::Stopped(Outcome::Aborted(first)));
                Action::Stop(Outcome::Aborted(first))
            },
            Stage::PreparingTerminal(_) | Stage::Playing(_, _) => {
                self.advance(Stage::Restoring(Outcome::Aborted(fault)));
                Action::RestoreTerminal
            },
            _ => {
                self.advance(Stage::Stopped(Outcome::Aborted(fault)));
                Action::Stop(Outcome::Aborted(fault))
            },
        }
    }

    /// Gives the session up over an event that is not the answer awaited.
    fn reject(&mut self, event: Event) -> (action: Action)
        ensures
            final(self)@ == old(self)@.at(abort_transition(old(self)@.stage, fault_of(event)).0),
            action@ == abort_transition(old(self)@.stage, fault_of(event)).1,
    {
        match event {
            Event::Failed(fault) => self.abort(fault),
            _ => self.abort(Fault::Protocol),
        }
    }

    /// Moves to `stage`.
    fn advance(&mut self, stage: Stage)
        ensures
            final(self)@ == old(self)@.at(stage),
    {
        proof {
            use_type_invariant(&*self);
        }
        self.stage = stage;
    }

    /// The step taken while the audio is being started.
    fn play_audio(&mut self, event: Event) -> (action: Action)
        requires
            state_of(old(self)@.stage) == PlayerState::Idle,
        ensures
            final(self)@ == old(self)@.at(audio_transition(old(self)@.stage, event).0),
            action@ == audio_transition(old(self)@.stage, event).1,
    {
        match (self.stage, event) {
            (Stage::Idle, Event::Start) => {
                self.advance(Stage::ExtractingAudio);
                Action::ExtractAudio
            },
            (Stage::ExtractingAudio, Event::Done) => {
                self.advance(Stage::StartingAudio);
                Action::PlayAudio
            },
            (Stage::StartingAudio, Event::Done) => {
                self.advance(Stage::OpeningSource);
                Action::OpenSource
            },
            (_, event) => self.reject(event),
        }
    }

    /// The step taken while the video is opened and its packets are read.
    fn play_video(&mut self, event: Event) -> (action: Action)
        requires
            state_of(old(self)@.stage) == PlayerState::AudioStarted || (old(self)@.stage
                matches Stage::Playing(_, step) && !draining(step)),
        ensures
            final(self)@ == old(self)@.at(video_transition(old(self)@, event).0),
            action@ == video_transition(old(self)@, event).1,
    {
        match (self.stage, event) {
            (Stage::OpeningSource, Event::Done) => {
                self.advance(Stage::SelectingTrack);
                Action::SelectVideoTrack
            },
            (Stage::SelectingTrack, Event::TrackSelected { stream, frame_rate }) => {
                match frame_interval(frame_rate) {
                    Some(interval) => {
                        self.advance(Stage::PreparingTerminal(Track { stream, interval }));
                        Action::PrepareTerminal
                    },
                    None => self.abort(Fault::TrackSelection),
                }
            },
            (Stage::PreparingTerminal(track), Event::Done) => {
                self.advance(Stage::Playing(track, Step::ReadingPacket));
                Action::ReadPacket
            },
            (Stage::Playing(track, Step::ReadingPacket), Event::Packet { stream }) => {
                if stream == track.stream {
                    self.advance(Stage::Playing(track, Step::SendingPacket));
                    Action::SendPacket
                } else {
                    Action::ReadPacket
                }
            },
            (Stage::Playing(track, Step::ReadingPacket), Event::EndOfInput) => {
                self.advance(Stage::Playing(track, Step::SendingEof));
                Action::SendEof
            },
            (Stage::Playing(track, Step::SendingPacket), Event::Done) => {
                self.advance(Stage::Playing(track, Step::ReceivingFrame { flushing: false }));
                Action::ReceiveFrame { width: self.width, height: self.height }
            },
            (Stage::Playing(track, Step::SendingEof), Event::Done) => {
                self.advance(Stage::Playing(track, Step::ReceivingFrame { flushing: true }));
                Action::ReceiveFrame { width: self.width, height: self.height }
            },
            (_, event) => self.reject(event),
        }
    }

    /// The step taken while the decoder is drained of frames.
    fn play_frames(&mut self, event: Event) -> (action: Action)
        requires
            old(self)@.stage matches Stage::Playing(_, step) && draining(step),
        ensures
            final(self)@ == old(self)@.at(frames_transition(old(self)@, event).0),
            action@ == frames_transition(old(self)@, event).1,
    {
        proof {
            use_type_invariant(&*self);
        }
        match (self.stage, event) {
            (Stage::Playing(track, Step::ReceivingFrame { flushing }), Event::Frame(data)) => {
                match ScaledFrame::new(self.width, self.height, data) {
                    Ok(frame) => {
                        let text = self.frame_to_string(&frame, self.width);
                        self.advance(Stage::Playing(track, Step::Drawing { flushing }));
                        Action::Draw(text)
                    },
                    Err(_) => self.abort(Fault::Frame),
                }
            },
            (Stage::Playing(track, Step::ReceivingFrame { flushing }), Event::NoFrame) => {
                if flushing {
                    self.advance(Stage::Restoring(Outcome::Finished));
                    Action::RestoreTerminal
                } else {
                    self.advance(Stage::Playing(track, Step::ReadingPacket));
                    Action::ReadPacket
                }
            },
            (Stage::Playing(track, Step::Drawing { flushing }), Event::Done) => {
                self.advance(Stage::Playing(track, Step::Sleeping { flushing }));
                Action::Sleep(track.interval)
            },
            (Stage::Playing(track, Step::Sleeping { flushing }), Event::Done) => {
                self.advance(Stage::Playing(track, Step::Clearing { flushing }));
                Action::ClearTerminal
            },
            (Stage::Playing(track, Step::Clearing { flushing }), Event::Done) => {
                self.advance(Stage::Playing(track, Step::ReceivingFrame { flushing }));
                Action::ReceiveFrame { width: self.width, height: self.height }
            },
            (_, event) => self.reject(event),
        }
    }

    /// The step taken once the session is over.
    fn end(&mut self, event: Event) -> (action: Action)
        requires
            old(self)@.stage is Restoring || old(self)@.stage is Stopped,
        ensures
            final(self)@ == old(self)@.at(end_transition(old(self)@.stage, event).0),
            action@ == end_transition(old(self)@.stage, event).1,
    {
        match (self.stage, event) {
            (Stage::Restoring(outcome), Event::Done) => {
                self.advance(Stage::Stopped(outcome));
                Action::Stop(outcome)
            },
            (_, event) => self.reject(event),
        }
    }
}

} // verus!
