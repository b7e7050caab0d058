//! Whole sessions: what holds of every run of the player, whatever the
//! driver reports.

use vstd::prelude::*;
use crate::pacing::interval_of;
use crate::player::{
    lemma_track_fixed,
    transition,
    ActionView,
    Event,
    PlayerView,
    Stage,
    Step,
    Track,
};
use crate::raster::rendered;

verus! {

/// The player as it stands after the events, reported in order.
pub open spec fn after(start: PlayerView, events: Seq<Event>) -> PlayerView
    decreases events.len(),
{
    if events.len() == 0 {
        start
    } else {
        let before = after(start, events.drop_last());
        before.at(transition(before, events.last()).0)
    }
}

/// The requests that the player makes in answer to the events, in order.
pub open spec fn requests(start: PlayerView, events: Seq<Event>) -> Seq<ActionView>
    decreases events.len(),
{
    if events.len() == 0 {
        Seq::empty()
    } else {
        requests(start, events.drop_last()).push(
            transition(after(start, events.drop_last()), events.last()).1,
        )
    }
}

/// Whether the session has not got as far as touching the terminal.
pub open spec fn before_terminal(stage: Stage) -> bool {
    stage is Idle || stage is ExtractingAudio || stage is StartingAudio || stage is OpeningSource
        || stage is SelectingTrack
}

/// Each event gets one request in answer, the one that the transition
/// gives from the stage reached by then.
pub proof fn lemma_request_at(start: PlayerView, events: Seq<Event>, index: int)
    requires
        0 <= index < events.len(),
    ensures
        requests(start, events).len() == events.len(),
        requests(start, events)[index] == transition(
            after(start, events.take(index)),
            events[index],
        ).1,
        after(start, events.take(index + 1)).stage == transition(
            after(start, events.take(index)),
            events[index],
        ).0,
    decreases events.len(),
{
    let shorter = events.drop_last();
    lemma_requests_len(start, events);
    if index == events.len() - 1 {
        assert(events.take(index) =~= shorter);
        assert(events.take(index + 1) =~= events);
    } else {
        lemma_request_at(start, shorter, index);
        assert(shorter.take(index) =~= events.take(index));
        assert(shorter.take(index + 1) =~= events.take(index + 1));
    }
}

/// As many requests as events.
pub proof fn lemma_requests_len(start: PlayerView, events: Seq<Event>)
    ensures
        requests(start, events).len() == events.len(),
    decreases events.len(),
{
    if events.len() > 0 {
        lemma_requests_len(start, events.drop_last());
    }
}

/// What the stage says of the requests made so far.
spec fn terminal_accounted(stage: Stage, asked: Seq<ActionView>) -> bool {
    &&& before_terminal(stage) ==> forall|i: int|
        0 <= i < asked.len() ==> !(#[trigger] asked[i] is PrepareTerminal)
    &&& stage is Restoring ==> asked.len() > 0 && asked.last() is RestoreTerminal
    &&& stage is Stopped ==> forall|i: int|
        0 <= i < asked.len() && #[trigger] asked[i] is PrepareTerminal ==> exists|j: int|
            i < j < asked.len() && #[trigger] asked[j] is RestoreTerminal
}

/// Every stage of a session accounts for the terminal.
proof fn lemma_terminal_accounted(start: PlayerView, events: Seq<Event>)
    requires
        start.stage == Stage::Idle,
    ensures
        terminal_accounted(after(start, events).stage, requests(start, events)),
    decreases events.len(),
{
    if events.len() > 0 {
        let shorter = events.drop_last();
        lemma_terminal_accounted(start, shorter);
        lemma_requests_len(start, shorter);
        let before = after(start, shorter);
        let asked = requests(start, shorter);
        let next = transition(before, events.last());
        let all = requests(start, events);
        assert(all == asked.push(next.1));
        assert forall|i: int| 0 <= i < asked.len() implies all[i] == asked[i] by {}
        if next.0 is Stopped {
            assert forall|i: int|
                0 <= i < all.len() && #[trigger] all[i] is PrepareTerminal implies exists|j: int|
                i < j < all.len() && #[trigger] all[j] is RestoreTerminal by {
                assert(i < asked.len());
                assert(asked[i] is PrepareTerminal);
                if before.stage is Restoring {
                    assert(all[asked.len() - 1] is RestoreTerminal);
                } else {
                    let j = choose|j: int|
                        i < j < asked.len() && #[trigger] asked[j] is RestoreTerminal;
                    assert(all[j] is RestoreTerminal);
                }
            }
        }
    }
}

/// A session that has stopped has given the terminal back: whatever the
/// driver reported along the way, a request to prepare the terminal is
/// followed by a request to restore it before the session stops.
pub proof fn lemma_session_restores_terminal(start: PlayerView, events: Seq<Event>)
    requires
        start.stage == Stage::Idle,
        after(start, events).stage is Stopped,
    ensures
        forall|i: int|
            0 <= i < requests(start, events).len() && #[trigger] requests(start, events)[i]
                is PrepareTerminal ==> exists|j: int|
                i < j < requests(start, events).len() && #[trigger] requests(start, events)[j]
                    is RestoreTerminal,
{
    lemma_terminal_accounted(start, events);
}

/// The track that a stage holds, while the terminal is being prepared and
/// while the video plays.
pub open spec fn track_of(stage: Stage) -> Option<Track> {
    match stage {
        Stage::PreparingTerminal(track) => Some(track),
        Stage::Playing(track, _) => Some(track),
        _ => None,
    }
}

/// What the stage says of the intervals slept so far.
spec fn intervals_accounted(stage: Stage, asked: Seq<ActionView>) -> bool {
    &&& before_terminal(stage) ==> forall|i: int|
        0 <= i < asked.len() ==> !(#[trigger] asked[i] is Sleep)
    &&& track_of(stage) matches Some(track) ==> forall|i: int|
        0 <= i < asked.len() && #[trigger] asked[i] is Sleep ==> asked[i]
            == ActionView::Sleep(track.interval)
    &&& forall|i: int, j: int|
        0 <= i < asked.len() && 0 <= j < asked.len() && #[trigger] asked[i] is Sleep
            && #[trigger] asked[j] is Sleep ==> asked[i] == asked[j]
}

/// Every stage of a session accounts for the intervals slept.
proof fn lemma_intervals_accounted(start: PlayerView, events: Seq<Event>)
    requires
        start.stage == Stage::Idle,
    ensures
        intervals_accounted(after(start, events).stage, requests(start, events)),
    decreases events.len(),
{
    if events.len() > 0 {
        let shorter = events.drop_last();
        lemma_intervals_accounted(start, shorter);
        lemma_requests_len(start, shorter);
        let asked = requests(start, shorter);
        let all = requests(start, events);
        assert(all == asked.push(transition(after(start, shorter), events.last()).1));
        assert forall|i: int| 0 <= i < asked.len() implies all[i] == asked[i] by {}
    }
}

/// The frame interval is fixed for the session: every sleep of a session
/// lasts the same interval.
pub proof fn lemma_session_interval_fixed(
    start: PlayerView,
    events: Seq<Event>,
    first: int,
    second: int,
)
    requires
        start.stage == Stage::Idle,
        0 <= first < events.len(),
        0 <= second < events.len(),
        requests(start, events)[first] is Sleep,
        requests(start, events)[second] is Sleep,
    ensures
        requests(start, events)[first] == requests(start, events)[second],
{
    lemma_intervals_accounted(start, events);
    lemma_requests_len(start, events);
}

/// What the stage says of the track selected so far.
spec fn selection_accounted(stage: Stage, events: Seq<Event>, asked: Seq<ActionView>) -> bool {
    track_of(stage) matches Some(track) ==> exists|k: int|
        0 <= k < events.len() && selects(events[k], #[trigger] asked[k], track)
}

/// Whether the event reports the track with a valid frame rate and the
/// request made in answer prepares the terminal.
pub open spec fn selects(event: Event, answer: ActionView, track: Track) -> bool {
    event matches Event::TrackSelected { stream, frame_rate } && frame_rate.is_valid()
        && track == (Track { stream, interval: interval_of(frame_rate) }) && answer
        is PrepareTerminal
}

/// Every stage of a session that holds a track accounts for its selection.
proof fn lemma_selection_accounted(start: PlayerView, events: Seq<Event>)
    requires
        start.stage == Stage::Idle,
    ensures
        selection_accounted(after(start, events).stage, events, requests(start, events)),
    decreases events.len(),
{
    if events.len() > 0 {
        let shorter = events.drop_last();
        lemma_selection_accounted(start, shorter);
        lemma_requests_len(start, shorter);
        let before = after(start, shorter);
        let asked = requests(start, shorter);
        let all = requests(start, events);
        let next = transition(before, events.last());
        assert(all == asked.push(next.1));
        if let Some(track) = track_of(next.0) {
            if track_of(before.stage) is Some {
                lemma_track_fixed(before, events.last());
                let k = choose|k: int|
                    0 <= k < shorter.len() && selects(shorter[k], #[trigger] asked[k], track);
                assert(selects(events[k], all[k], track));
            } else {
                let k = events.len() - 1;
                assert(selects(events[k], all[k], track));
            }
        }
    }
}

/// Nothing is drawn, and no interval slept, before a video track with a
/// valid frame rate has been selected and the terminal prepared; and each
/// sleep lasts the frame interval of that track's frame rate.
pub proof fn lemma_session_selects_first(start: PlayerView, events: Seq<Event>, index: int)
    requires
        start.stage == Stage::Idle,
        0 <= index < events.len(),
        requests(start, events)[index] is Draw || requests(start, events)[index] is Sleep,
    ensures
        exists|k: int, track: Track|
            0 <= k < index && #[trigger] selects(events[k], requests(start, events)[k], track) && (
            requests(start, events)[index] is Sleep ==> requests(start, events)[index]
                == ActionView::Sleep(track.interval)),
{
    let earlier = events.take(index);
    lemma_request_at(start, events, index);
    lemma_selection_accounted(start, earlier);
    lemma_requests_len(start, earlier);
    let before = after(start, earlier);
    let track = track_of(before.stage)->Some_0;
    let k = choose|k: int|
        0 <= k < earlier.len() && selects(
            earlier[k],
            #[trigger] requests(start, earlier)[k],
            track,
        );
    lemma_request_at(start, events, k);
    lemma_request_at(start, earlier, k);
    assert(earlier.take(k) =~= events.take(k));
    assert(selects(events[k], requests(start, events)[k], track));
}

/// Frames reach the screen one at a time and in the order decoded: every
/// request to draw answers the report of a frame and carries that frame's
/// text, and every sleep comes directly after a request to draw. So a report
/// of no frame never draws and never lets the frame interval pass.
pub proof fn lemma_session_draws_frames(start: PlayerView, events: Seq<Event>, index: int)
    requires
        start.stage == Stage::Idle,
        0 <= index < events.len(),
    ensures
        requests(start, events).len() == events.len(),
        requests(start, events)[index] matches ActionView::Draw(text) ==> (events[index]
            matches Event::Frame(data) && text == rendered(
            data@,
            start.ramp,
            start.width as nat,
        )),
        requests(start, events)[index] is Sleep ==> index >= 1 && requests(
            start,
            events,
        )[index - 1] is Draw && events[index] is Done,
        events[index] is NoFrame ==> !(requests(start, events)[index] is Draw) && !(requests(
            start,
            events,
        )[index] is Sleep),
{
    lemma_request_at(start, events, index);
    lemma_after_keeps_setup(start, events.take(index));
    if requests(start, events)[index] is Sleep {
        let before = after(start, events.take(index));
        assert(before.stage matches Stage::Playing(_, Step::Drawing { .. }));
        lemma_drawing_follows_draw(start, events.take(index));
        lemma_requests_len(start, events.take(index));
        lemma_request_at(start, events, index - 1);
        lemma_request_at(start, events.take(index), index - 1);
        assert(events.take(index).take(index - 1) =~= events.take(index - 1));
    }
}

/// The ramp and the raster stay as they were set up.
pub proof fn lemma_after_keeps_setup(start: PlayerView, events: Seq<Event>)
    ensures
        after(start, events).ramp == start.ramp,
        after(start, events).width == start.width,
        after(start, events).height == start.height,
    decreases events.len(),
{
    if events.len() > 0 {
        lemma_after_keeps_setup(start, events.drop_last());
    }
}

/// The player waits for a frame to be drawn only after asking to draw it.
proof fn lemma_drawing_follows_draw(start: PlayerView, events: Seq<Event>)
    requires
        start.stage == Stage::Idle,
        after(start, events).stage matches Stage::Playing(_, Step::Drawing { .. }),
    ensures
        events.len() >= 1,
        requests(start, events).last() is Draw,
{
}

} // verus!
