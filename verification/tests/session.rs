use ascplayer::pacing::FrameRate;
use ascplayer::player::{Action, Event, Fault, Outcome, Player, PlayerState, Stage};
use ascplayer::ramp::GlyphRamp;

/// A small deterministic generator of event sequences.
struct Dice(u64);

impl Dice {
    fn roll(&mut self, sides: u64) -> u64 {
        self.0 = self.0.wrapping_mul(6364136223846793005).wrapping_add(1442695040888963407);
        (self.0 >> 33) % sides
    }

    fn fault(&mut self) -> Fault {
        match self.roll(6) {
            0 => Fault::Initialization,
            1 => Fault::Source,
            2 => Fault::TrackSelection,
            3 => Fault::Decode,
            4 => Fault::Device,
            _ => Fault::Rendering,
        }
    }

    /// Mostly the answer that the request calls for, now and then another.
    fn answer(&mut self, asked: &Action) -> Event {
        match self.roll(40) {
            0 => return Event::Failed(self.fault()),
            1 => return Event::Done,
            2 => return Event::NoFrame,
            3 => return Event::Frame(vec![0; 12]),
            4 => return Event::Start,
            5 => return Event::EndOfInput,
            _ => {}
        }
        match asked {
            Action::SelectVideoTrack => {
                let numerator = self.roll(60) as i32;
                Event::TrackSelected {
                    stream: self.roll(2) as usize,
                    frame_rate: FrameRate { numerator, denominator: 1 },
                }
            }
            Action::ReadPacket => {
                if self.roll(8) == 0 {
                    Event::EndOfInput
                } else {
                    Event::Packet { stream: self.roll(2) as usize }
                }
            }
            Action::ReceiveFrame { width, height } => match self.roll(3) {
                0 => Event::NoFrame,
                _ => {
                    let len = (width * height * 3) as usize;
                    let short = if self.roll(30) == 0 { 1 } else { 0 };
                    Event::Frame(vec![self.roll(256) as u8; len - short])
                }
            },
            _ => Event::Done,
        }
    }
}

fn is_frame(event: &Event) -> bool {
    matches!(event, Event::Frame(_))
}

#[test]
fn sessions_keep_their_promises_whatever_is_reported() {
    let mut dice = Dice(7);
    let mut finished = 0;
    let mut aborted = 0;
    for _ in 0..3000 {
        let mut player = Player::new(GlyphRamp::new("ab").unwrap(), 1, 2).unwrap();
        let mut asked: Vec<Action> = Vec::new();
        let mut event = Event::Start;
        let mut before = player.state();
        loop {
            let is_frame_event = is_frame(&event);
            let action = player.play(event);
            let state = player.state();
            assert!(rank(state) >= rank(before));
            before = state;
            if let Action::Draw(text) = &action {
                assert!(is_frame_event);
                assert_eq!(text.chars().count(), 6);
            }
            if let Action::Sleep(_) = &action {
                assert!(matches!(asked.last(), Some(Action::Draw(_))));
            }
            let stopped = matches!(action, Action::Stop(_));
            assert_eq!(stopped, matches!(player.stage(), Stage::Stopped(_)));
            asked.push(action);
            if stopped || asked.len() > 400 {
                break;
            }
            event = dice.answer(asked.last().unwrap());
        }
        let prepared = asked.iter().position(|a| *a == Action::PrepareTerminal);
        let restored = asked.iter().position(|a| *a == Action::RestoreTerminal);
        if let Some(Action::Stop(outcome)) = asked.last() {
            if let Some(at) = prepared {
                assert!(restored.unwrap() > at);
            }
            match outcome {
                Outcome::Finished => finished += 1,
                Outcome::Aborted(_) => aborted += 1,
            }
        }
        let sleeps: Vec<&Action> =
            asked.iter().filter(|a| matches!(a, Action::Sleep(_))).collect();
        for sleep in &sleeps {
            assert_eq!(*sleep, sleeps[0]);
        }
        let draws = asked.iter().filter(|a| matches!(a, Action::Draw(_))).count();
        assert!(sleeps.len() <= draws);
        if draws > 0 {
            assert!(prepared.is_some());
        }
    }
    assert!(finished > 0);
    assert!(aborted > 0);
}

fn rank(state: PlayerState) -> u32 {
    match state {
        PlayerState::Idle => 0,
        PlayerState::AudioStarted => 1,
        PlayerState::VideoPlaying => 2,
        PlayerState::Finished => 3,
        PlayerState::Aborted => 4,
    }
}
