//! What the game decides from frame to frame besides the simulation: when
//! play begins, when the opening sound and the music start, and what the two
//! switches for music and sound effects do.

use vstd::prelude::*;

verus! {

/// Time, in milliseconds, between the opening sound and the music.
pub const MUSIC_DELAY: u64 = 15_000;

/// Largest population with which sound effects are switched on from the
/// start, plus one.
pub const QUIET_FROM: usize = 10;

/// Whether a game waits for its first click or is being played.
#[derive(Clone, Copy, Debug, PartialEq, Eq, Structural)]
pub enum GameState {
    /// The title is shown and the balls rest.
    Starting,
    /// The balls move.
    Playing,
}

/// What the player did in a frame, and when.
#[derive(Clone, Copy, Debug, PartialEq, Eq, Structural)]
pub struct Input {
    /// Time of the frame, in milliseconds since the game began.
    pub now: u64,
    /// The player clicked or tapped somewhere.
    pub clicked: bool,
    /// The click fell on the switch for the music.
    pub on_music_switch: bool,
    /// The click fell on the switch for the sound effects.
    pub on_sound_switch: bool,
}

/// What the frame loop is to do in a frame.
#[derive(Clone, Copy, Debug, PartialEq, Eq, Structural)]
pub struct Cues {
    /// Show the switch for the music.
    pub show_music_switch: bool,
    /// Let the music be heard, if it plays.
    pub music_audible: bool,
    /// Play the opening sound, once.
    pub play_opening: bool,
    /// Start the music, looping.
    pub start_music: bool,
    /// Move the balls; otherwise show the title over the resting board.
    pub move_balls: bool,
    /// Let the bounces be heard.
    pub effects_audible: bool,
}

/// The state of a game between frames.
#[derive(Clone, Copy, Debug, PartialEq, Eq)]
pub struct Session {
    /// Whether play has begun.
    pub game_state: GameState,
    /// The switch for the music.
    pub music_on: bool,
    /// The switch for the sound effects.
    pub sound_on: bool,
    /// The music has been started.
    pub started_music: bool,
    /// The opening sound has been started.
    pub started_lions: bool,
    /// When the opening sound was started.
    pub lions_start_time: Option<u64>,
}

/// The music is due at `now`: the opening sound began at least the delay
/// before.
pub open spec fn music_due(lions_start_time: Option<u64>, now: u64) -> bool {
    lions_start_time matches Some(start) && now - start >= MUSIC_DELAY
}

/// The session after a frame with `input`.
///
/// A click on a switch flips it; the switch for the music exists only once
/// the music has started. Any click begins play, and the first click starts
/// the opening sound. The music starts once, when it is due.
pub open spec fn spec_tick(session: Session, input: Input) -> Session {
    let music_on = if session.started_music && input.clicked && input.on_music_switch {
        !session.music_on
    } else {
        session.music_on
    };
    let sound_on = if input.clicked && input.on_sound_switch {
        !session.sound_on
    } else {
        session.sound_on
    };
    let lions_start_time = if input.clicked && !session.started_lions {
        Some(input.now)
    } else {
        session.lions_start_time
    };
    Session {
        game_state: if input.clicked {
            GameState::Playing
        } else {
            session.game_state
        },
        music_on,
        sound_on,
        started_music: session.started_music || music_due(lions_start_time, input.now),
        started_lions: session.started_lions || input.clicked,
        lions_start_time,
    }
}

/// What the frame loop is to do in a frame with `input`.
pub open spec fn spec_cues(session: Session, input: Input) -> Cues {
    let after = spec_tick(session, input);
    Cues {
        show_music_switch: session.started_music,
        music_audible: after.music_on,
        play_opening: input.clicked && !session.started_lions,
        start_music: !session.started_music && after.started_music,
        move_balls: after.game_state == GameState::Playing,
        effects_audible: after.sound_on,
    }
}

impl Session {
    /// The time of the opening sound is known just when the sound has been
    /// started, and the music has not been started before it.
    pub open spec fn wf(&self) -> bool {
        &&& self.started_lions <==> self.lions_start_time is Some
        &&& self.started_music ==> self.started_lions
    }

    /// The session of a game that has not begun, for a population of
    /// `population` balls: the music is switched on, the sound effects only
    /// for a population small enough to be listened to.
    pub fn new(population: usize) -> (session: Session)
        ensures
            session == (Session {
                game_state: GameState::Starting,
                music_on: true,
                sound_on: population < QUIET_FROM,
                started_music: false,
                started_lions: false,
                lions_start_time: None,
            }),
            session.wf(),
    {
        Session {
            game_state: GameState::Starting,
            music_on: true,
            sound_on: population < QUIET_FROM,
            started_music: false,
            started_lions: false,
            lions_start_time: None,
        }
    }

    /// Takes the session through a frame with `input` and says what the frame
    /// loop is to do.
    pub fn tick(&mut self, input: Input) -> (cues: Cues)
        ensures
            *final(self) == spec_tick(*old(self), input),
            cues == spec_cues(*old(self), input),
            old(self).wf() ==> final(self).wf(),
    {
        let show_music_switch: bool = self.started_music;
        if self.started_music && input.clicked && input.on_music_switch {
            self.music_on = !self.music_on;
        }
        if input.clicked && input.on_sound_switch {
            self.sound_on = !self.sound_on;
        }
        let mut play_opening: bool = false;
        if input.clicked {
            if !self.started_lions {
                self.started_lions = true;
                self.lions_start_time = Some(input.now);
                play_opening = true;
            }
            self.game_state = GameState::Playing;
        }
        let mut start_music: bool = false;
        if !self.started_music {
            match self.lions_start_time {
                Some(start) => {
                    if input.now >= start && input.now - start >= MUSIC_DELAY {
                        self.started_music = true;
                        start_music = true;
                    }
                },
                None => {},
            }
        }
        let move_balls: bool = match self.game_state {
            GameState::Starting => false,
            GameState::Playing => true,
        };
        Cues {
            show_music_switch,
            music_audible: self.music_on,
            play_opening,
            start_music,
            move_balls,
            effects_audible: self.sound_on,
        }
    }
}

} // verus!
