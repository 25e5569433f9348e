use black_gold::session::{Cues, GameState, Input, Session, MUSIC_DELAY};

fn idle(now: u64) -> Input {
    Input { now, clicked: false, on_music_switch: false, on_sound_switch: false }
}

fn click(now: u64) -> Input {
    Input { now, clicked: true, on_music_switch: false, on_sound_switch: false }
}

#[test]
fn new_session_waits_for_a_click() {
    let session = Session::new(200);
    assert_eq!(
        session,
        Session {
            game_state: GameState::Starting,
            music_on: true,
            sound_on: false,
            started_music: false,
            started_lions: false,
            lions_start_time: None,
        }
    );
}

#[test]
fn sound_effects_start_switched_on_for_fewer_than_ten_balls() {
    assert!(Session::new(0).sound_on);
    assert!(Session::new(9).sound_on);
    assert!(!Session::new(10).sound_on);
}

#[test]
fn idle_frame_before_the_first_click_shows_the_title() {
    let mut session = Session::new(200);
    let cues = session.tick(idle(1_000));
    assert_eq!(
        cues,
        Cues {
            show_music_switch: false,
            music_audible: true,
            play_opening: false,
            start_music: false,
            move_balls: false,
            effects_audible: false,
        }
    );
    assert_eq!(session, Session::new(200));
}

#[test]
fn first_click_begins_play_and_the_opening_sound() {
    let mut session = Session::new(200);
    let cues = session.tick(click(2_500));
    assert!(cues.play_opening);
    assert!(cues.move_balls);
    assert!(!cues.start_music);
    assert_eq!(session.game_state, GameState::Playing);
    assert!(session.started_lions);
    assert_eq!(session.lions_start_time, Some(2_500));
}

#[test]
fn later_clicks_do_not_play_the_opening_sound_again() {
    let mut session = Session::new(200);
    session.tick(click(2_500));
    let cues = session.tick(click(3_000));
    assert!(!cues.play_opening);
    assert!(cues.move_balls);
    assert_eq!(session.lions_start_time, Some(2_500));
}

#[test]
fn play_goes_on_without_clicks() {
    let mut session = Session::new(200);
    session.tick(click(2_500));
    assert!(session.tick(idle(2_600)).move_balls);
    assert_eq!(session.game_state, GameState::Playing);
}

#[test]
fn music_starts_once_the_delay_after_the_opening_sound() {
    let mut session = Session::new(200);
    session.tick(click(2_500));
    assert!(!session.tick(idle(2_500 + MUSIC_DELAY - 1)).start_music);
    assert!(!session.started_music);
    let cues = session.tick(idle(2_500 + MUSIC_DELAY));
    assert!(cues.start_music);
    assert!(!cues.show_music_switch);
    assert!(session.started_music);
    let cues = session.tick(idle(2_501 + MUSIC_DELAY));
    assert!(!cues.start_music);
    assert!(cues.show_music_switch);
}

#[test]
fn music_does_not_start_without_a_click() {
    let mut session = Session::new(200);
    assert!(!session.tick(idle(1_000_000)).start_music);
    assert!(!session.started_music);
}

#[test]
fn music_does_not_start_when_the_clock_runs_back() {
    let mut session = Session::new(200);
    session.tick(click(20_000));
    assert!(!session.tick(idle(1_000)).start_music);
}

#[test]
fn sound_switch_flips_on_a_click() {
    let mut session = Session::new(200);
    let on_switch =
        Input { now: 10, clicked: true, on_music_switch: false, on_sound_switch: true };
    assert!(session.tick(on_switch).effects_audible);
    assert!(session.sound_on);
    assert!(!session.tick(on_switch).effects_audible);
    // the pointer rests on the switch without a click
    let hover = Input { clicked: false, ..on_switch };
    assert!(!session.tick(hover).effects_audible);
}

#[test]
fn music_switch_works_only_once_the_music_has_started() {
    let mut session = Session::new(200);
    let on_switch =
        Input { now: 10, clicked: true, on_music_switch: true, on_sound_switch: false };
    assert!(session.tick(on_switch).music_audible);
    assert!(session.music_on);
    session.tick(idle(10 + MUSIC_DELAY));
    assert!(session.started_music);
    let on_switch = Input { now: 20 + MUSIC_DELAY, ..on_switch };
    assert!(!session.tick(on_switch).music_audible);
    assert!(!session.music_on);
    assert!(session.tick(on_switch).music_audible);
}
