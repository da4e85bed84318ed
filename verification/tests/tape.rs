use terminal_piano::active_notes::ActiveNotes;
use terminal_piano::tape::{
    apply_event, Playback, PlaybackAction, RecordKind, RecordedEvent, Tape,
};
use terminal_piano::waveform::Waveform;

fn event(timestamp: u64, key: char, kind: RecordKind) -> RecordedEvent {
    RecordedEvent { timestamp, key, kind, velocity: 5, waveform: Waveform::Sine }
}

fn tune() -> Vec<RecordedEvent> {
    vec![
        event(100, 'a', RecordKind::Press),
        event(250, 'd', RecordKind::Press),
        event(250, 'a', RecordKind::Release),
    ]
}

#[test]
fn only_a_recording_tape_takes_note() {
    let mut tape = Tape::new();
    tape.note_key('a', RecordKind::Press, 5, Waveform::Sine, 10);
    assert!(tape.recorded.is_empty());
    tape.toggle(1000);
    assert!(tape.recording);
    tape.note_key('a', RecordKind::Press, 5, Waveform::Sine, 1100);
    tape.note_key('d', RecordKind::Press, 5, Waveform::Sine, 1250);
    tape.note_key('a', RecordKind::Release, 5, Waveform::Sine, 1250);
    tape.toggle(2000);
    assert!(!tape.recording);
    tape.note_key('d', RecordKind::Release, 5, Waveform::Sine, 2500);
    assert_eq!(tape.recorded, tune());
}

#[test]
fn a_new_recording_starts_empty() {
    let mut tape = Tape::new();
    tape.toggle(0);
    tape.note_key('a', RecordKind::Press, 9, Waveform::Square, 7);
    tape.toggle(10);
    assert_eq!(tape.recorded.len(), 1);
    tape.toggle(20);
    assert!(tape.recorded.is_empty());
    assert_eq!(tape.start, Some(20));
    tape.note_key('s', RecordKind::Press, 9, Waveform::Square, 15);
    assert_eq!(tape.recorded[0].timestamp, 0);
}

#[test]
fn a_tape_is_played_once() {
    let mut playback = Playback::new(&tune(), false);
    let mut actions = Vec::new();
    for _ in 0..8 {
        actions.push(playback.step(false));
    }
    assert_eq!(
        actions,
        vec![
            PlaybackAction::Sleep(100),
            PlaybackAction::Apply(tune()[0]),
            PlaybackAction::Sleep(150),
            PlaybackAction::Apply(tune()[1]),
            PlaybackAction::Sleep(0),
            PlaybackAction::Apply(tune()[2]),
            PlaybackAction::Finish,
            PlaybackAction::Finish,
        ]
    );
}

#[test]
fn a_tape_that_is_played_once_can_be_called_off() {
    for steps in 0..6 {
        let mut playback = Playback::new(&tune(), false);
        for _ in 0..steps {
            assert_ne!(playback.step(false), PlaybackAction::Finish);
        }
        assert_eq!(playback.step(true), PlaybackAction::Finish);
    }
}

#[test]
fn a_loop_goes_on_until_it_is_called_off() {
    let mut playback = Playback::new(&tune(), true);
    for _ in 0..5 {
        assert_eq!(playback.step(false), PlaybackAction::Sleep(100));
        assert_eq!(playback.step(false), PlaybackAction::Apply(tune()[0]));
        assert_eq!(playback.step(false), PlaybackAction::Sleep(150));
        assert_eq!(playback.step(false), PlaybackAction::Apply(tune()[1]));
        assert_eq!(playback.step(false), PlaybackAction::Sleep(0));
        assert_eq!(playback.step(false), PlaybackAction::Apply(tune()[2]));
    }
    assert_eq!(playback.step(false), PlaybackAction::Sleep(100));
    // called off during the wait: the event is not played any more
    assert_eq!(playback.step(true), PlaybackAction::Finish);
}

#[test]
fn a_loop_can_be_called_off_at_the_end_of_the_tape() {
    let mut playback = Playback::new(&vec![event(5, 'a', RecordKind::Press)], true);
    assert_eq!(playback.step(false), PlaybackAction::Sleep(5));
    assert_eq!(playback.step(false), PlaybackAction::Apply(event(5, 'a', RecordKind::Press)));
    assert_eq!(playback.step(true), PlaybackAction::Finish);
}

#[test]
fn timestamps_that_fall_need_no_wait() {
    let tape = vec![event(50, 'a', RecordKind::Press), event(20, 'a', RecordKind::Release)];
    let mut playback = Playback::new(&tape, false);
    assert_eq!(playback.step(false), PlaybackAction::Sleep(50));
    playback.step(false);
    assert_eq!(playback.step(false), PlaybackAction::Sleep(0));
}

#[test]
fn recorded_events_strike_and_release() {
    let mut notes = ActiveNotes::new();
    apply_event(&mut notes, event(0, 'a', RecordKind::Press));
    apply_event(&mut notes, event(0, 'd', RecordKind::Press));
    assert_eq!(notes.collect_pressed(), vec!['a', 'd']);
    apply_event(&mut notes, event(0, 'a', RecordKind::Release));
    apply_event(&mut notes, event(0, 's', RecordKind::Release));
    assert_eq!(notes.collect_pressed(), vec!['d']);
    assert_eq!(notes.len(), 2);
}
