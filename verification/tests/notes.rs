use terminal_piano::active_notes::ActiveNotes;
use terminal_piano::note::{Note, Stage, FULL_VOLUME, SILENCE, SUSTAIN_VOLUME};
use terminal_piano::waveform::Waveform;

fn sorted(notes: &ActiveNotes) -> Vec<char> {
    let mut keys = notes.collect_pressed();
    keys.sort();
    keys
}

fn stage_of(notes: &ActiveNotes, key: char) -> Option<Stage> {
    (0..notes.len()).map(|i| notes.entry(i)).find(|(k, _)| *k == key).map(|(_, n)| n.stage)
}

#[test]
fn bit_patterns_are_those_of_the_volumes() {
    assert_eq!(0.0f32.to_bits(), SILENCE);
    assert_eq!(1.0f32.to_bits(), FULL_VOLUME);
    assert_eq!(0.70f32.to_bits(), SUSTAIN_VOLUME);
}

#[test]
fn a_struck_note_is_silent_and_attacks() {
    let note = Note::new(5, Waveform::Square);
    assert_eq!(note.phase, SILENCE);
    assert_eq!(note.amplitude, SILENCE);
    assert_eq!(note.stage, Stage::Attack);
    assert_eq!(note.velocity, 5);
    assert_eq!(note.waveform, Waveform::Square);
    assert!(!note.key_released);
    assert!(!note.is_finished());
}

#[test]
fn the_envelope_goes_through_its_stages() {
    let mut note = Note::new(9, Waveform::Sine);
    note.settle(0.5f32.to_bits());
    assert_eq!((note.stage, note.amplitude), (Stage::Attack, 0.5f32.to_bits()));
    note.settle(1.25f32.to_bits());
    assert_eq!((note.stage, note.amplitude), (Stage::Decay, FULL_VOLUME));
    note.settle(0.9f32.to_bits());
    assert_eq!((note.stage, note.amplitude), (Stage::Decay, 0.9f32.to_bits()));
    note.settle(0.7f32.to_bits());
    assert_eq!((note.stage, note.amplitude), (Stage::Sustain, SUSTAIN_VOLUME));
    note.settle(0.1f32.to_bits());
    assert_eq!((note.stage, note.amplitude), (Stage::Sustain, SUSTAIN_VOLUME));
    note.release();
    assert!(!note.is_finished());
    note.settle(0.2f32.to_bits());
    assert_eq!((note.stage, note.amplitude), (Stage::Release, 0.2f32.to_bits()));
    note.settle((-0.01f32).to_bits());
    assert_eq!((note.stage, note.amplitude), (Stage::Release, SILENCE));
    assert!(note.is_finished());
}

#[test]
fn bit_comparisons_agree_with_floats() {
    let values = [
        0.0f32, -0.0, 1.0, -1.0, 0.7, 0.699, 0.71, 1.5, f32::MIN_POSITIVE, -f32::MIN_POSITIVE,
        f32::INFINITY, f32::NEG_INFINITY, f32::NAN, -f32::NAN, 0.99999994, 1.0000001, -3.5e-30,
    ];
    for value in values {
        let mut attack = Note::new(1, Waveform::Sine);
        attack.settle(value.to_bits());
        assert_eq!(attack.stage == Stage::Decay, value >= 1.0);

        let mut decay = Note::new(1, Waveform::Sine);
        decay.stage = Stage::Decay;
        decay.settle(value.to_bits());
        assert_eq!(decay.stage == Stage::Sustain, value <= 0.70);

        let mut fading = Note::new(1, Waveform::Sine);
        fading.release();
        fading.settle(value.to_bits());
        let expected = if value < 0.0 { 0.0 } else { value };
        assert_eq!(fading.amplitude, expected.to_bits());
        assert_eq!(fading.is_finished(), expected <= 0.0);
    }
}

#[test]
fn a_key_sounds_once() {
    let mut notes = ActiveNotes::new();
    assert_eq!(notes.len(), 0);
    notes.strike('a', 5, Waveform::Sine);
    notes.strike('d', 5, Waveform::Sine);
    notes.strike('a', 9, Waveform::Square);
    assert_eq!(notes.len(), 2);
    assert_eq!(notes.entry(0), ('a', Note::new(5, Waveform::Sine)));
    assert_eq!(sorted(&notes), vec!['a', 'd']);
}

#[test]
fn a_fading_key_is_not_struck_again() {
    let mut notes = ActiveNotes::new();
    notes.strike('a', 5, Waveform::Sine);
    notes.key_up('a', false);
    notes.strike('a', 5, Waveform::Sine);
    assert_eq!(stage_of(&notes, 'a'), Some(Stage::Release));
    assert_eq!(sorted(&notes), Vec::<char>::new());
}

#[test]
fn letting_go_ends_only_that_note() {
    let mut notes = ActiveNotes::new();
    for key in ['a', 's', 'd'] {
        notes.strike(key, 5, Waveform::Sine);
    }
    notes.key_up('s', false);
    notes.key_up('z', false);
    assert_eq!(sorted(&notes), vec!['a', 'd']);
    assert_eq!(notes.len(), 3);
}

#[test]
fn the_pedal_holds_notes_until_it_goes_up() {
    let mut notes = ActiveNotes::new();
    for key in ['a', 's', 'd'] {
        notes.strike(key, 5, Waveform::Sine);
    }
    notes.key_up('a', true);
    notes.key_up('d', true);
    assert_eq!(sorted(&notes), vec!['a', 'd', 's']);
    notes.pedal_up();
    assert_eq!(sorted(&notes), vec!['s']);
}

#[test]
fn everything_can_fade() {
    let mut notes = ActiveNotes::new();
    for key in ['a', 's', 'd'] {
        notes.strike(key, 5, Waveform::Sine);
    }
    notes.fade('s');
    assert_eq!(sorted(&notes), vec!['a', 'd']);
    notes.fade_all();
    assert_eq!(sorted(&notes), Vec::<char>::new());
    assert_eq!(notes.len(), 3);
}

#[test]
fn finished_notes_are_dropped() {
    let mut notes = ActiveNotes::new();
    for key in ['a', 's', 'd', 'f'] {
        notes.strike(key, 5, Waveform::Sine);
    }
    for i in 0..4 {
        let note = notes.settle(i, 0.25f32.to_bits());
        assert_eq!(note.amplitude, 0.25f32.to_bits());
        notes.set_phase(i, 0.5f32.to_bits());
    }
    notes.fade('a');
    notes.fade('d');
    notes.settle(2, (-1.0f32).to_bits());
    notes.discard_finished();
    assert_eq!(notes.len(), 3);
    assert_eq!(stage_of(&notes, 'a'), Some(Stage::Release));
    assert_eq!(stage_of(&notes, 'd'), None);
    assert_eq!(sorted(&notes), vec!['f', 's']);
    assert_eq!(notes.entry(0).1.phase, 0.5f32.to_bits());
}

#[test]
fn volumes_stay_between_silence_and_full_volume() {
    let mut note = Note::new(9, Waveform::Sine);
    let mut stages = Vec::new();
    for i in 0..40 {
        if i == 30 {
            note.release();
        }
        let old = f32::from_bits(note.amplitude);
        let moved = match note.stage {
            Stage::Attack => old + 0.3,
            Stage::Decay => old - 0.07,
            Stage::Sustain => old,
            Stage::Release => old - 0.2,
        };
        let before = note.stage;
        note.settle(moved.to_bits());
        let new = f32::from_bits(note.amplitude);
        assert!((0.0..=1.0).contains(&new));
        if before == Stage::Attack {
            assert_eq!(note.stage == Stage::Decay, new == 1.0);
        }
        if before == Stage::Decay {
            assert_eq!(note.stage == Stage::Sustain, new == 0.70);
        }
        if stages.last() != Some(&note.stage) {
            stages.push(note.stage);
        }
    }
    assert_eq!(stages, vec![Stage::Attack, Stage::Decay, Stage::Sustain, Stage::Release]);
    assert!(note.is_finished());
}

#[test]
fn a_finished_note_stays_finished() {
    let mut note = Note::new(9, Waveform::Sine);
    assert!(!note.is_finished());
    note.release();
    assert!(note.is_finished());
    for moved in [-0.5f32, 0.0, -0.0, f32::NEG_INFINITY] {
        note.settle(moved.to_bits());
        assert!(note.is_finished());
        assert_eq!(f32::from_bits(note.amplitude), 0.0);
    }
}
