use terminal_piano::keyboard::{key_to_freq, key_to_pitch_class, note_name};

const KEYS: [char; 16] = [
    'a', 'w', 's', 'd', 'r', 'f', 't', 'g', 'h', 'u', 'j', 'i', 'k', 'o', 'l', ';',
];

#[test]
fn keys_rise_by_semitones_from_a() {
    for (i, key) in KEYS.iter().enumerate() {
        assert_eq!(key_to_pitch_class(*key), Some(((9 + i) % 12) as u8));
    }
}

#[test]
fn frequencies_are_those_of_the_tempered_scale() {
    let expected: [f32; 16] = [
        220.00, 233.08, 246.94, 261.63, 277.18, 293.66, 311.13, 329.63, 349.23, 369.99, 392.00,
        415.30, 440.00, 466.16, 493.88, 523.25,
    ];
    for (key, hertz) in KEYS.iter().zip(expected) {
        assert_eq!(key_to_freq(*key).unwrap() as f32 / 100.0, hertz);
    }
    assert_eq!(key_to_freq('k'), Some(44000));
}

#[test]
fn other_keys_play_nothing() {
    for key in ['q', 'z', 'A', ' ', '1', '\u{e9}'] {
        assert_eq!(key_to_pitch_class(key), None);
        assert_eq!(key_to_freq(key), None);
    }
}

#[test]
fn pitch_classes_have_names() {
    let names = ["C", "C#", "D", "D#", "E", "F", "F#", "G", "G#", "A", "A#", "B"];
    for (pc, name) in names.iter().enumerate() {
        assert_eq!(note_name(pc as u8), *name);
    }
    assert_eq!(note_name(12), "?");
    assert_eq!(note_name(255), "?");
}

#[test]
fn named_notes_of_the_key_map() {
    let named = |key: char| note_name(key_to_pitch_class(key).unwrap());
    assert_eq!(named('a'), "A");
    assert_eq!(named('w'), "A#");
    assert_eq!(named('s'), "B");
    assert_eq!(named('f'), "D");
    assert_eq!(named('t'), "D#");
    assert_eq!(named('g'), "E");
    assert_eq!(named('h'), "F");
    assert_eq!(named('u'), "F#");
    assert_eq!(named('j'), "G");
    assert_eq!(named('i'), "G#");
    assert_eq!(named('k'), "A");
    assert_eq!(named('o'), "A#");
    assert_eq!(named('l'), "B");
    assert_eq!(named(';'), "C");
    // d is a white key and r the black one above it
    assert_eq!(named('d'), "C");
    assert_eq!(named('r'), "C#");
}
