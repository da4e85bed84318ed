use terminal_piano::chord::detect_chord;

#[test]
fn silence_has_no_name() {
    assert_eq!(detect_chord(&[], 0), "");
    assert_eq!(detect_chord(&['q', 'z'], 0), "");
}

#[test]
fn single_notes_are_named() {
    assert_eq!(detect_chord(&['d'], 0), "C");
    assert_eq!(detect_chord(&['a', 'k'], 0), "A");
    assert_eq!(detect_chord(&['d', 'q'], 1), "C#");
}

#[test]
fn every_shape_is_found() {
    assert_eq!(detect_chord(&['d', 'g', 'j'], 0), "C maj");
    assert_eq!(detect_chord(&['d', 't', 'j'], 0), "C min");
    assert_eq!(detect_chord(&['d', 't', 'u'], 0), "C dim");
    assert_eq!(detect_chord(&['d', 'g', 'i'], 0), "C aug");
    assert_eq!(detect_chord(&['d', 'f', 'j'], 0), "C sus2");
    assert_eq!(detect_chord(&['d', 'h', 'j'], 0), "C sus4");
    assert_eq!(detect_chord(&['d', 'g', 'j', 'l'], 0), "C maj7");
    assert_eq!(detect_chord(&['d', 't', 'j', 'w'], 0), "C min7");
    assert_eq!(detect_chord(&['d', 'g', 'j', 'w'], 0), "C 7");
    assert_eq!(detect_chord(&['d', 't', 'u', 'a'], 0), "C dim7");
    assert_eq!(detect_chord(&['d', 't', 'u', 'w'], 0), "C m7b5");
}

#[test]
fn inversions_and_octaves_keep_the_name() {
    assert_eq!(detect_chord(&['j', 'd', 'g'], 0), "C maj");
    assert_eq!(detect_chord(&[';', 'g', 'j', 'd', 'g'], 0), "C maj");
    assert_eq!(detect_chord(&['a', 'd', 'g'], 0), "A min");
    assert_eq!(detect_chord(&['k', 'd', 'g'], 0), "A min");
}

#[test]
fn ambiguous_chords_take_the_lowest_root() {
    // G sus4 holds the same notes as C sus2
    assert_eq!(detect_chord(&['j', ';', 'f'], 0), "C sus2");
    // the root of a symmetric chord is its lowest pitch class
    assert_eq!(detect_chord(&['g', 'i', ';'], 0), "C aug");
}

#[test]
fn transposition_moves_the_root() {
    let names = [
        "C maj", "C# maj", "D maj", "D# maj", "E maj", "F maj", "F# maj", "G maj", "G# maj",
        "A maj", "A# maj", "B maj",
    ];
    for t in -12..=12i32 {
        let name = names[t.rem_euclid(12) as usize];
        assert_eq!(detect_chord(&['d', 'g', 'j'], t), name);
    }
    assert_eq!(detect_chord(&['d', 'g', 'j'], 5), detect_chord(&['d', 'g', 'j'], 17));
}

#[test]
fn extreme_transpositions_work_where_they_fit() {
    assert_eq!(detect_chord(&['d'], i32::MAX), "G");
    assert_eq!(detect_chord(&['d'], i32::MIN), "E");
}

#[test]
fn other_notes_are_listed() {
    assert_eq!(detect_chord(&['d', 'r'], 0), "C C#");
    assert_eq!(detect_chord(&['j', 'd'], 0), "C G");
    assert_eq!(detect_chord(&['a', 'w', 's', 'd'], 0), "C A A# B");
}
