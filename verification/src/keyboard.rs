//! The sixteen playable keys, the pitch each of them sounds, and the names of the pitches.

use vstd::prelude::*;

verus! {

/// How many semitones a key lies above the lowest one, or `None` for a key that plays nothing.
///
/// In rising order the keys are `a w s d r f t g h u j i k o l ;`, from A below middle C up to
/// the C above it.
pub open spec fn semitone(key: char) -> Option<int> {
    match key {
        'a' => Some(0),
        'w' => Some(1),
        's' => Some(2),
        'd' => Some(3),
        'r' => Some(4),
        'f' => Some(5),
        't' => Some(6),
        'g' => Some(7),
        'h' => Some(8),
        'u' => Some(9),
        'j' => Some(10),
        'i' => Some(11),
        'k' => Some(12),
        'o' => Some(13),
        'l' => Some(14),
        ';' => Some(15),
        _ => None,
    }
}

/// Whether a key plays a note.
pub open spec fn is_piano_key(key: char) -> bool {
    semitone(key) is Some
}

/// The pitch class of a key, counted in semitones from C: the lowest key is an A, class 9.
pub open spec fn pitch_class(key: char) -> Option<u8> {
    match semitone(key) {
        Some(s) => Some(((9 + s) % 12) as u8),
        None => None,
    }
}

/// The fundamental frequencies of the keys in hundredths of a hertz, lowest key first.
pub open spec fn tuning() -> Seq<u32> {
    seq![
        22000, 23308, 24694, 26163, 27718, 29366, 31113, 32963,
        34923, 36999, 39200, 41530, 44000, 46616, 49388, 52325,
    ]
}

/// The frequency of a key in hundredths of a hertz, or `None` for a key that plays nothing.
pub open spec fn frequency(key: char) -> Option<u32> {
    match semitone(key) {
        Some(s) => Some(tuning()[s]),
        None => None,
    }
}

/// The names of the twelve pitch classes, from C upwards.
pub open spec fn class_names() -> Seq<Seq<char>> {
    seq!["C"@, "C#"@, "D"@, "D#"@, "E"@, "F"@, "F#"@, "G"@, "G#"@, "A"@, "A#"@, "B"@]
}

/// The name of a pitch class, `?` beyond the twelve that there are.
pub open spec fn class_name(pc: int) -> Seq<char> {
    if 0 <= pc < 12 {
        class_names()[pc]
    } else {
        "?"@
    }
}

/// The pitch class that a key plays.
pub fn key_to_pitch_class(key: char) -> (pc: Option<u8>)
    ensures
        pc == pitch_class(key),
{
    match key {
        'a' | 'k' => Some(9),
        'w' | 'o' => Some(10),
        's' | 'l' => Some(11),
        'd' | ';' => Some(0),
        'r' => Some(1),
        'f' => Some(2),
        't' => Some(3),
        'g' => Some(4),
        'h' => Some(5),
        'u' => Some(6),
        'j' => Some(7),
        'i' => Some(8),
        _ => None,
    }
}

/// The frequency that a key plays, in hundredths of a hertz.
pub fn key_to_freq(key: char) -> (freq: Option<u32>)
    ensures
        freq == frequency(key),
{
    match key {
        'a' => Some(22000),
        'w' => Some(23308),
        's' => Some(24694),
        'd' => Some(26163),
        'r' => Some(27718),
        'f' => Some(29366),
        't' => Some(31113),
        'g' => Some(32963),
        'h' => Some(34923),
        'u' => Some(36999),
        'j' => Some(39200),
        'i' => Some(41530),
        'k' => Some(44000),
        'o' => Some(46616),
        'l' => Some(49388),
        ';' => Some(52325),
        _ => None,
    }
}

/// The name of a pitch class.
pub fn note_name(pc: u8) -> (name: &'static str)
    ensures
        name@ == class_name(pc as int),
{
    match pc {
        0 => "C",
        1 => "C#",
        2 => "D",
        3 => "D#",
        4 => "E",
        5 => "F",
        6 => "F#",
        7 => "G",
        8 => "G#",
        9 => "A",
        10 => "A#",
        11 => "B",
        _ => "?",
    }
}

/// The remainder of a division by twelve, never negative.
pub(crate) fn modulo_octave(n: i32) -> (r: u8)
    ensures
        r == n as int % 12,
{
    match n.checked_rem_euclid(12) {
        Some(r) => r as u8,
        None => 0,
    }
}

/// Whether a key is among some keys.
pub(crate) fn lists_key(keys: &Vec<char>, key: char) -> (yes: bool)
    ensures
        yes == keys@.contains(key),
{
    for i in 0..keys.len()
        invariant
            forall|j: int| 0 <= j < i ==> keys@[j] != key,
    {
        if keys[i] == key {
            return true;
        }
    }
    false
}

/// A key has a frequency exactly when it has a pitch class, and its pitch class is one of the
/// twelve.
pub proof fn law_pitch_and_frequency_agree(key: char)
    ensures
        frequency(key) is Some <==> pitch_class(key) is Some,
        pitch_class(key) matches Some(pc) ==> pc < 12,
{
}

/// Keys further to the right play higher notes.
pub proof fn law_pitch_rises_along_the_keyboard(low: char, high: char)
    requires
        is_piano_key(low),
        is_piano_key(high),
        semitone(low)->0 < semitone(high)->0,
    ensures
        frequency(low)->0 < frequency(high)->0,
{
}

/// Different keys play different notes.
pub proof fn law_keys_are_distinct(one: char, other: char)
    requires
        is_piano_key(one),
        is_piano_key(other),
        one != other,
    ensures
        semitone(one) != semitone(other),
        frequency(one) != frequency(other),
{
}

/// Keys twelve semitones apart share their pitch class, and the upper one sounds at twice the
/// frequency of the lower one, to within the hundredth of a hertz to which pitches are kept.
pub proof fn law_octaves(low: char, high: char)
    requires
        is_piano_key(low),
        is_piano_key(high),
        semitone(high)->0 == semitone(low)->0 + 12,
    ensures
        pitch_class(low) == pitch_class(high),
        -1 <= 2 * frequency(low)->0 - frequency(high)->0 <= 1,
{
}

/// The playable keys are these sixteen, each with its pitch class and its frequency, and no others.
pub proof fn law_key_map(key: char)
    ensures
        pitch_class(key) == match key {
            'd' | ';' => Some(0u8),
            'r' => Some(1u8),
            'f' => Some(2u8),
            't' => Some(3u8),
            'g' => Some(4u8),
            'h' => Some(5u8),
            'u' => Some(6u8),
            'j' => Some(7u8),
            'i' => Some(8u8),
            'a' | 'k' => Some(9u8),
            'w' | 'o' => Some(10u8),
            's' | 'l' => Some(11u8),
            _ => None,
        },
        is_piano_key(key) <==> pitch_class(key) is Some,
        is_piano_key(key) <==> frequency(key) is Some,
        frequency('k') == Some(44000u32),
{
}

/// The keys are tuned in equal temperament around the concert A of 440 hertz: from each key to the
/// next one up the frequency rises by the twelfth root of two, to within the hundredths of a hertz
/// to which pitches are kept.
pub proof fn law_equal_temperament(low: char, high: char)
    requires
        is_piano_key(low),
        is_piano_key(high),
        semitone(high)->0 == semitone(low)->0 + 1,
    ensures
        -11_000_000 <= 10_000_000 * frequency(high)->0 - 10_594_631 * frequency(low)->0
            <= 11_000_000,
        pitch_class(high)->0 as int == (pitch_class(low)->0 + 1) % 12,
        frequency('k') == Some(44000u32),
        semitone('k') == Some(12int),
{
}

/// The names of the pitch classes.
pub proof fn law_class_names(pc: int)
    ensures
        class_name(0) == "C"@ && class_name(2) == "D"@ && class_name(4) == "E"@ && class_name(5)
            == "F"@ && class_name(7) == "G"@ && class_name(9) == "A"@ && class_name(11) == "B"@,
        pc == 0 || pc == 2 || pc == 5 || pc == 7 || pc == 9 ==> class_name(pc + 1) == class_name(pc)
            + "#"@,
        pc < 0 || pc > 11 ==> class_name(pc) == "?"@,
{
    reveal_strlit("#");
    reveal_strlit("C");
    reveal_strlit("C#");
    reveal_strlit("D");
    reveal_strlit("D#");
    reveal_strlit("F");
    reveal_strlit("F#");
    reveal_strlit("G");
    reveal_strlit("G#");
    reveal_strlit("A");
    reveal_strlit("A#");
    assert("C#"@ =~= "C"@ + "#"@);
    assert("D#"@ =~= "D"@ + "#"@);
    assert("F#"@ =~= "F"@ + "#"@);
    assert("G#"@ =~= "G"@ + "#"@);
    assert("A#"@ =~= "A"@ + "#"@);
}

} // verus!
