//! Scales, and the pitch classes that belong to them.

use vstd::prelude::*;

use crate::keyboard;
use crate::keyboard::modulo_octave;

verus! {

/// A kind of scale.
#[derive(Clone, Copy, PartialEq, Eq, Structural, Debug)]
pub enum Scale {
    Major,
    NaturalMinor,
    PentatonicMajor,
    PentatonicMinor,
    Blues,
}

/// How many roots a scale can have: one for each pitch class, named after it.
pub const ROOT_COUNT: usize = 12;

impl Scale {
    /// The semitones above the root at which the notes of the scale lie.
    pub open spec fn steps(self) -> Seq<u8> {
        match self {
            Scale::Major => seq![0, 2, 4, 5, 7, 9, 11],
            Scale::NaturalMinor => seq![0, 2, 3, 5, 7, 8, 10],
            Scale::PentatonicMajor => seq![0, 2, 4, 7, 9],
            Scale::PentatonicMinor => seq![0, 3, 5, 7, 10],
            Scale::Blues => seq![0, 3, 5, 6, 7, 10],
        }
    }

    /// The name that the screen shows.
    pub open spec fn title(self) -> Seq<char> {
        match self {
            Scale::Major => "Major"@,
            Scale::NaturalMinor => "Natural Minor"@,
            Scale::PentatonicMajor => "Pentatonic Major"@,
            Scale::PentatonicMinor => "Pentatonic Minor"@,
            Scale::Blues => "Blues"@,
        }
    }

    /// The scale that a press of the scale key goes to.
    pub open spec fn successor(self) -> Scale {
        match self {
            Scale::Major => Scale::NaturalMinor,
            Scale::NaturalMinor => Scale::PentatonicMajor,
            Scale::PentatonicMajor => Scale::PentatonicMinor,
            Scale::PentatonicMinor => Scale::Blues,
            Scale::Blues => Scale::Major,
        }
    }

    /// The semitones above the root at which the notes of the scale lie.
    pub fn intervals(self) -> (steps: &'static [u8])
        ensures
            steps@ == self.steps(),
    {
        match self {
            Scale::Major => &[0, 2, 4, 5, 7, 9, 11],
            Scale::NaturalMinor => &[0, 2, 3, 5, 7, 8, 10],
            Scale::PentatonicMajor => &[0, 2, 4, 7, 9],
            Scale::PentatonicMinor => &[0, 3, 5, 7, 10],
            Scale::Blues => &[0, 3, 5, 6, 7, 10],
        }
    }

    /// The name of the scale.
    pub fn name(self) -> (text: &'static str)
        ensures
            text@ == self.title(),
    {
        match self {
            Scale::Major => "Major",
            Scale::NaturalMinor => "Natural Minor",
            Scale::PentatonicMajor => "Pentatonic Major",
            Scale::PentatonicMinor => "Pentatonic Minor",
            Scale::Blues => "Blues",
        }
    }

    /// The next scale in the cycle.
    pub fn next(self) -> (following: Self)
        ensures
            following == self.successor(),
    {
        match self {
            Scale::Major => Scale::NaturalMinor,
            Scale::NaturalMinor => Scale::PentatonicMajor,
            Scale::PentatonicMajor => Scale::PentatonicMinor,
            Scale::PentatonicMinor => Scale::Blues,
            Scale::Blues => Scale::Major,
        }
    }
}

/// The pitch classes of the keys that sound the notes of a scale on a root when every key is moved
/// by a transposition, in the order of the scale. Without a transposition these are the notes of
/// the scale themselves.
pub open spec fn scale_classes(scale: Scale, root: int, transpose: int) -> Seq<int> {
    scale.steps().map_values(|step: u8| (root + step - transpose) % 12)
}

/// Whether a key is shown as belonging to the scale: the pitch that is heard when it is played does.
pub open spec fn is_highlighted(key: char, scale: Scale, root: int, transpose: int) -> bool {
    match keyboard::pitch_class(key) {
        Some(pc) => scale_classes(scale, root, 0).contains((pc + transpose) % 12),
        None => false,
    }
}

/// Lists the pitch classes of the keys that sound the notes of a scale on a root under a
/// transposition.
pub fn scale_notes(scale: Scale, root: usize, transpose: i32) -> (classes: Vec<u8>)
    requires
        root < ROOT_COUNT,
    ensures
        classes@.map_values(|pc: u8| pc as int) == scale_classes(scale, root as int, transpose as int),
{
    let steps = scale.intervals();
    let shift: u8 = modulo_octave(transpose);
    let mut classes: Vec<u8> = Vec::new();
    for i in 0..steps.len()
        invariant
            steps@ == scale.steps(),
            root < ROOT_COUNT,
            shift == transpose as int % 12,
            classes@.len() == i,
            forall|j: int|
                0 <= j < i ==> (#[trigger] classes@[j]) as int == (root + steps@[j] - transpose)
                    % 12,
    {
        assert(steps@[i as int] <= 11);
        classes.push((root as u8 + steps[i] + 12 - shift) % 12);
    }
    assert(classes@.map_values(|pc: u8| pc as int) =~= scale_classes(
        scale,
        root as int,
        transpose as int,
    ));
    classes
}

/// Five steps through the scales come back to the start, and no fewer do.
pub proof fn law_scales_cycle(s: Scale)
    ensures
        s.successor().successor().successor().successor().successor() == s,
        s.successor() != s,
        s.successor().successor() != s,
        s.successor().successor().successor() != s,
        s.successor().successor().successor().successor() != s,
{
}

/// Every scale starts on its root and rises within one octave.
pub proof fn law_scales_rise_from_the_root(s: Scale, i: int, j: int)
    requires
        0 <= i < j < s.steps().len(),
    ensures
        s.steps()[0] == 0,
        s.steps()[i] < s.steps()[j] < 12,
{
}

/// Transposing by a whole octave highlights the same keys.
pub proof fn law_octave_keeps_the_scale(scale: Scale, root: int, transpose: int)
    ensures
        scale_classes(scale, root, transpose + 12) == scale_classes(scale, root, transpose),
{
    assert(scale_classes(scale, root, transpose + 12) =~= scale_classes(scale, root, transpose));
}

/// Transposing up highlights the keys of the scale whose root lies that much lower: played there
/// they sound the scale on the root that was chosen.
pub proof fn law_transposing_moves_the_root(scale: Scale, root: int, transpose: int)
    ensures
        scale_classes(scale, root, transpose) == scale_classes(scale, (root - transpose) % 12, 0),
{
    assert(scale_classes(scale, root, transpose) =~= scale_classes(
        scale,
        (root - transpose) % 12,
        0,
    ));
}

/// Moving a pitch down and moving a pitch class up to meet it are the same.
proof fn lemma_moved_pitch(pitch: int, pc: int, transpose: int)
    requires
        0 <= pc < 12,
    ensures
        (pitch - transpose) % 12 == pc <==> pitch % 12 == (pc + transpose) % 12,
{
}

/// The keys whose pitch classes are listed for a scale are exactly those that, played under the
/// transposition, sound a note of the scale, and these are the highlighted ones.
pub proof fn law_highlights_are_what_is_heard(key: char, scale: Scale, root: int, transpose: int)
    requires
        keyboard::is_piano_key(key),
    ensures
        is_highlighted(key, scale, root, transpose) <==> scale_classes(scale, root, 0).contains(
            (keyboard::pitch_class(key)->0 + transpose) % 12,
        ),
        is_highlighted(key, scale, root, transpose) <==> scale_classes(
            scale,
            root,
            transpose,
        ).contains(keyboard::pitch_class(key)->0 as int),
{
    keyboard::law_pitch_and_frequency_agree(key);
    lemma_same_steps(
        scale.steps(),
        root,
        keyboard::pitch_class(key)->0 as int,
        transpose,
    );
}

/// Steps above a root meet a pitch class once moved down exactly when they meet the pitch class
/// moved up.
#[verifier::spinoff_prover]
#[verifier::rlimit(40)]
proof fn lemma_same_steps(steps: Seq<u8>, root: int, pc: int, transpose: int)
    requires
        0 <= pc < 12,
    ensures
        steps.map_values(|step: u8| (root + step - transpose) % 12).contains(pc)
            <==> steps.map_values(|step: u8| (root + step - 0) % 12).contains(
            (pc + transpose) % 12,
        ),
{
    let here = steps.map_values(|step: u8| (root + step - transpose) % 12);
    let there = steps.map_values(|step: u8| (root + step - 0) % 12);
    if here.contains(pc) {
        let i = choose|i: int| 0 <= i < here.len() && here[i] == pc;
        lemma_moved_pitch(root + steps[i], pc, transpose);
        assert(there[i] == (pc + transpose) % 12);
    }
    if there.contains((pc + transpose) % 12) {
        let i = choose|i: int| 0 <= i < there.len() && there[i] == (pc + transpose) % 12;
        lemma_moved_pitch(root + steps[i], pc, transpose);
        assert(here[i] == pc);
    }
}

/// A key is highlighted exactly when, played under the transposition, it sounds a note that lies one
/// of the steps of the scale above the root.
#[verifier::spinoff_prover]
#[verifier::rlimit(40)]
pub proof fn law_highlighted_keys_lie_on_the_scale(key: char, scale: Scale, root: int, transpose: int)
    ensures
        is_highlighted(key, scale, root, transpose) <==> keyboard::pitch_class(key) is Some && (
        exists|i: int|
            0 <= i < scale.steps().len() && (keyboard::pitch_class(key)->0 + transpose - root
                - #[trigger] scale.steps()[i]) % 12 == 0),
{
    if let Some(pc) = keyboard::pitch_class(key) {
        let steps = scale.steps();
        let notes = scale_classes(scale, root, 0);
        let heard = (pc + transpose) % 12;
        if notes.contains(heard) {
            let i = choose|i: int| 0 <= i < notes.len() && notes[i] == heard;
            lemma_meets(root + steps[i], pc + transpose);
            assert((pc + transpose - root - steps[i]) % 12 == 0);
        }
        if exists|i: int|
            0 <= i < steps.len() && (pc + transpose - root - #[trigger] steps[i]) % 12 == 0 {
            let i = choose|i: int|
                0 <= i < steps.len() && (pc + transpose - root - #[trigger] steps[i]) % 12 == 0;
            lemma_meets(root + steps[i], pc + transpose);
            assert(notes[i] == heard);
        }
    }
}

/// Two pitches share their pitch class exactly when they are whole octaves apart.
proof fn lemma_meets(one: int, other: int)
    ensures
        one % 12 == other % 12 <==> (other - one) % 12 == 0,
{
}

} // verus!
