//! A sounding note and its attack-decay-sustain-release envelope.
//!
//! The oscillator state of a note is fractional. It is kept as the bit patterns of two
//! single-precision numbers (IEEE 754), which the audio side does its arithmetic on; here the
//! patterns are only compared.

use vstd::prelude::*;

use crate::waveform::Waveform;

verus! {

/// The phase of the envelope that a note is in.
#[derive(Clone, Copy, PartialEq, Eq, Structural, Debug)]
pub enum Stage {
    Attack,
    Decay,
    Sustain,
    Release,
}

/// The bit pattern of 0.0.
pub const SILENCE: u32 = 0;

/// The bit pattern of 1.0, the volume at which the attack ends.
pub const FULL_VOLUME: u32 = 0x3f80_0000;

/// The bit pattern of 0.70, the volume held while a key is down.
pub const SUSTAIN_VOLUME: u32 = 0x3f33_3333;

/// Whether a bit pattern is not a number.
pub open spec fn is_nan(bits: u32) -> bool {
    ||| 0x7f80_0000 < bits < 0x8000_0000
    ||| 0xff80_0000 < bits
}

/// The place of a number in the order of all single-precision numbers: patterns without a sign
/// bit rise from zero, those with one fall from zero.
pub open spec fn rank(bits: u32) -> int {
    if bits < 0x8000_0000 {
        bits as int
    } else {
        0x8000_0000 - bits
    }
}

/// `a <= b` on single-precision numbers.
pub open spec fn at_most(a: u32, b: u32) -> bool {
    !is_nan(a) && !is_nan(b) && rank(a) <= rank(b)
}

/// `a < b` on single-precision numbers.
pub open spec fn below(a: u32, b: u32) -> bool {
    !is_nan(a) && !is_nan(b) && rank(a) < rank(b)
}

fn not_a_number(bits: u32) -> (nan: bool)
    ensures
        nan == is_nan(bits),
{
    (0x7f80_0000 < bits && bits < 0x8000_0000) || 0xff80_0000 < bits
}

fn order(bits: u32) -> (place: i64)
    ensures
        place == rank(bits),
{
    if bits < 0x8000_0000 {
        bits as i64
    } else {
        0x8000_0000i64 - bits as i64
    }
}

fn is_at_most(a: u32, b: u32) -> (yes: bool)
    ensures
        yes == at_most(a, b),
{
    !not_a_number(a) && !not_a_number(b) && order(a) <= order(b)
}

fn is_below(a: u32, b: u32) -> (yes: bool)
    ensures
        yes == below(a, b),
{
    !not_a_number(a) && !not_a_number(b) && order(a) < order(b)
}

/// A note that is sounding. `phase` and `amplitude` are bit patterns; `velocity` is how hard the
/// key was struck, in ninths; `key_released` tells that the key went up while the pedal was down.
#[derive(Clone, Copy, PartialEq, Eq, Structural, Debug)]
pub struct Note {
    pub phase: u32,
    pub amplitude: u32,
    pub stage: Stage,
    pub velocity: u8,
    pub waveform: Waveform,
    pub key_released: bool,
}

impl Note {
    /// A note as it is when its key is struck.
    pub open spec fn struck(velocity: u8, waveform: Waveform) -> Note {
        Note {
            phase: SILENCE,
            amplitude: SILENCE,
            stage: Stage::Attack,
            velocity,
            waveform,
            key_released: false,
        }
    }

    /// The note once it has started to fade.
    pub open spec fn fading(self) -> Note {
        Note { stage: Stage::Release, ..self }
    }

    /// The note with its key up and the pedal holding it.
    pub open spec fn held_by_pedal(self) -> Note {
        Note { key_released: true, ..self }
    }

    /// Whether the note has faded away.
    pub open spec fn finished(self) -> bool {
        self.stage is Release && at_most(self.amplitude, SILENCE)
    }

    /// The note after the envelope has moved its amplitude to `moved`. The attack ends at full
    /// volume and the decay at the sustain volume, neither overshooting; the release stops at
    /// silence.
    pub open spec fn settled(self, moved: u32) -> Note {
        match self.stage {
            Stage::Attack => if at_most(FULL_VOLUME, moved) {
                Note { amplitude: FULL_VOLUME, stage: Stage::Decay, ..self }
            } else {
                Note { amplitude: moved, ..self }
            },
            Stage::Decay => if at_most(moved, SUSTAIN_VOLUME) {
                Note { amplitude: SUSTAIN_VOLUME, stage: Stage::Sustain, ..self }
            } else {
                Note { amplitude: moved, ..self }
            },
            Stage::Sustain => self,
            Stage::Release => if below(moved, SILENCE) {
                Note { amplitude: SILENCE, ..self }
            } else {
                Note { amplitude: moved, ..self }
            },
        }
    }

    /// Strikes a note.
    pub fn new(velocity: u8, waveform: Waveform) -> (note: Self)
        ensures
            note == Note::struck(velocity, waveform),
    {
        Note {
            phase: SILENCE,
            amplitude: SILENCE,
            stage: Stage::Attack,
            velocity,
            waveform,
            key_released: false,
        }
    }

    /// Lets the note fade.
    pub fn release(&mut self)
        ensures
            *final(self) == old(self).fading(),
    {
        self.stage = Stage::Release;
    }

    /// Whether the note has faded away.
    pub fn is_finished(&self) -> (done: bool)
        ensures
            done == self.finished(),
    {
        self.stage == Stage::Release && is_at_most(self.amplitude, SILENCE)
    }

    /// Takes over the amplitude that one sample of the envelope leads to, and goes on to the next
    /// stage when the present one is through.
    pub fn settle(&mut self, moved: u32)
        ensures
            *final(self) == old(self).settled(moved),
    {
        match self.stage {
            Stage::Attack => {
                self.amplitude = moved;
                if is_at_most(FULL_VOLUME, moved) {
                    self.amplitude = FULL_VOLUME;
                    self.stage = Stage::Decay;
                }
            },
            Stage::Decay => {
                self.amplitude = moved;
                if is_at_most(moved, SUSTAIN_VOLUME) {
                    self.amplitude = SUSTAIN_VOLUME;
                    self.stage = Stage::Sustain;
                }
            },
            Stage::Sustain => {},
            Stage::Release => {
                self.amplitude = moved;
                if is_below(moved, SILENCE) {
                    self.amplitude = SILENCE;
                }
            },
        }
    }
}

/// The order of the stages.
pub open spec fn stage_index(stage: Stage) -> int {
    match stage {
        Stage::Attack => 0,
        Stage::Decay => 1,
        Stage::Sustain => 2,
        Stage::Release => 3,
    }
}

/// The envelope never goes back to an earlier stage, and only a release starts the release.
pub proof fn law_envelope_moves_forward(note: Note, moved: u32)
    ensures
        stage_index(note.stage) <= stage_index(note.settled(moved).stage) <= stage_index(note.stage)
            + 1,
        note.settled(moved).stage is Release <==> note.stage is Release,
{
}

/// The volume of a note never exceeds full volume while the envelope rises, and while it falls it
/// stays above what it falls to, as long as its amplitudes are numbers.
pub proof fn law_envelope_does_not_overshoot(note: Note, moved: u32)
    requires
        !is_nan(moved),
    ensures
        note.stage is Attack ==> at_most(note.settled(moved).amplitude, FULL_VOLUME),
        note.stage is Decay ==> at_most(SUSTAIN_VOLUME, note.settled(moved).amplitude),
        note.stage is Release ==> at_most(SILENCE, note.settled(moved).amplitude),
{
}

/// Whether the envelope moves an amplitude the way that its stage asks for: up in the attack, down
/// in the decay and in the release.
pub open spec fn moves_rightly(note: Note, moved: u32) -> bool {
    match note.stage {
        Stage::Attack => at_most(note.amplitude, moved),
        Stage::Decay => at_most(moved, note.amplitude),
        Stage::Sustain => true,
        Stage::Release => at_most(moved, note.amplitude),
    }
}

/// The volume of a note stays between silence and full volume, and goes the way of its stage: it
/// does not fall in the attack, does not rise in the decay and the release, is not below the
/// sustain volume after a step of the decay, and does not change in the sustain.
pub proof fn law_volume_stays_in_range(note: Note, moved: u32)
    requires
        at_most(SILENCE, note.amplitude),
        at_most(note.amplitude, FULL_VOLUME),
        moves_rightly(note, moved),
    ensures
        at_most(SILENCE, note.settled(moved).amplitude),
        at_most(note.settled(moved).amplitude, FULL_VOLUME),
        note.stage is Attack ==> at_most(note.amplitude, note.settled(moved).amplitude),
        note.stage is Decay ==> at_most(SUSTAIN_VOLUME, note.settled(moved).amplitude),
        note.stage is Decay && at_most(SUSTAIN_VOLUME, note.amplitude) ==> at_most(
            note.settled(moved).amplitude,
            note.amplitude,
        ),
        note.stage is Sustain ==> note.settled(moved).amplitude == note.amplitude,
        note.stage is Release ==> at_most(note.settled(moved).amplitude, note.amplitude),
{
}

/// A stage ends exactly when its volume is reached: the attack goes over to the decay at full
/// volume, the decay to the sustain at the sustain volume, and otherwise the stage stays. Sustain
/// and release are never left.
pub proof fn law_stages_end_at_their_volumes(note: Note, moved: u32)
    ensures
        ({
            let after = note.settled(moved);
            match note.stage {
                Stage::Attack => {
                    &&& after.stage is Decay <==> after.amplitude == FULL_VOLUME
                    &&& after.stage is Attack || after.stage is Decay
                },
                Stage::Decay => {
                    &&& after.stage is Sustain <==> after.amplitude == SUSTAIN_VOLUME
                    &&& after.stage is Decay || after.stage is Sustain
                },
                Stage::Sustain => after.stage is Sustain,
                Stage::Release => after.stage is Release,
            }
        }),
{
}

/// A note after the envelope has moved its amplitude a number of times.
pub open spec fn after_moves(note: Note, moves: Seq<u32>) -> Note
    decreases moves.len(),
{
    if moves.len() == 0 {
        note
    } else {
        after_moves(note, moves.drop_last()).settled(moves.last())
    }
}

/// A note that has faded away stays so, however often the envelope moves it on, as long as it moves
/// it to no sound above silence; from the first move on its amplitude is zero. A note that is never
/// released is never finished, not even when it is just struck and still silent.
pub proof fn law_finished_notes_stay_finished(note: Note, moves: Seq<u32>)
    ensures
        note.finished() && (forall|i: int|
            0 <= i < moves.len() ==> at_most(#[trigger] moves[i], SILENCE)) ==> {
            &&& after_moves(note, moves).finished()
            &&& moves.len() > 0 ==> rank(after_moves(note, moves).amplitude) == 0
        },
        !(note.stage is Release) ==> !(after_moves(note, moves).stage is Release) && !after_moves(
            note,
            moves,
        ).finished(),
    decreases moves.len(),
{
    if moves.len() > 0 {
        let shorter = moves.drop_last();
        law_finished_notes_stay_finished(note, shorter);
        assert(moves[moves.len() - 1] == moves.last());
        assert(forall|i: int| 0 <= i < shorter.len() ==> #[trigger] shorter[i] == moves[i]);
    }
}

/// A note that is held keeps its volume.
pub proof fn law_sustain_is_steady(note: Note, moved: u32)
    requires
        note.stage is Sustain,
    ensures
        note.settled(moved) == note,
{
}

/// A note whose key is still down is never finished, and a fading note is finished as soon as its
/// amplitude falls to silence or below.
pub proof fn law_only_fading_notes_finish(note: Note, moved: u32)
    ensures
        !(note.stage is Release) ==> !note.finished(),
        note.stage is Release && at_most(moved, SILENCE) ==> note.settled(moved).finished(),
{
}

/// The envelope leaves everything about a note alone but its amplitude and its stage.
pub proof fn law_envelope_keeps_the_note(note: Note, moved: u32)
    ensures
        note.settled(moved).phase == note.phase,
        note.settled(moved).velocity == note.velocity,
        note.settled(moved).waveform == note.waveform,
        note.settled(moved).key_released == note.key_released,
{
}

/// A note that is struck starts from silence, in the attack, with the velocity and the waveform that
/// it was struck with, and with its key down.
pub proof fn law_struck_notes_start_from_silence(velocity: u8, waveform: Waveform)
    ensures
        ({
            let note = Note::struck(velocity, waveform);
            &&& note.phase == 0
            &&& note.amplitude == 0
            &&& note.stage is Attack
            &&& note.velocity == velocity
            &&& note.waveform == waveform
            &&& !note.key_released
        }),
{
}

/// Whether a note has gone over to the release and is otherwise as it was.
pub open spec fn has_only_begun_to_fade(before: Note, after: Note) -> bool {
    &&& after.stage is Release
    &&& after.velocity == before.velocity
    &&& after.waveform == before.waveform
    &&& after.phase == before.phase
    &&& after.amplitude == before.amplitude
    &&& after.key_released == before.key_released
}

/// Letting a note fade changes its stage and nothing else: it goes on from the volume, the phase and
/// the timbre that it has.
pub proof fn law_fading_changes_the_stage_only(note: Note)
    ensures
        note.fading().stage is Release,
        note.fading().velocity == note.velocity,
        note.fading().waveform == note.waveform,
        note.fading().phase == note.phase,
        note.fading().amplitude == note.amplitude,
        note.fading().key_released == note.key_released,
        has_only_begun_to_fade(note, note.fading()),
{
}

/// The pedal takes note that a key went up, and nothing else about the note changes.
pub proof fn law_held_notes_sound_on(note: Note)
    ensures
        note.held_by_pedal().key_released,
        note.held_by_pedal().stage == note.stage,
        note.held_by_pedal().velocity == note.velocity,
        note.held_by_pedal().waveform == note.waveform,
        note.held_by_pedal().phase == note.phase,
        note.held_by_pedal().amplitude == note.amplitude,
{
}

/// The order of bit patterns is that of the numbers they stand for: positive ones rise with the
/// pattern, negative ones fall, every negative one is below every positive one but for the two
/// zeros, which are equal, and what is not a number is in no order with anything.
pub proof fn law_bit_patterns_are_ordered(a: u32, b: u32)
    ensures
        is_nan(a) <==> a as int % 0x8000_0000 > 0x7f80_0000,
        is_nan(a) || is_nan(b) ==> !at_most(a, b) && !below(a, b),
        !is_nan(a) && !is_nan(b) ==> {
            &&& a < 0x8000_0000 && b < 0x8000_0000 ==> (at_most(a, b) <==> a <= b)
            &&& a >= 0x8000_0000 && b >= 0x8000_0000 ==> (at_most(a, b) <==> a >= b)
            &&& a >= 0x8000_0000 && b < 0x8000_0000 ==> at_most(a, b)
            &&& a < 0x8000_0000 && b >= 0x8000_0000 ==> (at_most(a, b) <==> a == 0 && b
                == 0x8000_0000)
            &&& below(a, b) <==> !at_most(b, a)
        },
{
}

/// Within a stage the amplitude is the one that the envelope moved it to; where the stage ends, it
/// is the volume at which it ends: one for the attack, 0.7 for the decay, and zero for what would
/// fade below it.
pub proof fn law_envelope_takes_over_the_amplitude(note: Note, moved: u32)
    ensures
        ({
            let after = note.settled(moved);
            &&& note.stage is Attack && !at_most(0x3f80_0000, moved) ==> after.amplitude == moved
                && after.stage is Attack
            &&& note.stage is Attack && at_most(0x3f80_0000, moved) ==> after.amplitude
                == 0x3f80_0000 && after.stage is Decay
            &&& note.stage is Decay && !at_most(moved, 0x3f33_3333) ==> after.amplitude == moved
                && after.stage is Decay
            &&& note.stage is Decay && at_most(moved, 0x3f33_3333) ==> after.amplitude
                == 0x3f33_3333 && after.stage is Sustain
            &&& note.stage is Sustain ==> after.amplitude == note.amplitude && after.stage is Sustain
            &&& note.stage is Release && !below(moved, 0) ==> after.amplitude == moved
                && after.stage is Release
            &&& note.stage is Release && below(moved, 0) ==> after.amplitude == 0
                && after.stage is Release
        }),
{
}

/// A note has faded away exactly when it is in the release and its amplitude is a number that is
/// zero or negative.
pub proof fn law_faded_notes_are_silent(note: Note)
    ensures
        note.finished() <==> note.stage is Release && (note.amplitude == 0 || 0x8000_0000
            <= note.amplitude <= 0xff80_0000),
{
}

} // verus!
