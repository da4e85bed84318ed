//! The arpeggiator: it plays the held keys one after the other, one at every beat.
//!
//! Times are readings of a clock in nanoseconds.

use vstd::prelude::*;

use crate::active_notes;
use crate::active_notes::ActiveNotes;
use crate::arp;
use crate::arp::{sort_by_pitch, ArpPattern};
use crate::keyboard;
use crate::keyboard::lists_key;
use crate::note;
use crate::note::Note;
use crate::waveform::Waveform;

verus! {

/// The slowest and the fastest tempo, and the step between tempos, in beats per minute.
pub const MIN_BPM: u32 = 40;

pub const MAX_BPM: u32 = 300;

pub const BPM_STEP: u32 = 10;

/// How long to wait for input while the arpeggiator is off: a minute.
pub const IDLE_WAIT: u64 = 60_000_000_000;

/// The state of the arpeggiator: the keys that are held down, in the order in which they went
/// down, how many notes were played since that order last changed, the key played last, and the
/// time of the last beat.
#[derive(Debug)]
pub struct Arpeggiator {
    pub on: bool,
    pub pattern: ArpPattern,
    pub bpm: u32,
    pub held_notes: Vec<char>,
    pub idx: usize,
    pub last: Option<char>,
    pub last_tick: u64,
}

/// The state of an arpeggiator as mathematical values.
#[verifier::ext_equal]
pub struct ArpModel {
    pub on: bool,
    pub pattern: ArpPattern,
    pub bpm: int,
    pub held: Seq<char>,
    pub idx: int,
    pub last: Option<char>,
    pub last_tick: u64,
}

impl View for Arpeggiator {
    type V = ArpModel;

    open spec fn view(&self) -> ArpModel {
        ArpModel {
            on: self.on,
            pattern: self.pattern,
            bpm: self.bpm as int,
            held: self.held_notes@,
            idx: self.idx as int,
            last: self.last,
            last_tick: self.last_tick,
        }
    }
}

/// The keys but for one of them.
pub open spec fn others(keys: Seq<char>, key: char) -> Seq<char> {
    keys.filter(other_than(key))
}

/// Being a different key.
pub open spec fn other_than(key: char) -> spec_fn(char) -> bool {
    |k: char| k != key
}

impl ArpModel {
    /// The tempo is one that can be set, the held keys are different piano keys, and while it is
    /// off the arpeggiator holds nothing.
    pub open spec fn wf(self) -> bool {
        &&& MIN_BPM <= self.bpm <= MAX_BPM
        &&& self.bpm % BPM_STEP as int == 0
        &&& self.held.no_duplicates()
        &&& forall|i: int|
            0 <= i < self.held.len() ==> keyboard::is_piano_key(#[trigger] self.held[i])
        &&& self.idx >= 0
        &&& self.last matches Some(key) ==> keyboard::is_piano_key(key)
        &&& !self.on ==> self.held.len() == 0 && self.last is None && self.idx == 0
    }

    /// The key that the next beat plays.
    pub open spec fn next_key(self) -> Option<char> {
        if self.held.len() == 0 {
            None
        } else {
            Some(
                arp::by_pitch(self.held)[self.pattern.index_at(self.idx, self.held.len() as int)],
            )
        }
    }

    /// After a beat.
    pub open spec fn after_tick(self, now: u64) -> ArpModel {
        match self.next_key() {
            Some(key) => ArpModel {
                idx: self.idx + 1,
                last: Some(key),
                last_tick: now,
                ..self
            },
            None => ArpModel { last_tick: now, ..self },
        }
    }

    /// The notes after a beat: the last key played fades and the next one is struck.
    pub open spec fn notes_after_tick(
        self,
        notes: Map<char, Note>,
        velocity: u8,
        waveform: Waveform,
    ) -> Map<char, Note> {
        let faded = self.notes_without_last(notes);
        match self.next_key() {
            Some(key) => active_notes::after_strike(faded, key, velocity, waveform),
            None => faded,
        }
    }

    /// The notes after the one played last has started to fade.
    pub open spec fn notes_without_last(self, notes: Map<char, Note>) -> Map<char, Note> {
        match self.last {
            Some(key) => active_notes::after_fade(notes, key),
            None => notes,
        }
    }

    /// After it was switched over. Switching off forgets the held keys.
    pub open spec fn after_toggle(self, now: u64) -> ArpModel {
        if self.on {
            ArpModel {
                on: false,
                held: seq![],
                last: None,
                idx: 0,
                last_tick: now,
                ..self
            }
        } else {
            ArpModel { on: true, last_tick: now, ..self }
        }
    }

    /// The notes after it was switched over. Switching off lets all of them fade.
    pub open spec fn notes_after_toggle(self, notes: Map<char, Note>) -> Map<char, Note> {
        if self.on {
            active_notes::after_fade_all(notes)
        } else {
            notes
        }
    }

    /// After a change of pattern.
    pub open spec fn after_next_pattern(self) -> ArpModel {
        ArpModel { pattern: self.pattern.successor(), idx: 0, ..self }
    }

    /// After a change of tempo by some beats per minute.
    pub open spec fn after_tempo_change(self, change: int) -> ArpModel {
        let wanted = self.bpm + change;
        ArpModel {
            bpm: if wanted > MAX_BPM {
                MAX_BPM as int
            } else if wanted < MIN_BPM {
                MIN_BPM as int
            } else {
                wanted
            },
            ..self
        }
    }

    /// After a key went down.
    pub open spec fn after_key_down(self, key: char) -> ArpModel {
        if self.held.contains(key) {
            self
        } else {
            ArpModel { held: self.held.push(key), idx: 0, ..self }
        }
    }

    /// After a key went up.
    pub open spec fn after_key_up(self, key: char) -> ArpModel {
        let held = others(self.held, key);
        ArpModel {
            held,
            last: if held.len() == 0 {
                None
            } else {
                self.last
            },
            ..self
        }
    }

    /// The notes after a key went up: with the last held key goes the note played last.
    pub open spec fn notes_after_key_up(self, notes: Map<char, Note>, key: char) -> Map<
        char,
        Note,
    > {
        if self.after_key_up(key).held.len() == 0 {
            self.notes_without_last(notes)
        } else {
            notes
        }
    }

    /// The time between two beats in nanoseconds, in whole milliseconds.
    pub open spec fn beat(self) -> int {
        60_000int / self.bpm * 1_000_000
    }

    /// How long to wait for input before the next beat is due.
    pub open spec fn wait(self, now: u64) -> int {
        if !self.on {
            IDLE_WAIT as int
        } else {
            let elapsed = if now > self.last_tick {
                now - self.last_tick
            } else {
                0
            };
            if elapsed < self.beat() {
                self.beat() - elapsed
            } else {
                0
            }
        }
    }
}

/// The sixteen piano keys.
spec fn piano_keys() -> Set<char> {
    set!['a', 'w', 's', 'd', 'r', 'f', 't', 'g', 'h', 'u', 'j', 'i', 'k', 'o', 'l', ';']
}

/// Different piano keys are sixteen at most.
pub proof fn law_at_most_sixteen_keys(keys: Seq<char>)
    requires
        keys.no_duplicates(),
        forall|i: int| 0 <= i < keys.len() ==> keyboard::is_piano_key(#[trigger] keys[i]),
    ensures
        keys.len() <= 16,
{
    keys.unique_seq_to_set();
    assert(keys.to_set().subset_of(piano_keys())) by {
        assert forall|key: char| keys.to_set().contains(key) implies piano_keys().contains(key) by {
            let i = choose|i: int| 0 <= i < keys.len() && keys[i] == key;
            assert(keyboard::is_piano_key(keys[i]));
        }
    }
    vstd::set_lib::lemma_len_subset(keys.to_set(), piano_keys());
}

impl Arpeggiator {
    /// An arpeggiator as the instrument starts with it: off, going up, at 120 beats a minute.
    pub open spec fn initial(now: u64) -> ArpModel {
        ArpModel {
            on: false,
            pattern: ArpPattern::Up,
            bpm: 120,
            held: seq![],
            idx: 0,
            last: None,
            last_tick: now,
        }
    }

    /// An arpeggiator that is off.
    pub fn new(now: u64) -> (arp: Self)
        ensures
            arp@ == Self::initial(now),
            arp@.wf(),
    {
        Arpeggiator {
            on: false,
            pattern: ArpPattern::Up,
            bpm: 120,
            held_notes: Vec::new(),
            idx: 0,
            last: None,
            last_tick: now,
        }
    }

    /// Plays a beat. The count of beats has to have room for one more if there is a key to play.
    pub fn tick(
        &mut self,
        notes: &mut ActiveNotes,
        velocity: u8,
        waveform: Waveform,
        now: u64,
    )
        requires
            old(self)@.wf(),
            old(notes).wf(),
            old(self)@.held.len() > 0 ==> old(self).idx < usize::MAX,
        ensures
            final(self)@ == old(self)@.after_tick(now),
            final(self)@.held == old(self)@.held,
            final(self)@.wf(),
            final(notes).wf(),
            final(notes)@ == old(self)@.notes_after_tick(old(notes)@, velocity, waveform),
    {
        self.last_tick = now;
        if let Some(prev) = self.last {
            notes.fade(prev);
        }
        let sorted = sort_by_pitch(&self.held_notes);
        proof {
            arp::law_sorting_keeps_the_keys(self.held_notes@);
            law_at_most_sixteen_keys(self.held_notes@);
        }
        if !sorted.is_empty() {
            let idx: usize = self.pattern.note_index(self.idx, sorted.len());
            let key = sorted[idx];
            proof {
                assert(arp::by_pitch(self.held_notes@).contains(key));
                assert(self.held_notes@.contains(key));
                let i = choose|i: int| 0 <= i < self.held_notes@.len() && self.held_notes@[i] == key;
                assert(keyboard::is_piano_key(self.held_notes@[i]));
            }
            self.idx = self.idx + 1;
            self.last = Some(key);
            notes.strike(key, velocity, waveform);
        }
    }

    /// Switches over between on and off.
    pub fn toggle(&mut self, notes: &mut ActiveNotes, now: u64)
        requires
            old(self)@.wf(),
            old(notes).wf(),
        ensures
            final(self)@ == old(self)@.after_toggle(now),
            final(self)@.wf(),
            final(notes).wf(),
            final(notes)@ == old(self)@.notes_after_toggle(old(notes)@),
    {
        self.on = !self.on;
        if !self.on {
            self.held_notes.clear();
            self.last = None;
            self.idx = 0;
            notes.fade_all();
        }
        self.last_tick = now;
    }

    /// Goes on to the next pattern.
    pub fn next_pattern(&mut self)
        requires
            old(self)@.wf(),
        ensures
            final(self)@ == old(self)@.after_next_pattern(),
            final(self)@.wf(),
    {
        self.pattern = self.pattern.next();
        self.idx = 0;
    }

    /// Speeds up by a step, within limits.
    pub fn faster(&mut self)
        requires
            old(self)@.wf(),
        ensures
            final(self)@ == old(self)@.after_tempo_change(BPM_STEP as int),
            final(self)@.wf(),
    {
        let bpm: u32 = self.bpm + BPM_STEP;
        self.bpm = if bpm > MAX_BPM { MAX_BPM } else { bpm };
    }

    /// Slows down by a step, within limits.
    pub fn slower(&mut self)
        requires
            old(self)@.wf(),
        ensures
            final(self)@ == old(self)@.after_tempo_change(-(BPM_STEP as int)),
            final(self)@.wf(),
    {
        let bpm: u32 = self.bpm - BPM_STEP;
        self.bpm = if bpm < MIN_BPM { MIN_BPM } else { bpm };
    }

    /// Starts to hold a key.
    pub fn key_down(&mut self, key: char)
        requires
            old(self)@.wf(),
            old(self)@.on,
            keyboard::is_piano_key(key),
        ensures
            final(self)@ == old(self)@.after_key_down(key),
            final(self)@.wf(),
    {
        if !lists_key(&self.held_notes, key) {
            self.held_notes.push(key);
            self.idx = 0;
        }
    }

    /// Stops to hold a key.
    pub fn key_up(&mut self, notes: &mut ActiveNotes, key: char)
        requires
            old(self)@.wf(),
            old(notes).wf(),
        ensures
            final(self)@ == old(self)@.after_key_up(key),
            final(self)@.wf(),
            final(notes).wf(),
            final(notes)@ == old(self)@.notes_after_key_up(old(notes)@, key),
    {
        proof {
            lemma_filter_keeps_keys(self.held_notes@, other_than(key));
        }
        self.held_notes = without(&self.held_notes, key);
        if self.held_notes.is_empty() {
            if let Some(prev) = self.last {
                notes.fade(prev);
            }
            self.last = None;
        }
    }

    /// How long to wait for input, in nanoseconds: until the next beat, or a minute.
    pub fn wait(&self, now: u64) -> (nanoseconds: u64)
        requires
            self@.wf(),
        ensures
            nanoseconds == self@.wait(now),
    {
        if self.on {
            let beat: u64 = 60_000 / (self.bpm as u64) * 1_000_000;
            beat.saturating_sub(now.saturating_sub(self.last_tick))
        } else {
            IDLE_WAIT
        }
    }
}

/// Leaves out a key.
fn without(keys: &Vec<char>, key: char) -> (kept: Vec<char>)
    ensures
        kept@ == others(keys@, key),
{
    let ghost other = other_than(key);
    let mut kept: Vec<char> = Vec::new();
    assert(keys@.take(0).filter(other) =~= Seq::<char>::empty()) by {
        reveal(Seq::filter);
    }
    for i in 0..keys.len()
        invariant
            other == other_than(key),
            kept@ == keys@.take(i as int).filter(other),
    {
        let k = keys[i];
        proof {
            assert(keys@.take(i + 1) =~= keys@.take(i as int).push(k));
            keys@.take(i as int).lemma_filter_push(k, other);
        }
        if k != key {
            kept.push(k);
        }
    }
    assert(keys@.take(keys@.len() as int) =~= keys@);
    kept
}

/// Different piano keys stay so when some are taken out.
proof fn lemma_filter_keeps_keys(keys: Seq<char>, wanted: spec_fn(char) -> bool)
    requires
        keys.no_duplicates(),
        forall|i: int| 0 <= i < keys.len() ==> keyboard::is_piano_key(#[trigger] keys[i]),
    ensures
        keys.filter(wanted).no_duplicates(),
        forall|i: int|
            0 <= i < keys.filter(wanted).len() ==> keyboard::is_piano_key(
                #[trigger] keys.filter(wanted)[i],
            ),
        forall|key: char| keys.filter(wanted).contains(key) ==> keys.contains(key),
    decreases keys.len(),
{
    reveal(Seq::filter);
    if keys.len() > 0 {
        let rest = keys.drop_last();
        let last = keys.last();
        assert forall|i: int| 0 <= i < rest.len() implies keyboard::is_piano_key(
            #[trigger] rest[i],
        ) by {
            assert(keys[i] == rest[i]);
        }
        lemma_filter_keeps_keys(rest, wanted);
        let kept = rest.filter(wanted);
        assert(!rest.contains(last)) by {
            if rest.contains(last) {
                let i = choose|i: int| 0 <= i < rest.len() && rest[i] == last;
                assert(keys[i] == last);
            }
        }
        assert(!kept.contains(last));
        assert(keyboard::is_piano_key(keys[keys.len() - 1]));
        assert forall|key: char| keys.filter(wanted).contains(key) implies keys.contains(key) by {
            let i = choose|i: int|
                0 <= i < keys.filter(wanted).len() && keys.filter(wanted)[i] == key;
            if i < kept.len() {
                assert(kept[i] == key);
                assert(rest.contains(key));
                let j = choose|j: int| 0 <= j < rest.len() && rest[j] == key;
                assert(keys[j] == key);
            } else {
                assert(keys[keys.len() - 1] == key);
            }
        }
    }
}

/// A beat plays one of the held keys, and plays nothing when none is held.
pub proof fn law_arp_plays_held_keys(arp: ArpModel)
    requires
        arp.wf(),
    ensures
        arp.next_key() is Some <==> arp.held.len() > 0,
        arp.next_key() matches Some(key) ==> arp.held.contains(key),
{
    if arp.held.len() > 0 {
        arp::law_sorting_keeps_the_keys(arp.held);
        arp::law_pattern_stays_in_range(arp.pattern, arp.idx, arp.held.len() as int);
        let key = arp.next_key()->0;
        assert(arp::by_pitch(arp.held).contains(key));
    }
}

/// At a beat the note played before it ends, unless it is the turn of the same key again; the key
/// whose turn it is becomes pressed if its last note has faded away.
pub proof fn law_arp_plays_one_note_at_a_time(
    arp: ArpModel,
    notes: Map<char, Note>,
    velocity: u8,
    waveform: Waveform,
)
    ensures
        arp.last matches Some(prev) ==> arp.next_key() != Some(prev) ==> !active_notes::pressed(
            arp.notes_after_tick(notes, velocity, waveform),
        ).contains(prev),
        arp.next_key() matches Some(key) ==> !notes.contains_key(key) ==> active_notes::pressed(
            arp.notes_after_tick(notes, velocity, waveform),
        ).contains(key),
{
}

/// When the last held key goes up, the note played last ends, and nothing is played any more.
pub proof fn law_arp_stops_with_the_last_key(arp: ArpModel, notes: Map<char, Note>, key: char)
    requires
        arp.wf(),
        arp.held == seq![key],
    ensures
        arp.after_key_up(key).next_key() is None,
        arp.after_key_up(key).last is None,
        arp.last matches Some(prev) ==> !active_notes::pressed(
            arp.notes_after_key_up(notes, key),
        ).contains(prev),
{
    reveal_with_fuel(Seq::filter, 2);
    assert(arp.held.drop_last() =~= Seq::<char>::empty());
    assert(others(arp.held, key).len() == 0);
}

/// A key that goes down and up again leaves the others as they were held.
pub proof fn law_key_down_and_up(arp: ArpModel, key: char)
    requires
        arp.wf(),
        !arp.held.contains(key),
    ensures
        arp.after_key_down(key).after_key_up(key).held == arp.held,
{
    arp.held.lemma_filter_push(key, other_than(key));
    arp::lemma_filter_keeps_all(arp.held, other_than(key));
}

/// Switching off lets every note end and forgets the held keys, so that switching on again starts
/// afresh.
pub proof fn law_switching_off_clears(arp: ArpModel, notes: Map<char, Note>, off: u64, on: u64)
    requires
        arp.wf(),
        arp.on,
    ensures
        active_notes::pressed(arp.notes_after_toggle(notes)) == Set::<char>::empty(),
        arp.after_toggle(off).after_toggle(on) == (ArpModel {
            held: seq![],
            last: None,
            idx: 0,
            last_tick: on,
            ..arp
        }),
{
    active_notes::law_fade_all_presses_nothing(notes);
}

/// Beats are between a fifth of a second and one and a half seconds apart, and the wait for one is
/// never longer than that.
pub proof fn law_beats_keep_time(arp: ArpModel, now: u64)
    requires
        arp.wf(),
    ensures
        200_000_000 <= arp.beat() <= 1_500_000_000,
        arp.on ==> 0 <= arp.wait(now) <= arp.beat(),
        arp.on && now >= arp.last_tick + arp.beat() ==> arp.wait(now) == 0,
{
    assert(200 <= 60_000int / arp.bpm <= 1500) by (nonlinear_arith)
        requires
            40 <= arp.bpm <= 300,
    ;
}

/// A beat keeps the arpeggiator in order.
pub proof fn law_tick_stays_in_order(arp: ArpModel, now: u64)
    requires
        arp.wf(),
    ensures
        arp.after_tick(now).wf(),
{
    law_arp_plays_held_keys(arp);
    if let Some(key) = arp.next_key() {
        let i = choose|i: int| 0 <= i < arp.held.len() && arp.held[i] == key;
        assert(keyboard::is_piano_key(arp.held[i]));
    }
}

/// Holding one more key keeps the arpeggiator in order.
pub proof fn law_key_down_stays_in_order(arp: ArpModel, key: char)
    requires
        arp.wf(),
        arp.on,
        keyboard::is_piano_key(key),
    ensures
        arp.after_key_down(key).wf(),
{
}

/// Letting go of a key keeps the arpeggiator in order.
pub proof fn law_key_up_stays_in_order(arp: ArpModel, key: char)
    requires
        arp.wf(),
    ensures
        arp.after_key_up(key).wf(),
{
    lemma_filter_keeps_keys(arp.held, other_than(key));
    arp.held.lemma_filter_len(other_than(key));
}

/// Each beat plays the key that the chosen pattern asks for: of the held keys from the lowest pitch
/// class to the highest, going up the one whose number is the count of beats, over and over; going
/// down the same counted from the top; and going up and down the one that a walk to the top and
/// back, without repeating the ends, has come to.
pub proof fn law_beats_follow_the_pattern(arp: ArpModel)
    requires
        arp.wf(),
        arp.held.len() > 0,
    ensures
        ({
            let n = arp.held.len() as int;
            let sorted = arp::by_pitch(arp.held);
            let walk = arp.idx % (2 * (n - 1));
            &&& sorted.len() == n
            &&& arp.pattern is Up ==> arp.next_key() == Some(sorted[arp.idx % n])
            &&& arp.pattern is Down ==> arp.next_key() == Some(sorted[n - 1 - arp.idx % n])
            &&& arp.pattern is UpDown && n == 1 ==> arp.next_key() == Some(sorted[0])
            &&& arp.pattern is UpDown && n > 1 && walk < n ==> arp.next_key() == Some(sorted[walk])
            &&& arp.pattern is UpDown && n > 1 && walk >= n ==> arp.next_key() == Some(
                sorted[2 * (n - 1) - walk],
            )
        }),
{
    arp::law_sorting_keeps_the_keys(arp.held);
}

/// The first beat going up, or up and down, plays one of the held keys that no other is below, and
/// the first beat going down one that no other is above.
pub proof fn law_first_beat(arp: ArpModel, key: char)
    requires
        arp.wf(),
        arp.idx == 0,
        arp.held.contains(key),
    ensures
        arp.next_key() is Some,
        arp.held.contains(arp.next_key()->0),
        !(arp.pattern is Down) ==> keyboard::pitch_class(arp.next_key()->0)->0
            <= keyboard::pitch_class(key)->0,
        arp.pattern is Down ==> keyboard::pitch_class(arp.next_key()->0)->0
            >= keyboard::pitch_class(key)->0,
{
    let n = arp.held.len() as int;
    let sorted = arp::by_pitch(arp.held);
    law_arp_plays_held_keys(arp);
    law_beats_follow_the_pattern(arp);
    arp::law_sorting_keeps_the_keys(arp.held);
    assert(sorted.contains(key));
    let i = choose|i: int| 0 <= i < sorted.len() && sorted[i] == key;
    vstd::arithmetic::div_mod::lemma_small_mod(0, n as nat);
    if n > 1 {
        vstd::arithmetic::div_mod::lemma_small_mod(0, (2 * (n - 1)) as nat);
    }
    arp::law_keys_are_sorted_by_what_they_play(arp.held, 0, i);
    arp::law_keys_are_sorted_by_what_they_play(arp.held, i, n - 1);
}

/// A beat that plays counts one further, remembers its key and its time, and changes nothing else;
/// one that has nothing to play only remembers its time.
pub proof fn law_beats_are_counted(arp: ArpModel, now: u64)
    ensures
        arp.after_tick(now) == (ArpModel {
            idx: if arp.held.len() > 0 {
                arp.idx + 1
            } else {
                arp.idx
            },
            last: if arp.held.len() > 0 {
                arp.next_key()
            } else {
                arp.last
            },
            last_tick: now,
            ..arp
        }),
{
}

/// What a beat does to the notes: the one played before begins to fade from where it is; the key
/// whose turn it is, if it is silent, gets a fresh note; all else stays.
pub proof fn law_beats_play_notes(
    arp: ArpModel,
    notes: Map<char, Note>,
    velocity: u8,
    waveform: Waveform,
    key: char,
)
    ensures
        ({
            let after = arp.notes_after_tick(notes, velocity, waveform);
            &&& notes.contains_key(key) && arp.last == Some(key) ==> after.contains_key(key)
                && note::has_only_begun_to_fade(notes[key], after[key])
            &&& notes.contains_key(key) && arp.last != Some(key) ==> after.contains_key(key)
                && after[key] == notes[key]
            &&& !notes.contains_key(key) ==> (after.contains_key(key) <==> arp.next_key() == Some(
                key,
            ))
            &&& !notes.contains_key(key) && arp.next_key() == Some(key) ==> {
                &&& after[key].velocity == velocity
                &&& after[key].waveform == waveform
                &&& after[key].stage is Attack
                &&& after[key].amplitude == 0
                &&& after[key].phase == 0
                &&& !after[key].key_released
            }
        }),
{
}

/// A key that goes down is held behind the others and starts the pattern over; one that is held
/// already changes nothing.
pub proof fn law_held_keys_queue_up(arp: ArpModel, key: char)
    ensures
        arp.held.contains(key) ==> arp.after_key_down(key) == arp,
        !arp.held.contains(key) ==> arp.after_key_down(key) == (ArpModel {
            held: arp.held.push(key),
            idx: 0,
            ..arp
        }),
{
}

/// A key that goes up is held no more, the others stay in their order, and the pattern goes on where
/// it is; only with the last key is the one played last forgotten.
pub proof fn law_key_up_leaves_the_others(arp: ArpModel, key: char, other: char)
    ensures
        others(seq![], key) == Seq::<char>::empty(),
        others(arp.held.push(key), key) == others(arp.held, key),
        other != key ==> others(arp.held.push(other), key) == others(arp.held, key).push(other),
        arp.after_key_up(key) == (ArpModel {
            held: others(arp.held, key),
            last: if others(arp.held, key).len() == 0 {
                None
            } else {
                arp.last
            },
            ..arp
        }),
{
    reveal(Seq::filter);
    assert(others(seq![], key) =~= Seq::<char>::empty());
    arp.held.lemma_filter_push(key, other_than(key));
    arp.held.lemma_filter_push(other, other_than(key));
}

/// What a key that goes up does to the notes: with the last held key the note played last begins to
/// fade; otherwise, and with every other note, nothing happens.
pub proof fn law_key_up_ends_only_the_last_note(
    arp: ArpModel,
    notes: Map<char, Note>,
    key: char,
    other: char,
)
    requires
        notes.contains_key(other),
    ensures
        ({
            let after = arp.notes_after_key_up(notes, key);
            &&& after.dom() == notes.dom()
            &&& others(arp.held, key).len() > 0 || arp.last != Some(other) ==> after[other]
                == notes[other]
            &&& others(arp.held, key).len() == 0 && arp.last == Some(other)
                ==> note::has_only_begun_to_fade(notes[other], after[other])
        }),
{
    assert(arp.notes_after_key_up(notes, key).dom() =~= notes.dom());
}

/// Switching on and off: on, it only takes note of the time; off, it forgets keys and count, and all
/// notes begin to fade. Pattern and tempo stay.
pub proof fn law_switching_over(arp: ArpModel, notes: Map<char, Note>, now: u64, key: char)
    ensures
        !arp.on ==> arp.after_toggle(now) == (ArpModel { on: true, last_tick: now, ..arp }),
        !arp.on ==> arp.notes_after_toggle(notes) == notes,
        arp.on ==> arp.after_toggle(now) == (ArpModel {
            on: false,
            held: seq![],
            last: None,
            idx: 0,
            last_tick: now,
            ..arp
        }),
        arp.on && notes.contains_key(key) ==> arp.notes_after_toggle(notes).contains_key(key)
            && note::has_only_begun_to_fade(notes[key], arp.notes_after_toggle(notes)[key]),
{
}

/// The pattern key goes from up to down, from there to up and down, and back to up, and starts the
/// pattern over.
pub proof fn law_pattern_key(arp: ArpModel)
    ensures
        arp.after_next_pattern() == (ArpModel {
            pattern: match arp.pattern {
                ArpPattern::Up => ArpPattern::Down,
                ArpPattern::Down => ArpPattern::UpDown,
                ArpPattern::UpDown => ArpPattern::Up,
            },
            idx: 0,
            ..arp
        }),
{
}

/// The tempo goes up and down in steps of ten beats a minute from 40 to 300, and nothing else
/// changes with it.
pub proof fn law_tempo_steps(arp: ArpModel)
    requires
        arp.wf(),
    ensures
        ({
            let faster = arp.after_tempo_change(BPM_STEP as int);
            let slower = arp.after_tempo_change(-(BPM_STEP as int));
            &&& faster == (ArpModel { bpm: faster.bpm, ..arp })
            &&& slower == (ArpModel { bpm: slower.bpm, ..arp })
            &&& arp.bpm < 300 ==> faster.bpm == arp.bpm + 10
            &&& arp.bpm == 300 ==> faster.bpm == 300
            &&& arp.bpm > 40 ==> slower.bpm == arp.bpm - 10
            &&& arp.bpm == 40 ==> slower.bpm == 40
        }),
{
}

/// So many beats as the tempo says last a minute, to within the milliseconds to which a beat is
/// kept, and the next beat is due one beat after the last. While the arpeggiator is off the wait is
/// a minute.
pub proof fn law_beats_fill_the_minute(arp: ArpModel, now: u64)
    requires
        arp.wf(),
    ensures
        0 <= 60_000_000_000 - arp.bpm * arp.beat() < arp.bpm * 1_000_000,
        arp.beat() % 1_000_000 == 0,
        arp.on && arp.last_tick <= now <= arp.last_tick + arp.beat() ==> now + arp.wait(now)
            == arp.last_tick + arp.beat(),
        arp.on && now > arp.last_tick + arp.beat() ==> arp.wait(now) == 0,
        arp.on && now < arp.last_tick ==> arp.wait(now) == arp.beat(),
        !arp.on ==> arp.wait(now) == 60_000_000_000,
{
    let ms = 60_000int / arp.bpm;
    vstd::arithmetic::div_mod::lemma_fundamental_div_mod(60_000, arp.bpm);
    vstd::arithmetic::div_mod::lemma_mod_bound(60_000, arp.bpm);
    assert(arp.bpm * (ms * 1_000_000) == (arp.bpm * ms) * 1_000_000) by (nonlinear_arith);
}

/// At first the arpeggiator is off, goes up, at 120 beats a minute, and holds nothing.
pub proof fn law_arpeggiator_starts_off(now: u64)
    ensures
        ({
            let arp = Arpeggiator::initial(now);
            &&& !arp.on
            &&& arp.pattern is Up
            &&& arp.bpm == 120
            &&& arp.held.len() == 0
            &&& arp.idx == 0
            &&& arp.last is None
            &&& arp.last_tick == now
        }),
{
}

} // verus!
