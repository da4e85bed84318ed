//! Recording what is played, and playing it back.
//!
//! Times are readings of a clock in nanoseconds.

use vstd::prelude::*;

use crate::active_notes;
use crate::active_notes::ActiveNotes;
use crate::note;
use crate::note::Note;
use crate::waveform::Waveform;

verus! {

/// Which way a key moved.
#[derive(Clone, Copy, PartialEq, Eq, Structural, Debug)]
pub enum RecordKind {
    Press,
    Release,
}

/// A movement of a key, with the time since the recording started.
#[derive(Clone, Copy, PartialEq, Eq, Structural, Debug)]
pub struct RecordedEvent {
    pub timestamp: u64,
    pub key: char,
    pub kind: RecordKind,
    pub velocity: u8,
    pub waveform: Waveform,
}

/// The tape: what was recorded, and since when it is recording.
#[derive(Debug)]
pub struct Tape {
    pub recording: bool,
    pub start: Option<u64>,
    pub recorded: Vec<RecordedEvent>,
}

/// A tape as mathematical values.
#[verifier::ext_equal]
pub struct TapeModel {
    pub recording: bool,
    pub start: Option<u64>,
    pub recorded: Seq<RecordedEvent>,
}

impl View for Tape {
    type V = TapeModel;

    open spec fn view(&self) -> TapeModel {
        TapeModel { recording: self.recording, start: self.start, recorded: self.recorded@ }
    }
}

/// The time from one reading of the clock to another, none if the clock seems to run backwards.
pub open spec fn time_since(earlier: u64, now: u64) -> u64 {
    if now >= earlier {
        (now - earlier) as u64
    } else {
        0
    }
}

impl TapeModel {
    /// While it records, the tape knows since when.
    pub open spec fn wf(self) -> bool {
        self.recording ==> self.start is Some
    }

    /// After the record key: a recording ends, or a new one starts on an empty tape.
    pub open spec fn after_toggle(self, now: u64) -> TapeModel {
        if self.recording {
            TapeModel { recording: false, ..self }
        } else {
            TapeModel { recording: true, start: Some(now), recorded: seq![] }
        }
    }

    /// After a key moved. Only a tape that records takes note of it.
    pub open spec fn after_key(
        self,
        key: char,
        kind: RecordKind,
        velocity: u8,
        waveform: Waveform,
        now: u64,
    ) -> TapeModel {
        if self.recording && self.start is Some {
            let timestamp = time_since(self.start->0, now);
            TapeModel {
                recorded: self.recorded.push(
                    RecordedEvent { timestamp, key, kind, velocity, waveform },
                ),
                ..self
            }
        } else {
            self
        }
    }
}

impl Tape {
    /// An empty tape that does not record.
    pub fn new() -> (tape: Self)
        ensures
            tape@ == (TapeModel { recording: false, start: None, recorded: seq![] }),
            tape@.wf(),
    {
        Tape { recording: false, start: None, recorded: Vec::new() }
    }

    /// Starts a new recording, or ends the present one.
    pub fn toggle(&mut self, now: u64)
        requires
            old(self)@.wf(),
        ensures
            final(self)@ == old(self)@.after_toggle(now),
            final(self)@.wf(),
    {
        if self.recording {
            self.recording = false;
        } else {
            self.recorded.clear();
            self.start = Some(now);
            self.recording = true;
        }
    }

    /// Takes note of a movement of a key if it is recording.
    pub fn note_key(
        &mut self,
        key: char,
        kind: RecordKind,
        velocity: u8,
        waveform: Waveform,
        now: u64,
    )
        requires
            old(self)@.wf(),
        ensures
            final(self)@ == old(self)@.after_key(key, kind, velocity, waveform, now),
            final(self)@.wf(),
    {
        if self.recording {
            if let Some(start) = self.start {
                self.recorded.push(
                    RecordedEvent {
                        timestamp: now.saturating_sub(start),
                        key,
                        kind,
                        velocity,
                        waveform,
                    },
                );
            }
        }
    }
}

/// What a playback asks for next.
#[derive(Clone, Copy, PartialEq, Eq, Structural, Debug)]
pub enum PlaybackAction {
    /// Wait for so many nanoseconds.
    Sleep(u64),
    /// Let the instrument do what was recorded.
    Apply(RecordedEvent),
    /// It is over.
    Finish,
}

/// A playback under way. It has played `position` events; `due` tells that the wait for the next
/// one is over.
#[derive(Debug)]
pub struct Playback {
    events: Vec<RecordedEvent>,
    looping: bool,
    position: usize,
    due: bool,
}

/// A playback as mathematical values.
#[verifier::ext_equal]
pub struct PlaybackModel {
    pub events: Seq<RecordedEvent>,
    pub looping: bool,
    pub position: int,
    pub due: bool,
}

impl View for Playback {
    type V = PlaybackModel;

    closed spec fn view(&self) -> PlaybackModel {
        PlaybackModel {
            events: self.events@,
            looping: self.looping,
            position: self.position as int,
            due: self.due,
        }
    }
}

/// The wait before an event: the time since the event before it, or since the start.
pub open spec fn gap_before(events: Seq<RecordedEvent>, i: int) -> u64 {
    time_since(
        if i == 0 {
            0
        } else {
            events[i - 1].timestamp
        },
        events[i].timestamp,
    )
}

impl PlaybackModel {
    /// There is something to play, and the position lies on the tape.
    pub open spec fn wf(self) -> bool {
        &&& self.events.len() > 0
        &&& 0 <= self.position <= self.events.len()
        &&& self.due ==> self.position < self.events.len()
    }

    /// The position to play from: a loop that came to the end goes back to the start.
    pub open spec fn upcoming(self) -> int {
        if self.looping && self.position == self.events.len() {
            0
        } else {
            self.position
        }
    }

    /// Whether the playback is over: when it has been called off, and, unless it loops, when the
    /// tape is through.
    pub open spec fn is_over(self, called_off: bool) -> bool {
        called_off || (!self.looping && self.position == self.events.len())
    }

    /// What comes next.
    pub open spec fn action(self, called_off: bool) -> PlaybackAction {
        if self.is_over(called_off) {
            PlaybackAction::Finish
        } else if self.due {
            PlaybackAction::Apply(self.events[self.position])
        } else {
            PlaybackAction::Sleep(gap_before(self.events, self.upcoming()))
        }
    }

    /// The playback after that.
    pub open spec fn after(self, called_off: bool) -> PlaybackModel {
        if self.is_over(called_off) {
            self
        } else if self.due {
            PlaybackModel { position: self.position + 1, due: false, ..self }
        } else {
            PlaybackModel { position: self.upcoming(), due: true, ..self }
        }
    }
}

impl Playback {
    /// Starts to play a tape, once or over and over. There has to be something on it.
    pub fn new(tape: &Vec<RecordedEvent>, looping: bool) -> (playback: Self)
        requires
            tape@.len() > 0,
        ensures
            playback@ == (PlaybackModel { events: tape@, looping, position: 0, due: false }),
            playback@.wf(),
    {
        let mut events: Vec<RecordedEvent> = Vec::new();
        for i in 0..tape.len()
            invariant
                events@ == tape@.take(i as int),
        {
            events.push(tape[i]);
            assert(tape@.take(i + 1) =~= tape@.take(i as int).push(tape@[i as int]));
        }
        assert(tape@.take(tape@.len() as int) =~= tape@);
        Playback { events, looping, position: 0, due: false }
    }

    /// Goes on by one action. `called_off` tells that the player has stopped the playback.
    pub fn step(&mut self, called_off: bool) -> (action: PlaybackAction)
        requires
            old(self)@.wf(),
        ensures
            action == old(self)@.action(called_off),
            final(self)@ == old(self)@.after(called_off),
            final(self)@.wf(),
    {
        if called_off {
            return PlaybackAction::Finish;
        }
        if self.position == self.events.len() {
            if !self.looping {
                return PlaybackAction::Finish;
            }
            self.position = 0;
        }
        let event = self.events[self.position];
        if self.due {
            self.position = self.position + 1;
            self.due = false;
            PlaybackAction::Apply(event)
        } else {
            let prev: u64 = if self.position == 0 {
                0
            } else {
                self.events[self.position - 1].timestamp
            };
            self.due = true;
            PlaybackAction::Sleep(event.timestamp.saturating_sub(prev))
        }
    }
}

/// The notes after the instrument did what was recorded.
pub open spec fn notes_after_event(notes: Map<char, Note>, event: RecordedEvent) -> Map<char, Note> {
    match event.kind {
        RecordKind::Press => active_notes::after_strike(
            notes,
            event.key,
            event.velocity,
            event.waveform,
        ),
        RecordKind::Release => active_notes::after_fade(notes, event.key),
    }
}

/// Does what was recorded.
pub fn apply_event(notes: &mut ActiveNotes, event: RecordedEvent)
    requires
        old(notes).wf(),
    ensures
        final(notes).wf(),
        final(notes)@ == notes_after_event(old(notes)@, event),
{
    match event.kind {
        RecordKind::Press => {
            notes.strike(event.key, event.velocity, event.waveform);
        },
        RecordKind::Release => {
            notes.fade(event.key);
        },
    }
}

/// The notes after the instrument did, one after the other, all that was recorded.
pub open spec fn notes_after_events(notes: Map<char, Note>, events: Seq<RecordedEvent>) -> Map<
    char,
    Note,
>
    decreases events.len(),
{
    if events.len() == 0 {
        notes
    } else {
        notes_after_event(notes_after_events(notes, events.drop_last()), events.last())
    }
}

/// A playback that is not called off after a number of steps.
pub open spec fn after_steps(playback: PlaybackModel, steps: nat) -> PlaybackModel
    decreases steps,
{
    if steps == 0 {
        playback
    } else {
        after_steps(playback, (steps - 1) as nat).after(false)
    }
}

/// A playback of a tape from the start.
pub open spec fn from_start(events: Seq<RecordedEvent>, looping: bool) -> PlaybackModel {
    PlaybackModel { events, looping, position: 0, due: false }
}

proof fn lemma_once(events: Seq<RecordedEvent>, i: nat)
    requires
        events.len() > 0,
        i <= events.len(),
    ensures
        after_steps(from_start(events, false), 2 * i) == (PlaybackModel {
            position: i as int,
            ..from_start(events, false)
        }),
        i < events.len() ==> after_steps(from_start(events, false), 2 * i + 1) == (PlaybackModel {
            position: i as int,
            due: true,
            ..from_start(events, false)
        }),
    decreases i,
{
    if i > 0 {
        lemma_once(events, (i - 1) as nat);
        assert((2 * i - 1) as nat == 2 * (i - 1) as nat + 1);
    }
}

/// Playing a tape once plays every event, in order and just once, each after its gap, and then is
/// over.
pub proof fn law_playing_once_plays_the_tape(events: Seq<RecordedEvent>, i: nat)
    requires
        i < events.len(),
    ensures
        after_steps(from_start(events, false), 2 * i).action(false) == PlaybackAction::Sleep(
            gap_before(events, i as int),
        ),
        after_steps(from_start(events, false), 2 * i + 1).action(false) == PlaybackAction::Apply(
            events[i as int],
        ),
        after_steps(from_start(events, false), 2 * events.len()).action(false)
            == PlaybackAction::Finish,
{
    lemma_once(events, i);
    lemma_once(events, events.len());
}

/// A playback that is called off, be it a loop or not, ends at its next step, wherever it has got
/// to, and plays nothing more.
pub proof fn law_called_off_playback_ends(playback: PlaybackModel)
    ensures
        playback.action(true) == PlaybackAction::Finish,
        playback.after(true) == playback,
{
}

proof fn lemma_loop(events: Seq<RecordedEvent>, i: nat)
    requires
        events.len() > 0,
    ensures
        after_steps(from_start(events, true), 2 * i + 1) == (PlaybackModel {
            position: i as int % events.len() as int,
            due: true,
            ..from_start(events, true)
        }),
        after_steps(from_start(events, true), 2 * i).upcoming() == i as int
            % events.len() as int,
        after_steps(from_start(events, true), 2 * i).due == false,
        after_steps(from_start(events, true), 2 * i).looping,
        after_steps(from_start(events, true), 2 * i).events == events,
    decreases i,
{
    let n = events.len() as int;
    if i > 0 {
        lemma_loop(events, (i - 1) as nat);
        assert((2 * i - 1) as nat == 2 * (i - 1) as nat + 1);
        let before = (i - 1) as int % n;
        vstd::arithmetic::div_mod::lemma_mod_bound(i - 1, n);
        vstd::arithmetic::div_mod::lemma_add_mod_noop(i - 1, 1, n);
        if before + 1 == n {
            vstd::arithmetic::div_mod::lemma_mod_self_0(n);
        } else {
            vstd::arithmetic::div_mod::lemma_small_mod((before + 1) as nat, n as nat);
        }
        if n == 1 {
            vstd::arithmetic::div_mod::lemma_mod_self_0(n);
        } else {
            vstd::arithmetic::div_mod::lemma_small_mod(1, n as nat);
        }
    } else {
        vstd::arithmetic::div_mod::lemma_small_mod(0, n as nat);
    }
    assert((2 * i + 1 - 1) as nat == 2 * i);
    let here = after_steps(from_start(events, true), 2 * i);
    assert(after_steps(from_start(events, true), 2 * i + 1) == here.after(false));
    assert(here.upcoming() == i as int % n);
}

/// A loop plays the tape over and over, always in order and with the same gaps.
pub proof fn law_looping_repeats_the_tape(events: Seq<RecordedEvent>, i: nat)
    requires
        events.len() > 0,
    ensures
        after_steps(from_start(events, true), 2 * i).action(false) == PlaybackAction::Sleep(
            gap_before(events, i as int % events.len() as int),
        ),
        after_steps(from_start(events, true), 2 * i + 1).action(false) == PlaybackAction::Apply(
            events[i as int % events.len() as int],
        ),
{
    lemma_loop(events, i);
}

/// Whether timestamps never fall.
pub open spec fn in_order(events: Seq<RecordedEvent>) -> bool {
    forall|i: int, j: int|
        0 <= i <= j < events.len() ==> (#[trigger] events[i]).timestamp <= (
        #[trigger] events[j]).timestamp
}

/// How long a playback has waited in all when it comes to an event.
pub open spec fn waited(events: Seq<RecordedEvent>, i: nat) -> int
    decreases i,
{
    gap_before(events, i as int) + (if i == 0 {
        0
    } else {
        waited(events, (i - 1) as nat)
    })
}

/// A playback comes to every event as long after its start as the recording did.
pub proof fn law_playback_keeps_time(events: Seq<RecordedEvent>, i: nat)
    requires
        in_order(events),
        i < events.len(),
    ensures
        waited(events, i) == events[i as int].timestamp,
    decreases i,
{
    if i > 0 {
        law_playback_keeps_time(events, (i - 1) as nat);
        assert(events[i - 1].timestamp <= events[i as int].timestamp);
    }
}

/// As long as the clock does not run backwards, what is recorded is in order.
pub proof fn law_recording_is_in_order(
    tape: TapeModel,
    key: char,
    kind: RecordKind,
    velocity: u8,
    waveform: Waveform,
    before: u64,
    now: u64,
)
    requires
        tape.wf(),
        in_order(tape.recorded),
        before <= now,
        tape.start matches Some(start) ==> forall|i: int|
            0 <= i < tape.recorded.len() ==> (#[trigger] tape.recorded[i]).timestamp <= time_since(
                start,
                before,
            ),
    ensures
        ({
            let after = tape.after_key(key, kind, velocity, waveform, now);
            &&& in_order(after.recorded)
            &&& after.start == tape.start
            &&& after.start matches Some(start) ==> forall|i: int|
                0 <= i < after.recorded.len() ==> (#[trigger] after.recorded[i]).timestamp
                    <= time_since(start, now)
        }),
        in_order(tape.after_toggle(now).recorded),
{
    let after = tape.after_key(key, kind, velocity, waveform, now);
    if let Some(start) = tape.start {
        assert(time_since(start, before) <= time_since(start, now));
        assert forall|i: int| 0 <= i < after.recorded.len() implies (
        #[trigger] after.recorded[i]).timestamp <= time_since(start, now) by {
            if i < tape.recorded.len() {
                assert(after.recorded[i] == tape.recorded[i]);
            }
        }
        assert forall|i: int, j: int| 0 <= i <= j < after.recorded.len() implies (
        #[trigger] after.recorded[i]).timestamp <= (#[trigger] after.recorded[j]).timestamp by {
            if j < tape.recorded.len() {
                assert(after.recorded[i] == tape.recorded[i]);
                assert(after.recorded[j] == tape.recorded[j]);
            } else if i < tape.recorded.len() {
                assert(after.recorded[i] == tape.recorded[i]);
            }
        }
    }
}

/// A tape that does not record stays as it is, and what a finished recording holds is kept until
/// the next one starts, which starts empty.
pub proof fn law_tape_keeps_its_recording(
    tape: TapeModel,
    key: char,
    kind: RecordKind,
    velocity: u8,
    waveform: Waveform,
    now: u64,
)
    ensures
        !tape.recording ==> tape.after_key(key, kind, velocity, waveform, now) == tape,
        tape.recording ==> tape.after_toggle(now).recorded == tape.recorded,
        !tape.recording ==> tape.after_toggle(now).recorded.len() == 0,
{
}

/// While the tape records, a moved key adds one event behind the others, with the time since the
/// recording started; otherwise nothing is added. The tape goes on recording, or not, as before.
pub proof fn law_moved_keys_are_recorded(
    tape: TapeModel,
    key: char,
    kind: RecordKind,
    velocity: u8,
    waveform: Waveform,
    now: u64,
)
    requires
        tape.wf(),
    ensures
        ({
            let after = tape.after_key(key, kind, velocity, waveform, now);
            &&& after.recording == tape.recording
            &&& after.start == tape.start
            &&& !tape.recording ==> after.recorded == tape.recorded
            &&& tape.recording ==> {
                let event = after.recorded.last();
                &&& after.recorded.drop_last() == tape.recorded
                &&& after.recorded.len() == tape.recorded.len() + 1
                &&& event.key == key
                &&& event.kind == kind
                &&& event.velocity == velocity
                &&& event.waveform == waveform
                &&& now >= tape.start->0 ==> tape.start->0 + event.timestamp == now
                &&& now < tape.start->0 ==> event.timestamp == 0
            }
        }),
{
    let after = tape.after_key(key, kind, velocity, waveform, now);
    if tape.recording {
        assert(after.recorded.drop_last() =~= tape.recorded);
    }
}

/// The record key starts a recording on an empty tape, from that time on, and ends it with all that
/// was recorded.
pub proof fn law_record_key(tape: TapeModel, now: u64)
    ensures
        !tape.recording ==> {
            &&& tape.after_toggle(now).recording
            &&& tape.after_toggle(now).start == Some(now)
            &&& tape.after_toggle(now).recorded.len() == 0
        },
        tape.recording ==> {
            &&& !tape.after_toggle(now).recording
            &&& tape.after_toggle(now).start == tape.start
            &&& tape.after_toggle(now).recorded == tape.recorded
        },
{
}

/// Played back, a press strikes a fresh note with the velocity and waveform that were recorded,
/// unless the key still sounds, and a release lets the note of the key begin to fade. No other note
/// is touched.
pub proof fn law_events_move_one_key(notes: Map<char, Note>, event: RecordedEvent, other: char)
    requires
        other != event.key,
    ensures
        ({
            let after = notes_after_event(notes, event);
            &&& after.contains_key(other) <==> notes.contains_key(other)
            &&& notes.contains_key(other) ==> after[other] == notes[other]
            &&& event.kind is Press && notes.contains_key(event.key) ==> after == notes
            &&& event.kind is Press && !notes.contains_key(event.key) ==> {
                &&& after.contains_key(event.key)
                &&& after[event.key].velocity == event.velocity
                &&& after[event.key].waveform == event.waveform
                &&& after[event.key].stage is Attack
                &&& after[event.key].amplitude == 0
                &&& after[event.key].phase == 0
                &&& !after[event.key].key_released
            }
            &&& event.kind is Release && notes.contains_key(event.key) ==> {
                &&& after.contains_key(event.key)
                &&& note::has_only_begun_to_fade(notes[event.key], after[event.key])
            }
            &&& event.kind is Release && !notes.contains_key(event.key) ==> after == notes
        }),
{
}

/// The wait before an event is the time by which it came after the one before, or after the start;
/// none if it is said to have come earlier.
pub proof fn law_gaps_are_times_between_events(events: Seq<RecordedEvent>, i: int)
    requires
        0 <= i < events.len(),
    ensures
        i == 0 ==> gap_before(events, i) == events[0].timestamp,
        i > 0 && events[i - 1].timestamp <= events[i].timestamp ==> events[i - 1].timestamp
            + gap_before(events, i) == events[i].timestamp,
        i > 0 && events[i - 1].timestamp > events[i].timestamp ==> gap_before(events, i) == 0,
{
}

/// Steps never change what is played, nor whether it is repeated; each plays one event further, or
/// waits for it.
pub proof fn law_steps_go_through_the_tape(playback: PlaybackModel)
    requires
        playback.wf(),
    ensures
        ({
            let after = playback.after(false);
            &&& after.events == playback.events
            &&& after.looping == playback.looping
            &&& playback.action(false) matches PlaybackAction::Apply(event) ==> {
                &&& playback.due && !after.due
                &&& event == playback.events[playback.position]
                &&& after.position == playback.position + 1
            }
            &&& playback.action(false) is Sleep ==> {
                &&& !playback.due && after.due
                &&& after.position == playback.position || (playback.looping && playback.position
                    == playback.events.len() && after.position == 0)
            }
            &&& playback.action(false) is Finish <==> !playback.looping && playback.position
                == playback.events.len()
        }),
{
}

} // verus!
