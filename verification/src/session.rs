//! The instrument as a whole: what every event does to it.
//!
//! Times are readings of a clock in nanoseconds.

use vstd::prelude::*;

use crate::active_notes;
use crate::active_notes::ActiveNotes;
use crate::arp::ArpPattern;
use crate::arpeggiator;
use crate::arpeggiator::{ArpModel, Arpeggiator, BPM_STEP};
use crate::command;
use crate::command::{decode, Command, Key, KeyKind};
use crate::controls;
use crate::controls::Controls;
use crate::keyboard;
use crate::note;
use crate::note::Note;
use crate::tape;
use crate::tape::{Playback, PlaybackModel, RecordKind, Tape, TapeModel};

verus! {

/// Whether a playback is under way, whether it is a loop, and whether it has been called off and
/// is about to end. A loop that has been called off counts as a loop no more.
#[derive(Clone, Copy, PartialEq, Eq, Structural, Debug)]
pub struct Transport {
    pub playing: bool,
    pub looping: bool,
    pub called_off: bool,
}

impl Transport {
    /// At rest.
    pub open spec fn stopped() -> Transport {
        Transport { playing: false, looping: false, called_off: false }
    }

    /// Only a playback can loop or be called off, and not both.
    pub open spec fn wf(self) -> bool {
        &&& self.looping ==> self.playing
        &&& self.called_off ==> self.playing && !self.looping
    }

    /// At rest.
    pub fn new() -> (transport: Self)
        ensures
            transport == Transport::stopped(),
            transport.wf(),
    {
        Transport { playing: false, looping: false, called_off: false }
    }

    /// Takes note that the playback is over.
    pub fn finish(&mut self)
        ensures
            *final(self) == Transport::stopped(),
            final(self).wf(),
    {
        self.playing = false;
        self.looping = false;
        self.called_off = false;
    }
}

/// Calls off a playback, be it a loop or not, and lets every note fade.
pub fn stop_playback(transport: &mut Transport, notes: &mut ActiveNotes)
    requires
        old(notes).wf(),
    ensures
        *final(transport) == (Transport { looping: false, called_off: true, ..*old(transport) }),
        final(notes).wf(),
        final(notes)@ == active_notes::after_fade_all(old(notes)@),
{
    transport.looping = false;
    transport.called_off = true;
    notes.fade_all();
}

/// Everything that the player controls, but for the sounding notes and the playback.
#[derive(Debug)]
pub struct Session {
    pub controls: Controls,
    pub arp: Arpeggiator,
    pub tape: Tape,
}

/// What is left to do after an event.
#[derive(Debug)]
pub enum Reaction {
    /// Leave the instrument.
    Quit,
    /// Nothing.
    Nothing,
    /// Draw the screen anew.
    Redraw,
    /// Start a playback and draw the screen anew.
    Start(Playback),
}

/// A reaction as a mathematical value.
pub enum ReactionModel {
    Quit,
    Nothing,
    Redraw,
    Start(PlaybackModel),
}

impl View for Reaction {
    type V = ReactionModel;

    open spec fn view(&self) -> ReactionModel {
        match *self {
            Reaction::Quit => ReactionModel::Quit,
            Reaction::Nothing => ReactionModel::Nothing,
            Reaction::Redraw => ReactionModel::Redraw,
            Reaction::Start(playback) => ReactionModel::Start(playback@),
        }
    }
}

/// The whole instrument: the session, the sounding notes and the state of the playback.
#[verifier::ext_equal]
pub struct State {
    pub controls: Controls,
    pub arp: ArpModel,
    pub tape: TapeModel,
    pub notes: Map<char, Note>,
    pub transport: Transport,
}

impl State {
    /// Every part is in order.
    pub open spec fn wf(self) -> bool {
        &&& self.controls.wf()
        &&& self.arp.wf()
        &&& self.tape.wf()
        &&& self.transport.wf()
    }

    /// After a key of the piano went down: the arpeggiator holds it, or it is struck and recorded.
    pub open spec fn after_key_down(self, key: char, now: u64) -> State {
        if self.arp.on {
            State { arp: self.arp.after_key_down(key), ..self }
        } else {
            State {
                notes: active_notes::after_strike(
                    self.notes,
                    key,
                    self.controls.velocity,
                    self.controls.waveform,
                ),
                tape: self.tape.after_key(
                    key,
                    RecordKind::Press,
                    self.controls.velocity,
                    self.controls.waveform,
                    now,
                ),
                ..self
            }
        }
    }

    /// After a key of the piano went up: the arpeggiator lets it go, or its note ends, if the pedal
    /// does not hold it, and that is recorded.
    pub open spec fn after_key_up(self, key: char, now: u64) -> State {
        if self.arp.on {
            State {
                arp: self.arp.after_key_up(key),
                notes: self.arp.notes_after_key_up(self.notes, key),
                ..self
            }
        } else {
            State {
                notes: active_notes::after_key_up(self.notes, key, self.controls.pedal_down),
                tape: self.tape.after_key(
                    key,
                    RecordKind::Release,
                    self.controls.velocity,
                    self.controls.waveform,
                    now,
                ),
                ..self
            }
        }
    }

    /// Whether a play key starts a playback now.
    pub open spec fn can_start(self) -> bool {
        !self.transport.playing && self.tape.recorded.len() > 0
    }

    /// After one of the two play keys. While a playback is under way they stop it.
    pub open spec fn after_play(self, looping: bool) -> State {
        if self.transport.playing {
            State {
                transport: Transport { looping: false, called_off: true, ..self.transport },
                notes: active_notes::after_fade_all(self.notes),
                ..self
            }
        } else if self.can_start() {
            State {
                transport: Transport { playing: true, looping, called_off: false },
                ..self
            }
        } else {
            self
        }
    }

    /// After a command.
    pub open spec fn after(self, command: Command, now: u64) -> State {
        match command {
            Command::Quit => self,
            Command::Ignore => self,
            Command::Refresh => self,
            Command::PedalUp => State {
                controls: self.controls.after(command),
                notes: if self.controls.pedal_down {
                    active_notes::after_pedal_up(self.notes)
                } else {
                    self.notes
                },
                ..self
            },
            Command::ToggleArp => State {
                arp: self.arp.after_toggle(now),
                notes: self.arp.notes_after_toggle(self.notes),
                ..self
            },
            Command::NextPattern => State { arp: self.arp.after_next_pattern(), ..self },
            Command::Faster => State { arp: self.arp.after_tempo_change(BPM_STEP as int), ..self },
            Command::Slower => State {
                arp: self.arp.after_tempo_change(-(BPM_STEP as int)),
                ..self
            },
            Command::ToggleRecording => State { tape: self.tape.after_toggle(now), ..self },
            Command::PlayOnce => self.after_play(false),
            Command::PlayLoop => self.after_play(true),
            Command::KeyDown(key) => self.after_key_down(key, now),
            Command::KeyUp(key) => self.after_key_up(key, now),
            _ => State { controls: self.controls.after(command), ..self },
        }
    }

    /// What is left to do after a command.
    pub open spec fn reaction(self, command: Command) -> ReactionModel {
        match command {
            Command::Quit => ReactionModel::Quit,
            Command::Ignore => ReactionModel::Nothing,
            Command::PlayOnce => if self.can_start() {
                ReactionModel::Start(tape::from_start(self.tape.recorded, false))
            } else {
                ReactionModel::Redraw
            },
            Command::PlayLoop => if self.can_start() {
                ReactionModel::Start(tape::from_start(self.tape.recorded, true))
            } else {
                ReactionModel::Redraw
            },
            _ => ReactionModel::Redraw,
        }
    }

    /// After a wait for input ran out: the arpeggiator, if it is on, plays a beat.
    pub open spec fn after_timeout(self, now: u64) -> State {
        if self.arp.on {
            State {
                arp: self.arp.after_tick(now),
                notes: self.arp.notes_after_tick(
                    self.notes,
                    self.controls.velocity,
                    self.controls.waveform,
                ),
                ..self
            }
        } else {
            self
        }
    }
}

impl Session {
    /// The instrument that a session, its notes and its playback make up.
    pub open spec fn state(self, notes: ActiveNotes, transport: Transport) -> State {
        State {
            controls: self.controls,
            arp: self.arp@,
            tape: self.tape@,
            notes: notes@,
            transport,
        }
    }

    /// A session as the instrument starts with it.
    pub fn new(now: u64) -> (session: Self)
        ensures
            session.controls == Controls::initial(),
            session.arp@ == Arpeggiator::initial(now),
            session.tape@ == (TapeModel { recording: false, start: None, recorded: seq![] }),
            session.controls.wf(),
            session.arp@.wf(),
            session.tape@.wf(),
    {
        Session { controls: Controls::new(), arp: Arpeggiator::new(now), tape: Tape::new() }
    }

    /// Handles one of the two play keys.
    fn play(
        &mut self,
        notes: &mut ActiveNotes,
        transport: &mut Transport,
        looping: bool,
    ) -> (reaction: Reaction)
        requires
            old(self).state(*old(notes), *old(transport)).wf(),
            old(notes).wf(),
        ensures
            final(self).state(*final(notes), *final(transport)) == old(self).state(
                *old(notes),
                *old(transport),
            ).after_play(looping),
            final(notes).wf(),
            reaction@ == (if old(self).state(*old(notes), *old(transport)).can_start() {
                ReactionModel::Start(tape::from_start(old(self).tape@.recorded, looping))
            } else {
                ReactionModel::Redraw
            }),
    {
        if transport.playing {
            stop_playback(transport, notes);
            Reaction::Redraw
        } else if !self.tape.recorded.is_empty() {
            transport.playing = true;
            transport.looping = looping;
            transport.called_off = false;
            Reaction::Start(Playback::new(&self.tape.recorded, looping))
        } else {
            Reaction::Redraw
        }
    }

    /// Handles an event of the keyboard.
    pub fn on_key(
        &mut self,
        notes: &mut ActiveNotes,
        transport: &mut Transport,
        key: Key,
        kind: KeyKind,
        now: u64,
    ) -> (reaction: Reaction)
        requires
            old(self).state(*old(notes), *old(transport)).wf(),
            old(notes).wf(),
        ensures
            final(self).state(*final(notes), *final(transport)) == old(self).state(
                *old(notes),
                *old(transport),
            ).after(command::decoded(key, kind), now),
            reaction@ == old(self).state(*old(notes), *old(transport)).reaction(
                command::decoded(key, kind),
            ),
            final(self).state(*final(notes), *final(transport)).wf(),
            final(notes).wf(),
    {
        proof {
            command::law_only_piano_keys_play(key, kind);
        }
        let command = decode(key, kind);
        let velocity: u8 = self.controls.velocity;
        let waveform = self.controls.waveform;
        match command {
            Command::Quit => Reaction::Quit,
            Command::Ignore => Reaction::Nothing,
            Command::Refresh => Reaction::Redraw,
            Command::PedalUp => {
                if self.controls.pedal_down {
                    notes.pedal_up();
                }
                self.controls.apply(command);
                Reaction::Redraw
            },
            Command::ToggleArp => {
                self.arp.toggle(notes, now);
                Reaction::Redraw
            },
            Command::NextPattern => {
                self.arp.next_pattern();
                Reaction::Redraw
            },
            Command::Faster => {
                self.arp.faster();
                Reaction::Redraw
            },
            Command::Slower => {
                self.arp.slower();
                Reaction::Redraw
            },
            Command::ToggleRecording => {
                self.tape.toggle(now);
                Reaction::Redraw
            },
            Command::PlayOnce => self.play(notes, transport, false),
            Command::PlayLoop => self.play(notes, transport, true),
            Command::KeyDown(c) => {
                if self.arp.on {
                    self.arp.key_down(c);
                } else {
                    notes.strike(c, velocity, waveform);
                    self.tape.note_key(c, RecordKind::Press, velocity, waveform, now);
                }
                Reaction::Redraw
            },
            Command::KeyUp(c) => {
                if self.arp.on {
                    self.arp.key_up(notes, c);
                } else {
                    notes.key_up(c, self.controls.pedal_down);
                    self.tape.note_key(c, RecordKind::Release, velocity, waveform, now);
                }
                Reaction::Redraw
            },
            _ => {
                self.controls.apply(command);
                Reaction::Redraw
            },
        }
    }

    /// Handles the end of a wait for input, and tells whether the screen is to be drawn anew. The
    /// count of beats has to have room for one more if the arpeggiator holds a key.
    pub fn on_timeout(&mut self, notes: &mut ActiveNotes, now: u64) -> (redraw: bool)
        requires
            old(self).controls.wf(),
            old(self).arp@.wf(),
            old(notes).wf(),
            old(self).arp@.held.len() > 0 ==> old(self).arp.idx < usize::MAX,
        ensures
            forall|transport: Transport| #[trigger]
                final(self).state(*final(notes), transport) == old(self).state(
                    *old(notes),
                    transport,
                ).after_timeout(now),
            redraw == old(self).arp.on,
            final(self).controls == old(self).controls,
            final(self).tape@ == old(self).tape@,
            final(self).arp@.wf(),
            final(notes).wf(),
    {
        if self.arp.on {
            self.arp.tick(notes, self.controls.velocity, self.controls.waveform, now);
            true
        } else {
            false
        }
    }

    /// How long to wait for input, in nanoseconds.
    pub fn wait(&self, now: u64) -> (nanoseconds: u64)
        requires
            self.arp@.wf(),
        ensures
            nanoseconds == self.arp@.wait(now),
    {
        self.arp.wait(now)
    }
}

/// After the presses of some character keys, one after the other.
pub open spec fn after_presses(state: State, keys: Seq<char>, now: u64) -> State
    decreases keys.len(),
{
    if keys.len() == 0 {
        state
    } else {
        after_presses(state, keys.drop_last(), now).after(
            command::decoded(Key::Char(keys.last()), KeyKind::Press),
            now,
        )
    }
}

/// Keys that are pressed together all sound: whichever piano keys are pressed one after the other,
/// those that had faded away become pressed, and nothing that was pressed stops. The press of `r`
/// goes to the recorder instead.
pub proof fn law_pressed_keys_sound_together(state: State, keys: Seq<char>, now: u64)
    requires
        !state.arp.on,
        forall|i: int| 0 <= i < keys.len() ==> keyboard::is_piano_key(#[trigger] keys[i]),
        forall|i: int| 0 <= i < keys.len() ==> #[trigger] keys[i] != 'r',
        forall|i: int| 0 <= i < keys.len() ==> !state.notes.contains_key(#[trigger] keys[i]),
    ensures
        active_notes::pressed(after_presses(state, keys, now).notes) == active_notes::pressed(
            state.notes,
        ).union(keys.to_set()),
        after_presses(state, keys, now).notes.dom() == state.notes.dom().union(keys.to_set()),
        !after_presses(state, keys, now).arp.on,
        after_presses(state, keys, now).controls == state.controls,
        forall|i: int|
            0 <= i < keys.len() ==> #[trigger] after_presses(state, keys, now).notes[keys[i]]
                == Note::struck(state.controls.velocity, state.controls.waveform),
    decreases keys.len(),
{
    if keys.len() > 0 {
        let rest = keys.drop_last();
        let last = keys.last();
        assert forall|i: int| 0 <= i < rest.len() implies keyboard::is_piano_key(#[trigger] rest[i])
            && rest[i] != 'r' && !state.notes.contains_key(rest[i]) by {
            assert(keys[i] == rest[i]);
        }
        law_pressed_keys_sound_together(state, rest, now);
        let before = after_presses(state, rest, now);
        let after = after_presses(state, keys, now);
        assert(keys[keys.len() - 1] == last);
        command::law_piano_keys_play(last);
        assert(after == before.after_key_down(last, now));
        assert(keys.to_set() =~= rest.to_set().insert(last)) by {
            assert forall|key: char| keys.to_set().contains(key) == rest.to_set().insert(
                last,
            ).contains(key) by {
                if keys.contains(key) {
                    let i = choose|i: int| 0 <= i < keys.len() && keys[i] == key;
                    if i < rest.len() {
                        assert(rest[i] == key);
                    }
                }
                if rest.contains(key) {
                    let i = choose|i: int| 0 <= i < rest.len() && rest[i] == key;
                    assert(keys[i] == key);
                }
            }
        }
        if before.notes.contains_key(last) {
            assert(rest.to_set().contains(last));
            let i = choose|i: int| 0 <= i < rest.len() && rest[i] == last;
            assert(before.notes[rest[i]] == Note::struck(
                state.controls.velocity,
                state.controls.waveform,
            ));
        }
        assert(after.notes.dom() =~= state.notes.dom().union(keys.to_set()));
        active_notes::law_strike_presses_silent_keys(
            before.notes,
            last,
            state.controls.velocity,
            state.controls.waveform,
        );
        assert(active_notes::pressed(after.notes) =~= active_notes::pressed(state.notes).union(
            keys.to_set(),
        ));
        assert forall|i: int| 0 <= i < keys.len() implies #[trigger] after.notes[keys[i]]
            == Note::struck(state.controls.velocity, state.controls.waveform) by {
            if i < rest.len() {
                assert(rest[i] == keys[i]);
                assert(before.notes[rest[i]] == Note::struck(
                    state.controls.velocity,
                    state.controls.waveform,
                ));
            }
        }
    } else {
        assert(keys.to_set() =~= Set::<char>::empty());
        assert(active_notes::pressed(state.notes).union(keys.to_set()) =~= active_notes::pressed(
            state.notes,
        ));
        assert(state.notes.dom().union(keys.to_set()) =~= state.notes.dom());
    }
}

/// A key that is pressed and let go again, with the pedal up and no arpeggio, fades, and no other
/// note is touched.
pub proof fn law_press_and_let_go(state: State, key: char, down: u64, up: u64)
    requires
        !state.arp.on,
        !state.controls.pedal_down,
    ensures
        ({
            let after = state.after(Command::KeyDown(key), down).after(Command::KeyUp(key), up);
            &&& active_notes::pressed(after.notes) == active_notes::pressed(state.notes).remove(key)
            &&& after.notes.contains_key(key)
            &&& after.notes.remove(key) == state.notes.remove(key)
            &&& after.controls == state.controls
            &&& after.arp == state.arp
        }),
{
    let after = state.after(Command::KeyDown(key), down).after(Command::KeyUp(key), up);
    assert(active_notes::pressed(after.notes) =~= active_notes::pressed(state.notes).remove(key));
    assert(after.notes.remove(key) =~= state.notes.remove(key));
}

/// A key that is pressed and let go while the pedal is down sounds on until the pedal goes up.
pub proof fn law_pedal_sustains(state: State, key: char, down: u64, up: u64, lifted: u64)
    requires
        !state.arp.on,
        !state.notes.contains_key(key),
    ensures
        ({
            let held = state.after(Command::PedalDown, down).after(
                Command::KeyDown(key),
                down,
            ).after(Command::KeyUp(key), up);
            &&& active_notes::pressed(held.notes).contains(key)
            &&& !active_notes::pressed(held.after(Command::PedalUp, lifted).notes).contains(key)
        }),
{
}

/// What is recorded does to the notes, when it is played back, what the player did to them; keys
/// that were let go while the pedal was down are the exception.
pub proof fn law_playback_repeats_the_player(state: State, key: char, now: u64)
    requires
        !state.arp.on,
        state.tape.wf(),
        state.tape.recording,
    ensures
        ({
            let after = state.after(Command::KeyDown(key), now);
            &&& after.tape.recorded.len() == state.tape.recorded.len() + 1
            &&& tape::notes_after_event(state.notes, after.tape.recorded.last()) == after.notes
        }),
        !state.controls.pedal_down ==> ({
            let after = state.after(Command::KeyUp(key), now);
            &&& after.tape.recorded.len() == state.tape.recorded.len() + 1
            &&& tape::notes_after_event(state.notes, after.tape.recorded.last()) == after.notes
        }),
{
}

/// After some commands, each given at its own time.
pub open spec fn after_commands(state: State, commands: Seq<(Command, u64)>) -> State
    decreases commands.len(),
{
    if commands.len() == 0 {
        state
    } else {
        let (command, now) = commands.last();
        after_commands(state, commands.drop_last()).after(command, now)
    }
}

/// Whether a command is one of those that a recording tells all about: playing keys and turning
/// knobs, but not the pedal, the arpeggiator, the recorder and the play keys.
pub open spec fn is_recordable(command: Command) -> bool {
    match command {
        Command::PedalDown => false,
        Command::PedalUp => false,
        Command::ToggleArp => false,
        Command::ToggleRecording => false,
        Command::PlayOnce => false,
        Command::PlayLoop => false,
        _ => true,
    }
}

proof fn lemma_recording_follows(state: State, commands: Seq<(Command, u64)>, start: u64)
    requires
        !state.arp.on,
        !state.controls.pedal_down,
        !state.tape.recording,
        forall|i: int| 0 <= i < commands.len() ==> is_recordable((#[trigger] commands[i]).0),
    ensures
        ({
            let after = after_commands(state.after(Command::ToggleRecording, start), commands);
            &&& !after.arp.on
            &&& !after.controls.pedal_down
            &&& after.tape.recording
            &&& after.tape.start == Some(start)
            &&& after.notes == tape::notes_after_events(state.notes, after.tape.recorded)
        }),
    decreases commands.len(),
{
    let began = state.after(Command::ToggleRecording, start);
    if commands.len() > 0 {
        let shorter = commands.drop_last();
        assert forall|i: int| 0 <= i < shorter.len() implies is_recordable(
            (#[trigger] shorter[i]).0,
        ) by {
            assert(shorter[i] == commands[i]);
        }
        lemma_recording_follows(state, shorter, start);
        let before = after_commands(began, shorter);
        let after = after_commands(began, commands);
        let (command, now) = commands[commands.len() - 1];
        assert(is_recordable(command));
        if command is KeyDown || command is KeyUp {
            law_playback_repeats_the_player(
                before,
                match command {
                    Command::KeyDown(key) => key,
                    Command::KeyUp(key) => key,
                    _ => ' ',
                },
                now,
            );
            assert(after.tape.recorded.drop_last() =~= before.tape.recorded);
        } else {
            assert(after.tape == before.tape);
            assert(after.notes == before.notes);
        }
    }
}

/// A recording repeats a performance: whatever keys were played and knobs turned between the two
/// presses of the record key, playing what is then on the tape over the notes that sounded at the
/// start leads to the notes that the performance led to. The pedal and the arpeggiator, of which
/// the tape knows nothing, have to be left alone.
pub proof fn law_recording_repeats_the_performance(
    state: State,
    commands: Seq<(Command, u64)>,
    start: u64,
    end: u64,
)
    requires
        !state.arp.on,
        !state.controls.pedal_down,
        !state.tape.recording,
        forall|i: int| 0 <= i < commands.len() ==> is_recordable((#[trigger] commands[i]).0),
    ensures
        ({
            let played = after_commands(state.after(Command::ToggleRecording, start), commands);
            let ended = played.after(Command::ToggleRecording, end);
            &&& !ended.tape.recording
            &&& ended.notes == played.notes
            &&& tape::notes_after_events(state.notes, ended.tape.recorded) == played.notes
        }),
{
    lemma_recording_follows(state, commands, start);
}

/// What the play keys start is what was recorded. While a playback is under way they start none;
/// they stop it, be it a loop or not, so that it ends at its next step, and let every note fade.
pub proof fn law_play_keys(state: State, looping: bool, now: u64)
    ensures
        ({
            let command = if looping {
                Command::PlayLoop
            } else {
                Command::PlayOnce
            };
            let after = state.after(command, now);
            &&& state.transport.playing ==> {
                &&& state.reaction(command) is Redraw
                &&& !after.transport.looping
                &&& forall|playback: PlaybackModel|
                    (#[trigger] playback.action(after.transport.called_off)) is Finish
                &&& active_notes::pressed(after.notes) == Set::<char>::empty()
            }
            &&& state.can_start() ==> {
                &&& state.reaction(command) == ReactionModel::Start(
                    tape::from_start(state.tape.recorded, looping),
                )
                &&& after.transport == (Transport { playing: true, looping, called_off: false })
                &&& after.notes == state.notes
            }
            &&& !state.transport.playing && state.tape.recorded.len() == 0 ==> after == state
        }),
{
    active_notes::law_fade_all_presses_nothing(state.notes);
}

/// Turning a knob never touches a sounding note, the arpeggiator, the tape or the playback: the
/// velocity and the waveform are those of the notes that are struck from then on.
pub proof fn law_knobs_leave_notes_alone(state: State, command: Command, now: u64)
    requires
        !(command is PedalUp),
        state.after(command, now).controls != state.controls,
    ensures
        state.after(command, now) == (State {
            controls: state.controls.after(command),
            ..state
        }),
{
}

/// While the arpeggiator is on, keys that go down are held, not struck, and nothing is recorded.
pub proof fn law_arpeggiator_takes_the_keys(state: State, key: char, now: u64)
    requires
        state.arp.on,
    ensures
        state.after(Command::KeyDown(key), now).notes == state.notes,
        state.after(Command::KeyDown(key), now).arp.held.contains(key),
        state.after(Command::KeyDown(key), now).tape == state.tape,
        state.after(Command::KeyUp(key), now).tape == state.tape,
        state.after_timeout(now).tape == state.tape,
{
    let held = state.arp.held;
    if !held.contains(key) {
        assert(held.push(key)[held.len() as int] == key);
    }
}

/// Quitting, keys without a meaning and repeats change nothing, and only the last of these draw the
/// screen anew.
pub proof fn law_idle_commands(state: State, command: Command, now: u64)
    requires
        command is Quit || command is Ignore || command is Refresh,
    ensures
        state.after(command, now) == state,
        state.reaction(command) is Redraw <==> command is Refresh,
{
}

/// Every command that an event can ask for keeps the instrument in order.
pub proof fn law_instrument_stays_in_order(state: State, key: Key, kind: KeyKind, now: u64)
    requires
        state.wf(),
    ensures
        state.after(command::decoded(key, kind), now).wf(),
        state.after_timeout(now).wf(),
{
    let command = command::decoded(key, kind);
    command::law_only_piano_keys_play(key, kind);
    arpeggiator::law_tick_stays_in_order(state.arp, now);
    controls::law_controls_stay_in_order(state.controls, command);
    match command {
        Command::KeyDown(c) => {
            if state.arp.on {
                arpeggiator::law_key_down_stays_in_order(state.arp, c);
            }
        },
        Command::KeyUp(c) => {
            arpeggiator::law_key_up_stays_in_order(state.arp, c);
        },
        _ => {},
    }
}

/// Every part of the instrument has its own commands, and no other command touches it: the notes,
/// the arpeggiator, the tape and the playback.
pub proof fn law_parts_have_their_own_commands(state: State, command: Command, now: u64)
    ensures
        ({
            let after = state.after(command, now);
            let plays = command is KeyDown || command is KeyUp;
            &&& !plays && !(command is PedalUp) && !(command is ToggleArp) && !(
            command is PlayOnce) && !(command is PlayLoop) ==> after.notes == state.notes
            &&& !plays && !(command is ToggleArp) && !(command is NextPattern) && !(
            command is Faster) && !(command is Slower) ==> after.arp == state.arp
            &&& !plays && !(command is ToggleRecording) ==> after.tape == state.tape
            &&& !(command is PlayOnce) && !(command is PlayLoop) ==> after.transport
                == state.transport
            &&& after.controls == state.controls.after(command)
        }),
{
}

/// A piano key that goes down without the arpeggiator gets, if it is silent, a fresh note with the
/// velocity and the waveform of the moment; a key that still sounds keeps its note. No other note
/// is touched. A tape that records gets the press, with the time since its start.
pub proof fn law_key_down_strikes_and_records(state: State, key: char, other: char, now: u64)
    requires
        !state.arp.on,
        state.tape.wf(),
        other != key,
    ensures
        ({
            let after = state.after(Command::KeyDown(key), now);
            &&& after.arp == state.arp
            &&& state.notes.contains_key(key) ==> after.notes == state.notes
            &&& !state.notes.contains_key(key) ==> {
                &&& after.notes.contains_key(key)
                &&& after.notes[key].velocity == state.controls.velocity
                &&& after.notes[key].waveform == state.controls.waveform
                &&& after.notes[key].stage is Attack
                &&& after.notes[key].amplitude == 0
                &&& after.notes[key].phase == 0
                &&& !after.notes[key].key_released
            }
            &&& after.notes.contains_key(other) <==> state.notes.contains_key(other)
            &&& state.notes.contains_key(other) ==> after.notes[other] == state.notes[other]
            &&& !state.tape.recording ==> after.tape == state.tape
            &&& state.tape.recording ==> {
                let event = after.tape.recorded.last();
                &&& after.tape.recorded.drop_last() == state.tape.recorded
                &&& event.key == key
                &&& event.kind is Press
                &&& event.velocity == state.controls.velocity
                &&& event.waveform == state.controls.waveform
                &&& now >= state.tape.start->0 ==> state.tape.start->0 + event.timestamp == now
            }
        }),
{
    tape::law_moved_keys_are_recorded(
        state.tape,
        key,
        RecordKind::Press,
        state.controls.velocity,
        state.controls.waveform,
        now,
    );
}

/// A piano key that goes up without the arpeggiator lets its note begin to fade, or, while the pedal
/// is down, only marks it as let go. No other note is touched. A tape that records gets the release.
pub proof fn law_key_up_releases_and_records(state: State, key: char, other: char, now: u64)
    requires
        !state.arp.on,
        state.tape.wf(),
        other != key,
    ensures
        ({
            let after = state.after(Command::KeyUp(key), now);
            &&& after.arp == state.arp
            &&& after.notes.dom() == state.notes.dom()
            &&& state.notes.contains_key(key) && !state.controls.pedal_down
                ==> note::has_only_begun_to_fade(state.notes[key], after.notes[key])
            &&& state.notes.contains_key(key) && state.controls.pedal_down ==> {
                &&& after.notes[key].key_released
                &&& after.notes[key].stage == state.notes[key].stage
                &&& after.notes[key].velocity == state.notes[key].velocity
                &&& after.notes[key].waveform == state.notes[key].waveform
                &&& after.notes[key].phase == state.notes[key].phase
                &&& after.notes[key].amplitude == state.notes[key].amplitude
            }
            &&& state.notes.contains_key(other) ==> after.notes[other] == state.notes[other]
            &&& !state.tape.recording ==> after.tape == state.tape
            &&& state.tape.recording ==> {
                let event = after.tape.recorded.last();
                &&& after.tape.recorded.drop_last() == state.tape.recorded
                &&& event.key == key
                &&& event.kind is Release
                &&& now >= state.tape.start->0 ==> state.tape.start->0 + event.timestamp == now
            }
        }),
{
    tape::law_moved_keys_are_recorded(
        state.tape,
        key,
        RecordKind::Release,
        state.controls.velocity,
        state.controls.waveform,
        now,
    );
    assert(state.after(Command::KeyUp(key), now).notes.dom() =~= state.notes.dom());
}

/// When the pedal goes up from being down, the notes whose keys were let go meanwhile begin to fade
/// and the others stay as they are; if it was up already, all of them do.
pub proof fn law_pedal_up_releases(state: State, key: char, now: u64)
    requires
        state.notes.contains_key(key),
    ensures
        ({
            let after = state.after(Command::PedalUp, now);
            &&& !after.controls.pedal_down
            &&& after.notes.dom() == state.notes.dom()
            &&& state.controls.pedal_down && state.notes[key].key_released
                ==> note::has_only_begun_to_fade(state.notes[key], after.notes[key])
            &&& !state.controls.pedal_down || !state.notes[key].key_released ==> after.notes[key]
                == state.notes[key]
        }),
{
    assert(state.after(Command::PedalUp, now).notes.dom() =~= state.notes.dom());
}

/// The digit that is pressed is the velocity of the notes that are struck next, whatever the
/// velocity was before, and no other setting changes with it.
pub proof fn law_digits_reach_the_next_note(
    state: State,
    digit: char,
    key: char,
    pressed: u64,
    struck: u64,
)
    requires
        !state.arp.on,
        !state.notes.contains_key(key),
        '1' <= digit <= '9',
    ensures
        ({
            let set = state.after(command::decoded(Key::Char(digit), KeyKind::Press), pressed);
            let after = set.after(Command::KeyDown(key), struck);
            &&& set.controls.velocity == digit as int - 48
            &&& set == (State {
                controls: Controls { velocity: set.controls.velocity, ..state.controls },
                ..state
            })
            &&& after.notes[key].velocity == digit as int - 48
            &&& after.notes[key].waveform == state.controls.waveform
        }),
{
    command::law_digits_set_the_velocity(
        Key::Char(digit),
        KeyKind::Press,
        (digit as int - 48) as u8,
    );
}

/// What is left to do: to leave when asked to, nothing for what is ignored, to start a playback when
/// a play key finds a tape and no playback under way, and to draw the screen anew in all other
/// cases.
pub proof fn law_reactions(state: State, command: Command)
    ensures
        state.reaction(command) is Quit <==> command is Quit,
        state.reaction(command) is Nothing <==> command is Ignore,
        state.reaction(command) is Start <==> (command is PlayOnce || command is PlayLoop)
            && !state.transport.playing && state.tape.recorded.len() > 0,
        state.reaction(command) matches ReactionModel::Start(playback) ==> {
            &&& playback.events == state.tape.recorded
            &&& playback.looping == (command is PlayLoop)
            &&& playback.position == 0
            &&& !playback.due
        },
{
}

/// A play key that stops a playback leaves it to its end to free the keys, and lets every note begin
/// to fade from where it is; one that starts a playback, or finds none to start, leaves the notes
/// alone.
pub proof fn law_stopping_lets_notes_fade(state: State, looping: bool, now: u64, key: char)
    requires
        state.notes.contains_key(key),
    ensures
        ({
            let command = if looping {
                Command::PlayLoop
            } else {
                Command::PlayOnce
            };
            let after = state.after(command, now);
            &&& after.notes.dom() == state.notes.dom()
            &&& state.transport.playing ==> {
                &&& after.transport.playing && after.transport.called_off
                    && !after.transport.looping
                &&& note::has_only_begun_to_fade(state.notes[key], after.notes[key])
            }
            &&& !state.transport.playing ==> after.notes == state.notes
        }),
{
    assert(active_notes::after_fade_all(state.notes).dom() =~= state.notes.dom());
}

/// The keys of the arpeggiator, the recorder and the tempo do what they say.
pub proof fn law_arp_and_tape_keys(state: State, now: u64)
    requires
        state.wf(),
    ensures
        state.after(Command::ToggleArp, now).arp.on == !state.arp.on,
        state.after(Command::ToggleArp, now).arp.last_tick == now,
        state.after(Command::ToggleRecording, now).tape.recording == !state.tape.recording,
        !state.tape.recording ==> state.after(Command::ToggleRecording, now).tape.start == Some(
            now,
        ),
        state.arp.bpm < 300 ==> state.after(Command::Faster, now).arp == (ArpModel {
            bpm: state.arp.bpm + 10,
            ..state.arp
        }),
        state.arp.bpm == 300 ==> state.after(Command::Faster, now).arp == state.arp,
        state.arp.bpm > 40 ==> state.after(Command::Slower, now).arp == (ArpModel {
            bpm: state.arp.bpm - 10,
            ..state.arp
        }),
        state.arp.bpm == 40 ==> state.after(Command::Slower, now).arp == state.arp,
        state.after(Command::NextPattern, now).arp == (ArpModel {
            pattern: match state.arp.pattern {
                ArpPattern::Up => ArpPattern::Down,
                ArpPattern::Down => ArpPattern::UpDown,
                ArpPattern::UpDown => ArpPattern::Up,
            },
            idx: 0,
            ..state.arp
        }),
{
}

/// Switching the arpeggiator off lets every note begin to fade; switching it on touches none.
pub proof fn law_arp_key_and_notes(state: State, now: u64, key: char)
    requires
        state.notes.contains_key(key),
    ensures
        state.after(Command::ToggleArp, now).notes.dom() == state.notes.dom(),
        state.arp.on ==> note::has_only_begun_to_fade(
            state.notes[key],
            state.after(Command::ToggleArp, now).notes[key],
        ),
        !state.arp.on ==> state.after(Command::ToggleArp, now).notes == state.notes,
        state.arp.on ==> state.after(Command::ToggleArp, now).arp.held.len() == 0,
{
    assert(state.after(Command::ToggleArp, now).notes.dom() =~= state.notes.dom());
}

/// While the arpeggiator is on, a key that goes down is held behind the others and starts the
/// pattern over, and a key that goes up is held no more.
pub proof fn law_arp_holds_the_keys(state: State, key: char, now: u64)
    requires
        state.arp.on,
    ensures
        !state.arp.held.contains(key) ==> state.after(Command::KeyDown(key), now) == (State {
            arp: ArpModel { held: state.arp.held.push(key), idx: 0, ..state.arp },
            ..state
        }),
        state.arp.held.contains(key) ==> state.after(Command::KeyDown(key), now) == state,
        state.after(Command::KeyUp(key), now).arp == state.arp.after_key_up(key),
        state.after(Command::KeyUp(key), now).notes == state.arp.notes_after_key_up(
            state.notes,
            key,
        ),
{
}

/// A wait that runs out plays a beat with the velocity and the waveform of the moment if the
/// arpeggiator is on, and otherwise changes nothing.
pub proof fn law_timeouts_play_beats(state: State, now: u64)
    ensures
        !state.arp.on ==> state.after_timeout(now) == state,
        state.arp.on ==> {
            let after = state.after_timeout(now);
            &&& after.controls == state.controls
            &&& after.tape == state.tape
            &&& after.transport == state.transport
            &&& after.arp == state.arp.after_tick(now)
            &&& after.notes == state.arp.notes_after_tick(
                state.notes,
                state.controls.velocity,
                state.controls.waveform,
            )
        },
{
}

} // verus!
