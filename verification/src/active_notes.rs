//! The notes that are sounding, one at most for each key.

use vstd::prelude::*;

use crate::note;
use crate::note::{Note, Stage};
use crate::waveform::Waveform;

verus! {

#[derive(Clone, Copy, PartialEq, Eq, Structural, Debug)]
struct Slot {
    key: char,
    note: Note,
}

/// The sounding notes by the key that struck them.
#[derive(Debug)]
pub struct ActiveNotes {
    slots: Vec<Slot>,
}

/// Whether some slot belongs to a key.
spec fn occupied(slots: Seq<Slot>, key: char) -> bool {
    exists|i: int| 0 <= i < slots.len() && (#[trigger] slots[i]).key == key
}

/// The slot that belongs to a key.
spec fn place(slots: Seq<Slot>, key: char) -> int {
    choose|i: int| 0 <= i < slots.len() && (#[trigger] slots[i]).key == key
}

/// Whether one of the first `n` slots holds a note of the key that is not fading.
spec fn heard(slots: Seq<Slot>, n: int, key: char) -> bool {
    exists|p: int|
        0 <= p < n && (#[trigger] slots[p]).key == key && !(slots[p].note.stage is Release)
}

/// No two slots belong to the same key.
spec fn distinct(slots: Seq<Slot>) -> bool {
    forall|i: int, j: int|
        0 <= i < slots.len() && 0 <= j < slots.len() && (#[trigger] slots[i]).key == (
        #[trigger] slots[j]).key ==> i == j
}

/// The notes that the slots hold.
spec fn contents(slots: Seq<Slot>) -> Map<char, Note> {
    Map::new(|key: char| occupied(slots, key), |key: char| slots[place(slots, key)].note)
}

impl View for ActiveNotes {
    type V = Map<char, Note>;

    closed spec fn view(&self) -> Map<char, Note> {
        contents(self.slots@)
    }
}

/// The keys whose notes are not fading.
pub open spec fn pressed(notes: Map<char, Note>) -> Set<char> {
    Set::new(|key: char| notes.contains_key(key) && !(notes[key].stage is Release))
}

/// The notes once a key has been struck: a key that still sounds is not struck again.
pub open spec fn after_strike(
    notes: Map<char, Note>,
    key: char,
    velocity: u8,
    waveform: Waveform,
) -> Map<char, Note> {
    if notes.contains_key(key) {
        notes
    } else {
        notes.insert(key, Note::struck(velocity, waveform))
    }
}

/// The notes once that of a key, if there is one, has started to fade.
pub open spec fn after_fade(notes: Map<char, Note>, key: char) -> Map<char, Note> {
    if notes.contains_key(key) {
        notes.insert(key, notes[key].fading())
    } else {
        notes
    }
}

/// The notes once all of them have started to fade.
pub open spec fn after_fade_all(notes: Map<char, Note>) -> Map<char, Note> {
    Map::new(|key: char| notes.contains_key(key), |key: char| notes[key].fading())
}

/// The notes once a key has gone up: its note fades, unless the pedal holds it.
pub open spec fn after_key_up(notes: Map<char, Note>, key: char, pedal_down: bool) -> Map<
    char,
    Note,
> {
    if notes.contains_key(key) && pedal_down {
        notes.insert(key, notes[key].held_by_pedal())
    } else {
        after_fade(notes, key)
    }
}

/// The notes once the pedal has gone up: those whose keys went up before it fade.
pub open spec fn after_pedal_up(notes: Map<char, Note>) -> Map<char, Note> {
    Map::new(
        |key: char| notes.contains_key(key),
        |key: char|
            if notes[key].key_released {
                notes[key].fading()
            } else {
                notes[key]
            },
    )
}

/// The notes that have not faded away.
pub open spec fn still_sounding(notes: Map<char, Note>) -> Map<char, Note> {
    Map::new(|key: char| notes.contains_key(key) && !notes[key].finished(), |key: char| notes[key])
}

/// In distinct slots, a key is found where it is.
proof fn lemma_contents(slots: Seq<Slot>)
    requires
        distinct(slots),
    ensures
        forall|i: int|
            0 <= i < slots.len() ==> contents(slots).contains_key((#[trigger] slots[i]).key)
                && contents(slots)[slots[i].key] == slots[i].note,
{
    assert forall|i: int| 0 <= i < slots.len() implies contents(slots).contains_key(
        (#[trigger] slots[i]).key,
    ) && contents(slots)[slots[i].key] == slots[i].note by {
        assert(occupied(slots, slots[i].key));
        let p = place(slots, slots[i].key);
        assert(slots[p].key == slots[i].key);
    }
}

/// Slots that hold, key by key, the notes of a map have that map as their contents.
proof fn lemma_contents_are(slots: Seq<Slot>, notes: Map<char, Note>)
    requires
        distinct(slots),
        forall|i: int|
            0 <= i < slots.len() ==> notes.contains_key((#[trigger] slots[i]).key)
                && notes[slots[i].key] == slots[i].note,
        forall|key: char| #[trigger] notes.contains_key(key) ==> occupied(slots, key),
    ensures
        contents(slots) == notes,
{
    lemma_contents(slots);
    assert forall|key: char| #[trigger] contents(slots).contains_key(key) implies notes.contains_key(
        key,
    ) && notes[key] == contents(slots)[key] by {
        let p = place(slots, key);
        assert(slots[p].key == key);
    }
    assert(contents(slots) =~= notes);
}

impl ActiveNotes {
    /// No key has two notes.
    pub closed spec fn wf(self) -> bool {
        distinct(self.slots@)
    }

    /// The keys of the notes in the order in which they are kept.
    pub closed spec fn keys(self) -> Seq<char> {
        self.slots@.map_values(|slot: Slot| slot.key)
    }

    /// No note at all.
    pub fn new() -> (notes: Self)
        ensures
            notes.wf(),
            notes@ == Map::<char, Note>::empty(),
    {
        let notes = ActiveNotes { slots: Vec::new() };
        proof {
            lemma_contents_are(notes.slots@, Map::<char, Note>::empty());
        }
        notes
    }

    /// Finds the slot of a key.
    fn find(&self, key: char) -> (slot: Option<usize>)
        requires
            self.wf(),
        ensures
            match slot {
                Some(i) => i < self.slots@.len() && self.slots@[i as int].key == key
                    && self@.contains_key(key) && self@[key] == self.slots@[i as int].note,
                None => !self@.contains_key(key),
            },
    {
        for i in 0..self.slots.len()
            invariant
                self.wf(),
                forall|j: int| 0 <= j < i ==> (#[trigger] self.slots@[j]).key != key,
        {
            if self.slots[i].key == key {
                proof {
                    lemma_contents(self.slots@);
                }
                return Some(i);
            }
        }
        None
    }

    /// Puts a note in the place of another one for the same key.
    fn replace(&mut self, i: usize, note: Note)
        requires
            old(self).wf(),
            i < old(self).slots@.len(),
        ensures
            final(self).wf(),
            final(self)@ == old(self)@.insert(old(self).slots@[i as int].key, note),
            final(self).keys() == old(self).keys(),
            final(self).slots@ == old(self).slots@.update(
                i as int,
                Slot { key: old(self).slots@[i as int].key, note },
            ),
    {
        let ghost before = self.slots@;
        let key = self.slots[i].key;
        self.slots[i] = Slot { key, note };
        proof {
            let after = self.slots@;
            lemma_contents(before);
            assert(distinct(after)) by {
                assert forall|a: int, b: int|
                    0 <= a < after.len() && 0 <= b < after.len() && (#[trigger] after[a]).key == (
                    #[trigger] after[b]).key implies a == b by {
                    assert(before[a].key == after[a].key);
                    assert(before[b].key == after[b].key);
                }
            }
            let goal = contents(before).insert(key, note);
            assert forall|k: char| #[trigger] goal.contains_key(k) implies occupied(after, k) by {
                if k == key {
                    assert(after[i as int].key == k);
                } else {
                    let p = place(before, k);
                    assert(before[p].key == k);
                    assert(after[p].key == k);
                }
            }
            assert forall|a: int| 0 <= a < after.len() implies goal.contains_key(
                (#[trigger] after[a]).key,
            ) && goal[after[a].key] == after[a].note by {
                assert(before[a].key == after[a].key);
                if a != i {
                    assert(before[a].key != before[i as int].key);
                }
            }
            lemma_contents_are(after, goal);
            assert(self.keys() =~= old(self).keys());
        }
    }

    /// Strikes a note for a key, unless one still sounds.
    pub fn strike(&mut self, key: char, velocity: u8, waveform: Waveform)
        requires
            old(self).wf(),
        ensures
            final(self).wf(),
            final(self)@ == after_strike(old(self)@, key, velocity, waveform),
    {
        if self.find(key).is_none() {
            let ghost before = self.slots@;
            let note = Note::new(velocity, waveform);
            self.slots.push(Slot { key, note });
            proof {
                let after = self.slots@;
                lemma_contents(before);
                assert(distinct(after)) by {
                    assert forall|a: int, b: int|
                        0 <= a < after.len() && 0 <= b < after.len() && (#[trigger] after[a]).key
                            == (#[trigger] after[b]).key implies a == b by {
                        if a < before.len() {
                            assert(before[a] == after[a]);
                        }
                        if b < before.len() {
                            assert(before[b] == after[b]);
                        }
                    }
                }
                let goal = contents(before).insert(key, note);
                assert forall|k: char| #[trigger] goal.contains_key(k) implies occupied(
                    after,
                    k,
                ) by {
                    if k == key {
                        assert(after[before.len() as int].key == k);
                    } else {
                        let p = place(before, k);
                        assert(before[p].key == k);
                        assert(after[p].key == k);
                    }
                }
                assert forall|a: int| 0 <= a < after.len() implies goal.contains_key(
                    (#[trigger] after[a]).key,
                ) && goal[after[a].key] == after[a].note by {
                    if a < before.len() {
                        assert(before[a] == after[a]);
                    }
                }
                lemma_contents_are(after, goal);
            }
        }
    }

    /// Lets the note of a key fade, if there is one.
    pub fn fade(&mut self, key: char)
        requires
            old(self).wf(),
        ensures
            final(self).wf(),
            final(self)@ == after_fade(old(self)@, key),
    {
        if let Some(i) = self.find(key) {
            let mut note = self.slots[i].note;
            note.release();
            self.replace(i, note);
        }
    }

    /// Takes note that a key has gone up.
    pub fn key_up(&mut self, key: char, pedal_down: bool)
        requires
            old(self).wf(),
        ensures
            final(self).wf(),
            final(self)@ == after_key_up(old(self)@, key, pedal_down),
    {
        if let Some(i) = self.find(key) {
            let mut note = self.slots[i].note;
            if pedal_down {
                note.key_released = true;
            } else {
                note.release();
            }
            self.replace(i, note);
        }
    }

    /// Lets every note fade.
    pub fn fade_all(&mut self)
        requires
            old(self).wf(),
        ensures
            final(self).wf(),
            final(self)@ == after_fade_all(old(self)@),
    {
        let ghost before = self.slots@;
        let n: usize = self.slots.len();
        for i in 0..n
            invariant
                self.wf(),
                distinct(before),
                n == before.len() == self.slots@.len(),
                forall|j: int| 0 <= j < n ==> (#[trigger] self.slots@[j]).key == before[j].key,
                forall|j: int|
                    0 <= j < i ==> (#[trigger] self.slots@[j]).note == before[j].note.fading(),
                forall|j: int| i <= j < n ==> (#[trigger] self.slots@[j]).note == before[j].note,
        {
            let mut note = self.slots[i].note;
            note.release();
            self.replace(i, note);
        }
        proof {
            let goal = after_fade_all(contents(before));
            assert(goal.dom() =~= contents(before).dom());
            lemma_rewritten(before, self.slots@, goal);
        }
    }

    /// Lets the notes fade that only the pedal was holding.
    pub fn pedal_up(&mut self)
        requires
            old(self).wf(),
        ensures
            final(self).wf(),
            final(self)@ == after_pedal_up(old(self)@),
    {
        let ghost before = self.slots@;
        let n: usize = self.slots.len();
        for i in 0..n
            invariant
                self.wf(),
                distinct(before),
                n == before.len() == self.slots@.len(),
                forall|j: int| 0 <= j < n ==> (#[trigger] self.slots@[j]).key == before[j].key,
                forall|j: int|
                    0 <= j < i ==> (#[trigger] self.slots@[j]).note == (if before[j].note.key_released {
                        before[j].note.fading()
                    } else {
                        before[j].note
                    }),
                forall|j: int| i <= j < n ==> (#[trigger] self.slots@[j]).note == before[j].note,
        {
            let mut note = self.slots[i].note;
            if note.key_released {
                note.release();
                self.replace(i, note);
            }
        }
        proof {
            let goal = after_pedal_up(contents(before));
            assert(goal.dom() =~= contents(before).dom());
            lemma_rewritten(before, self.slots@, goal);
        }
    }

    /// Drops the notes that have faded away.
    pub fn discard_finished(&mut self)
        requires
            old(self).wf(),
        ensures
            final(self).wf(),
            final(self)@ == still_sounding(old(self)@),
    {
        let ghost before = self.slots@;
        let n: usize = self.slots.len();
        let mut kept: Vec<Slot> = Vec::new();
        for i in 0..n
            invariant
                n == before.len(),
                self.slots@ == before,
                distinct(before),
                distinct(kept@),
                forall|j: int|
                    0 <= j < kept@.len() ==> !(#[trigger] kept@[j]).note.finished() && (exists|p: int|
                        0 <= p < i && #[trigger] before[p] == kept@[j]),
                forall|p: int|
                    0 <= p < i && !(#[trigger] before[p]).note.finished() ==> (exists|j: int|
                        0 <= j < kept@.len() && #[trigger] kept@[j] == before[p]),
        {
            let slot = self.slots[i];
            if !slot.note.is_finished() {
                let ghost was = kept@;
                kept.push(slot);
                proof {
                    let now = kept@;
                    assert forall|a: int, b: int|
                        0 <= a < now.len() && 0 <= b < now.len() && (#[trigger] now[a]).key == (
                        #[trigger] now[b]).key implies a == b by {
                        if a < was.len() {
                            assert(now[a] == was[a]);
                            let p = choose|p: int| 0 <= p < i && #[trigger] before[p] == was[a];
                            assert(before[p].key == now[a].key);
                        }
                        if b < was.len() {
                            assert(now[b] == was[b]);
                            let p = choose|p: int| 0 <= p < i && #[trigger] before[p] == was[b];
                            assert(before[p].key == now[b].key);
                        }
                    }
                    assert forall|j: int| 0 <= j < now.len() implies !(
                    #[trigger] now[j]).note.finished() && (exists|p: int|
                        0 <= p < i + 1 && #[trigger] before[p] == now[j]) by {
                        if j < was.len() {
                            assert(now[j] == was[j]);
                        } else {
                            assert(before[i as int] == now[j]);
                        }
                    }
                    assert forall|p: int|
                        0 <= p < i + 1 && !(#[trigger] before[p]).note.finished() implies (exists|
                        j: int,
                    | 0 <= j < now.len() && #[trigger] now[j] == before[p]) by {
                        if p < i {
                            let j = choose|j: int|
                                0 <= j < was.len() && #[trigger] was[j] == before[p];
                            assert(now[j] == before[p]);
                        } else {
                            assert(now[was.len() as int] == before[p]);
                        }
                    }
                }
            }
        }
        self.slots = kept;
        proof {
            let goal = still_sounding(contents(before));
            let after = self.slots@;
            lemma_contents(before);
            assert forall|j: int| 0 <= j < after.len() implies goal.contains_key(
                (#[trigger] after[j]).key,
            ) && goal[after[j].key] == after[j].note by {
                let p = choose|p: int| 0 <= p < n && #[trigger] before[p] == after[j];
                assert(contents(before)[before[p].key] == before[p].note);
            }
            assert forall|key: char| #[trigger] goal.contains_key(key) implies occupied(
                after,
                key,
            ) by {
                let p = place(before, key);
                assert(before[p].key == key);
                let j = choose|j: int| 0 <= j < after.len() && #[trigger] after[j] == before[p];
                assert(after[j].key == key);
            }
            lemma_contents_are(after, goal);
        }
    }

    /// The keys whose notes are not fading, each of them once.
    pub fn collect_pressed(&self) -> (keys: Vec<char>)
        requires
            self.wf(),
        ensures
            keys@.to_set() == pressed(self@),
            keys@.no_duplicates(),
    {
        let mut keys: Vec<char> = Vec::new();
        for i in 0..self.slots.len()
            invariant
                self.wf(),
                keys@.no_duplicates(),
                forall|j: int|
                    0 <= j < keys@.len() ==> heard(self.slots@, i as int, #[trigger] keys@[j]),
                forall|p: int|
                    0 <= p < i && !((#[trigger] self.slots@[p]).note.stage is Release)
                        ==> keys@.contains(self.slots@[p].key),
        {
            let slot = self.slots[i];
            if slot.note.stage != Stage::Release {
                let ghost was = keys@;
                keys.push(slot.key);
                proof {
                    let now = keys@;
                    assert forall|j: int| 0 <= j < now.len() implies heard(
                        self.slots@,
                        i + 1,
                        #[trigger] now[j],
                    ) by {
                        if j < was.len() {
                            assert(was[j] == now[j]);
                            assert(heard(self.slots@, i as int, was[j]));
                        } else {
                            assert(self.slots@[i as int].key == now[j]);
                        }
                    }
                    assert forall|p: int|
                        0 <= p < i + 1 && !((#[trigger] self.slots@[p]).note.stage is Release)
                        implies now.contains(self.slots@[p].key) by {
                        if p < i {
                            let j = choose|j: int|
                                0 <= j < was.len() && was[j] == self.slots@[p].key;
                            assert(now[j] == self.slots@[p].key);
                        } else {
                            assert(now[was.len() as int] == self.slots@[p].key);
                        }
                    }
                    assert forall|a: int, b: int|
                        0 <= a < now.len() && 0 <= b < now.len() && a != b implies now[a]
                        != now[b] by {
                        if a < was.len() && b < was.len() {
                            assert(was[a] != was[b]);
                        } else if a < was.len() {
                            assert(heard(self.slots@, i as int, was[a]));
                        } else {
                            assert(heard(self.slots@, i as int, was[b]));
                        }
                    }
                }
            }
        }
        proof {
            lemma_contents(self.slots@);
            assert forall|key: char| keys@.to_set().contains(key) == pressed(self@).contains(key) by {
                if keys@.contains(key) {
                    let j = choose|j: int| 0 <= j < keys@.len() && keys@[j] == key;
                    assert(heard(self.slots@, self.slots@.len() as int, keys@[j]));
                    let p = choose|p: int|
                        0 <= p < self.slots@.len() && (#[trigger] self.slots@[p]).key == keys@[j]
                            && !(self.slots@[p].note.stage is Release);
                    assert(self@.contains_key(self.slots@[p].key));
                }
                if pressed(self@).contains(key) {
                    let p = place(self.slots@, key);
                    assert(self.slots@[p].key == key);
                }
            }
            assert(keys@.to_set() =~= pressed(self@));
        }
        keys
    }

    /// How many notes there are.
    pub fn len(&self) -> (n: usize)
        requires
            self.wf(),
        ensures
            n == self.keys().len(),
            n == self@.len(),
    {
        proof {
            self.lemma_keys();
            self.keys().unique_seq_to_set();
        }
        self.slots.len()
    }

    /// The note at a place in the order in which they are kept, with its key.
    pub fn entry(&self, i: usize) -> (entry: (char, Note))
        requires
            self.wf(),
            i < self.keys().len(),
        ensures
            entry.0 == self.keys()[i as int],
            self@.contains_key(entry.0),
            entry.1 == self@[entry.0],
    {
        proof {
            lemma_contents(self.slots@);
        }
        (self.slots[i].key, self.slots[i].note)
    }

    /// Moves the envelope of the note at a place.
    pub fn settle(&mut self, i: usize, moved: u32) -> (note: Note)
        requires
            old(self).wf(),
            i < old(self).keys().len(),
        ensures
            final(self).wf(),
            final(self).keys() == old(self).keys(),
            note == old(self)@[old(self).keys()[i as int]].settled(moved),
            final(self)@ == old(self)@.insert(old(self).keys()[i as int], note),
    {
        proof {
            lemma_contents(self.slots@);
        }
        let mut note = self.slots[i].note;
        note.settle(moved);
        self.replace(i, note);
        note
    }

    /// Moves the oscillator of the note at a place.
    pub fn set_phase(&mut self, i: usize, phase: u32)
        requires
            old(self).wf(),
            i < old(self).keys().len(),
        ensures
            final(self).wf(),
            final(self).keys() == old(self).keys(),
            final(self)@ == old(self)@.insert(
                old(self).keys()[i as int],
                (Note { phase, ..old(self)@[old(self).keys()[i as int]] }),
            ),
    {
        proof {
            lemma_contents(self.slots@);
        }
        let mut note = self.slots[i].note;
        note.phase = phase;
        self.replace(i, note);
    }

    /// The keys in order are those that have notes, each of them once.
    pub proof fn lemma_keys(&self)
        requires
            self.wf(),
        ensures
            self.keys().no_duplicates(),
            self.keys().to_set() == self@.dom(),
    {
        let slots = self.slots@;
        let keys = self.keys();
        assert forall|a: int, b: int| 0 <= a < keys.len() && 0 <= b < keys.len() && a != b implies
            keys[a] != keys[b] by {
            assert(slots[a].key == keys[a]);
            assert(slots[b].key == keys[b]);
        }
        assert forall|key: char| keys.to_set().contains(key) == self@.dom().contains(key) by {
            if keys.contains(key) {
                let j = choose|j: int| 0 <= j < keys.len() && keys[j] == key;
                assert(slots[j].key == key);
            }
            if occupied(slots, key) {
                let p = place(slots, key);
                assert(slots[p].key == key);
                assert(keys[p] == key);
            }
        }
        assert(keys.to_set() =~= self@.dom());
    }
}

/// Slots whose notes were rewritten one by one, without moving any, hold the rewritten notes.
proof fn lemma_rewritten(before: Seq<Slot>, after: Seq<Slot>, goal: Map<char, Note>)
    requires
        distinct(before),
        distinct(after),
        before.len() == after.len(),
        forall|j: int| 0 <= j < before.len() ==> (#[trigger] after[j]).key == before[j].key,
        goal.dom() == contents(before).dom(),
        forall|j: int|
            0 <= j < before.len() && contents(before).contains_key(before[j].key) && contents(
                before,
            )[before[j].key] == before[j].note ==> goal[(#[trigger] before[j]).key] == after[j].note,
    ensures
        contents(after) == goal,
{
    lemma_contents(before);
    assert forall|j: int| 0 <= j < after.len() implies goal.contains_key((#[trigger] after[j]).key)
        && goal[after[j].key] == after[j].note by {
        assert(before[j].key == after[j].key);
        assert(goal.dom().contains(before[j].key));
    }
    assert forall|key: char| #[trigger] goal.contains_key(key) implies occupied(after, key) by {
        assert(contents(before).dom().contains(key));
        let p = place(before, key);
        assert(before[p].key == key);
        assert(after[p].key == key);
    }
    lemma_contents_are(after, goal);
}

/// Striking a silent key presses it; striking one that still sounds changes nothing, not even when
/// its note is already fading.
pub proof fn law_strike_presses_silent_keys(
    notes: Map<char, Note>,
    key: char,
    velocity: u8,
    waveform: Waveform,
)
    ensures
        !notes.contains_key(key) ==> pressed(after_strike(notes, key, velocity, waveform))
            == pressed(notes).insert(key),
        notes.contains_key(key) ==> after_strike(notes, key, velocity, waveform) == notes,
        after_strike(after_strike(notes, key, velocity, waveform), key, velocity, waveform)
            == after_strike(notes, key, velocity, waveform),
{
    if !notes.contains_key(key) {
        assert(pressed(after_strike(notes, key, velocity, waveform)) =~= pressed(notes).insert(key));
    }
}

/// With the pedal up, letting go of a key lets its note fade and leaves all others alone.
pub proof fn law_key_up_ends_the_note(notes: Map<char, Note>, key: char)
    ensures
        pressed(after_key_up(notes, key, false)) == pressed(notes).remove(key),
        after_key_up(notes, key, false).dom() == notes.dom(),
        forall|other: char|
            other != key && notes.contains_key(other) ==> #[trigger] after_key_up(
                notes,
                key,
                false,
            )[other] == notes[other],
{
    assert(pressed(after_key_up(notes, key, false)) =~= pressed(notes).remove(key));
    assert(after_key_up(notes, key, false).dom() =~= notes.dom());
}

/// With the pedal down, letting go of a key ends no note.
pub proof fn law_pedal_holds_notes(notes: Map<char, Note>, key: char)
    ensures
        pressed(after_key_up(notes, key, true)) == pressed(notes),
{
    assert(pressed(after_key_up(notes, key, true)) =~= pressed(notes));
}

/// When the pedal goes up, the notes that go on are exactly those whose keys were not let go
/// while it was down.
pub proof fn law_pedal_up_ends_held_notes(notes: Map<char, Note>, key: char)
    ensures
        pressed(after_pedal_up(notes)).contains(key) <==> pressed(notes).contains(key)
            && !notes[key].key_released,
{
}

/// A key that is let go under the pedal fades when the pedal goes up.
pub proof fn law_pedal_only_postpones(notes: Map<char, Note>, key: char)
    ensures
        pressed(after_pedal_up(after_key_up(notes, key, true))) == pressed(
            after_pedal_up(notes),
        ).remove(key),
{
    assert(pressed(after_pedal_up(after_key_up(notes, key, true))) =~= pressed(
        after_pedal_up(notes),
    ).remove(key));
}

/// Once everything fades, no key counts as pressed.
pub proof fn law_fade_all_presses_nothing(notes: Map<char, Note>)
    ensures
        pressed(after_fade_all(notes)) == Set::<char>::empty(),
{
    assert(pressed(after_fade_all(notes)) =~= Set::<char>::empty());
}

/// Dropping notes that have faded away never drops one whose key is pressed.
pub proof fn law_discarding_spares_pressed_keys(notes: Map<char, Note>)
    ensures
        pressed(still_sounding(notes)) == pressed(notes),
{
    assert(pressed(still_sounding(notes)) =~= pressed(notes));
}

/// A key is pressed exactly as long as it has a note that is not in the release.
pub proof fn law_pressed_keys_have_notes(notes: Map<char, Note>, key: char)
    ensures
        pressed(notes).contains(key) <==> notes.contains_key(key) && (notes[key].stage is Attack
            || notes[key].stage is Decay || notes[key].stage is Sustain),
{
}

/// Striking a silent key adds one fresh note with the given velocity and waveform, and touches no
/// other note.
pub proof fn law_strike_adds_one_note(
    notes: Map<char, Note>,
    key: char,
    velocity: u8,
    waveform: Waveform,
    other: char,
)
    requires
        !notes.contains_key(key),
        other != key,
    ensures
        ({
            let after = after_strike(notes, key, velocity, waveform);
            &&& after.contains_key(key)
            &&& after[key].velocity == velocity
            &&& after[key].waveform == waveform
            &&& after[key].stage is Attack
            &&& after[key].amplitude == 0
            &&& after[key].phase == 0
            &&& !after[key].key_released
            &&& after.contains_key(other) <==> notes.contains_key(other)
            &&& notes.contains_key(other) ==> after[other] == notes[other]
        }),
{
}

/// Letting the note of a key fade, or letting go of the key with the pedal up, lets that note begin
/// to fade and changes nothing else about it, and nothing about any other note.
pub proof fn law_fading_touches_one_note(notes: Map<char, Note>, key: char, other: char)
    requires
        other != key,
    ensures
        after_fade(notes, key).dom() == notes.dom(),
        notes.contains_key(key) ==> note::has_only_begun_to_fade(
            notes[key],
            after_fade(notes, key)[key],
        ),
        notes.contains_key(other) ==> after_fade(notes, key)[other] == notes[other],
        after_key_up(notes, key, false) == after_fade(notes, key),
{
    assert(after_fade(notes, key).dom() =~= notes.dom());
}

/// Letting go of a key while the pedal is down only marks its note as let go.
pub proof fn law_pedal_marks_one_note(notes: Map<char, Note>, key: char, other: char)
    requires
        other != key,
    ensures
        ({
            let after = after_key_up(notes, key, true);
            &&& after.dom() == notes.dom()
            &&& notes.contains_key(other) ==> after[other] == notes[other]
            &&& notes.contains_key(key) ==> {
                &&& after[key].key_released
                &&& after[key].stage == notes[key].stage
                &&& after[key].velocity == notes[key].velocity
                &&& after[key].waveform == notes[key].waveform
                &&& after[key].phase == notes[key].phase
                &&& after[key].amplitude == notes[key].amplitude
            }
        }),
{
    assert(after_key_up(notes, key, true).dom() =~= notes.dom());
}

/// When everything is let fade, every note begins to, from where it is, and none goes away.
pub proof fn law_fade_all_keeps_the_notes(notes: Map<char, Note>, key: char)
    ensures
        after_fade_all(notes).dom() == notes.dom(),
        notes.contains_key(key) ==> note::has_only_begun_to_fade(
            notes[key],
            after_fade_all(notes)[key],
        ),
{
    assert(after_fade_all(notes).dom() =~= notes.dom());
}

/// When the pedal goes up, the notes whose keys were let go begin to fade, from where they are, and
/// the others stay as they are.
pub proof fn law_pedal_up_keeps_the_notes(notes: Map<char, Note>, key: char)
    requires
        notes.contains_key(key),
    ensures
        after_pedal_up(notes).dom() == notes.dom(),
        notes[key].key_released ==> note::has_only_begun_to_fade(
            notes[key],
            after_pedal_up(notes)[key],
        ),
        !notes[key].key_released ==> after_pedal_up(notes)[key] == notes[key],
{
    assert(after_pedal_up(notes).dom() =~= notes.dom());
}

/// What is dropped is exactly what has faded to silence; what is kept stays as it is.
pub proof fn law_only_faded_notes_are_dropped(notes: Map<char, Note>, key: char)
    ensures
        still_sounding(notes).contains_key(key) <==> notes.contains_key(key) && !(
        notes[key].stage is Release && (notes[key].amplitude == 0 || 0x8000_0000
            <= notes[key].amplitude <= 0xff80_0000)),
        still_sounding(notes).contains_key(key) ==> still_sounding(notes)[key] == notes[key],
{
}

} // verus!
