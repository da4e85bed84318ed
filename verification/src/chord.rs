//! Naming the chord that a set of pressed keys forms.

use vstd::prelude::*;

use crate::keyboard;
use crate::keyboard::{key_to_pitch_class, modulo_octave, note_name};

verus! {

/// A pitch class moved by a number of semitones.
pub open spec fn transposed(pc: int, transpose: int) -> int {
    (pc + transpose) % 12
}

/// Whether some pressed key sounds the pitch class `pc` under a transposition.
pub open spec fn sounds(pressed: Seq<char>, transpose: int, pc: int) -> bool {
    exists|i: int|
        0 <= i < pressed.len() && (#[trigger] keyboard::pitch_class(pressed[i]) matches Some(k)
            && transposed(k as int, transpose) == pc)
}

/// The pitch classes that the pressed keys sound.
pub open spec fn sounding(pressed: Seq<char>, transpose: int) -> Set<int> {
    Set::new(|pc: int| 0 <= pc < 12 && sounds(pressed, transpose, pc))
}

/// The positions of the twelve flags that are set.
pub open spec fn marked(flags: Seq<bool>) -> Set<int> {
    Set::new(|i: int| 0 <= i < 12 && flags[i])
}

/// The members of a set that are below `n` (and not negative), in rising order.
pub open spec fn ascending(set: Set<int>, n: nat) -> Seq<u8>
    decreases n,
{
    if n == 0 {
        seq![]
    } else {
        let below = ascending(set, (n - 1) as nat);
        if set.contains(n - 1) {
            below.push((n - 1) as u8)
        } else {
            below
        }
    }
}

/// The distances in semitones, upwards from `root`, at which pitch classes of the set lie.
pub open spec fn intervals_above(classes: Set<int>, root: int) -> Set<int> {
    Set::new(|i: int| 0 <= i < 12 && classes.contains(transposed(root, i)))
}

/// The kind of chord that stacks these intervals on its root.
pub open spec fn shape_name(intervals: Seq<u8>) -> Option<Seq<char>> {
    if intervals == seq![0u8, 4, 7] {
        Some("maj"@)
    } else if intervals == seq![0u8, 3, 7] {
        Some("min"@)
    } else if intervals == seq![0u8, 3, 6] {
        Some("dim"@)
    } else if intervals == seq![0u8, 4, 8] {
        Some("aug"@)
    } else if intervals == seq![0u8, 2, 7] {
        Some("sus2"@)
    } else if intervals == seq![0u8, 5, 7] {
        Some("sus4"@)
    } else if intervals == seq![0u8, 4, 7, 11] {
        Some("maj7"@)
    } else if intervals == seq![0u8, 3, 7, 10] {
        Some("min7"@)
    } else if intervals == seq![0u8, 4, 7, 10] {
        Some("7"@)
    } else if intervals == seq![0u8, 3, 6, 9] {
        Some("dim7"@)
    } else if intervals == seq![0u8, 3, 6, 10] {
        Some("m7b5"@)
    } else {
        None
    }
}

/// The kind of chord that the pitch classes form over a root.
pub open spec fn shape_over(classes: Set<int>, root: int) -> Option<Seq<char>> {
    shape_name(ascending(intervals_above(classes, root), 12))
}

/// The first of the candidate roots over which the pitch classes form a chord, with the name of
/// that chord.
pub open spec fn first_chord(classes: Set<int>, roots: Seq<u8>) -> Option<Seq<char>>
    decreases roots.len(),
{
    if roots.len() == 0 {
        None
    } else {
        match shape_over(classes, roots[0] as int) {
            Some(shape) => Some(keyboard::class_name(roots[0] as int) + " "@ + shape),
            None => first_chord(classes, roots.skip(1)),
        }
    }
}

/// The names of pitch classes with a blank between each two.
pub open spec fn joined_names(classes: Seq<u8>) -> Seq<char>
    decreases classes.len(),
{
    if classes.len() == 0 {
        seq![]
    } else if classes.len() == 1 {
        keyboard::class_name(classes[0] as int)
    } else {
        joined_names(classes.drop_last()) + " "@ + keyboard::class_name(classes.last() as int)
    }
}

/// What a set of pitch classes is called: nothing for silence, the note for a single one, the
/// chord with the lowest root for a chord, and otherwise all the notes.
pub open spec fn chord_name(classes: Set<int>) -> Seq<char> {
    let rising = ascending(classes, 12);
    if rising.len() <= 1 {
        joined_names(rising)
    } else {
        match first_chord(classes, rising) {
            Some(name) => name,
            None => joined_names(rising),
        }
    }
}

/// Whether the transposition can be added to the pitch class of every pressed key.
pub open spec fn transposable(pressed: Seq<char>, transpose: i32) -> bool {
    forall|i: int|
        0 <= i < pressed.len() ==> (#[trigger] keyboard::pitch_class(pressed[i]) matches Some(k)
            ==> k + transpose <= i32::MAX)
}

/// Marks the pitch classes that the pressed keys sound.
fn sounding_flags(pressed: &[char], transpose: i32) -> (flags: [bool; 12])
    requires
        transposable(pressed@, transpose),
    ensures
        marked(flags@) == sounding(pressed@, transpose as int),
{
    let mut flags: [bool; 12] = [false; 12];
    for i in 0..pressed.len()
        invariant
            transposable(pressed@, transpose),
            forall|pc: int|
                0 <= pc < 12 ==> (#[trigger] flags@[pc] <==> sounds(
                    pressed@.take(i as int),
                    transpose as int,
                    pc,
                )),
    {
        let ghost before = pressed@.take(i as int);
        let ghost after = pressed@.take(i + 1);
        let ghost was = flags@;
        assert(forall|j: int| 0 <= j < i ==> before[j] == after[j]);
        assert(after[i as int] == pressed@[i as int]);
        if let Some(k) = key_to_pitch_class(pressed[i]) {
            let pc = modulo_octave(k as i32 + transpose);
            flags[pc as usize] = true;
        }
        assert forall|pc: int| 0 <= pc < 12 implies (#[trigger] flags@[pc] <==> sounds(
            after,
            transpose as int,
            pc,
        )) by {
            let now = flags@[pc];
            if sounds(before, transpose as int, pc) {
                let j = choose|j: int|
                    0 <= j < before.len() && (#[trigger] keyboard::pitch_class(
                        before[j],
                    ) matches Some(k) && transposed(k as int, transpose as int) == pc);
                assert(keyboard::pitch_class(after[j]) is Some);
            }
            if now && !was[pc] {
                assert(keyboard::pitch_class(after[i as int]) is Some);
            }
            if sounds(after, transpose as int, pc) {
                let j = choose|j: int|
                    0 <= j < after.len() && (#[trigger] keyboard::pitch_class(
                        after[j],
                    ) matches Some(k) && transposed(k as int, transpose as int) == pc);
                if j < i {
                    assert(keyboard::pitch_class(before[j]) is Some);
                }
            }
        }
    }
    assert(pressed@.take(pressed@.len() as int) == pressed@);
    assert(marked(flags@) =~= sounding(pressed@, transpose as int));
    flags
}

/// Lists the marked pitch classes in rising order.
fn rising_classes(flags: &[bool; 12]) -> (classes: Vec<u8>)
    ensures
        classes@ == ascending(marked(flags@), 12),
        forall|i: int| 0 <= i < classes@.len() ==> #[trigger] classes@[i] < 12,
{
    let mut classes: Vec<u8> = Vec::new();
    for n in 0..12u8
        invariant
            classes@ == ascending(marked(flags@), n as nat),
            forall|i: int| 0 <= i < classes@.len() ==> #[trigger] classes@[i] < 12,
    {
        if flags[n as usize] {
            classes.push(n);
        }
    }
    classes
}

/// Marks the distances above `root` at which marked pitch classes lie.
fn interval_flags(flags: &[bool; 12], root: u8) -> (above: [bool; 12])
    requires
        root < 12,
    ensures
        marked(above@) == intervals_above(marked(flags@), root as int),
{
    let mut above: [bool; 12] = [false; 12];
    for i in 0..12usize
        invariant
            root < 12,
            forall|j: int| 0 <= j < i ==> #[trigger] above@[j] == flags@[(root + j) % 12],
    {
        above[i] = flags[(root as usize + i) % 12];
    }
    assert(marked(above@) =~= intervals_above(marked(flags@), root as int));
    above
}

/// Whether the intervals are exactly those of a shape.
fn has_shape(intervals: &Vec<u8>, shape: &[u8]) -> (same: bool)
    ensures
        same == (intervals@ == shape@),
{
    if intervals.len() != shape.len() {
        return false;
    }
    for i in 0..shape.len()
        invariant
            intervals@.len() == shape@.len(),
            forall|j: int| 0 <= j < i ==> intervals@[j] == shape@[j],
    {
        if intervals[i] != shape[i] {
            return false;
        }
    }
    assert(intervals@ =~= shape@);
    true
}

/// Looks up the kind of chord that stacks these intervals on its root.
fn find_shape(intervals: &Vec<u8>) -> (name: Option<&'static str>)
    ensures
        match name {
            Some(text) => shape_name(intervals@) == Some(text@),
            None => shape_name(intervals@) is None,
        },
{
    if has_shape(intervals, &[0, 4, 7]) {
        Some("maj")
    } else if has_shape(intervals, &[0, 3, 7]) {
        Some("min")
    } else if has_shape(intervals, &[0, 3, 6]) {
        Some("dim")
    } else if has_shape(intervals, &[0, 4, 8]) {
        Some("aug")
    } else if has_shape(intervals, &[0, 2, 7]) {
        Some("sus2")
    } else if has_shape(intervals, &[0, 5, 7]) {
        Some("sus4")
    } else if has_shape(intervals, &[0, 4, 7, 11]) {
        Some("maj7")
    } else if has_shape(intervals, &[0, 3, 7, 10]) {
        Some("min7")
    } else if has_shape(intervals, &[0, 4, 7, 10]) {
        Some("7")
    } else if has_shape(intervals, &[0, 3, 6, 9]) {
        Some("dim7")
    } else if has_shape(intervals, &[0, 3, 6, 10]) {
        Some("m7b5")
    } else {
        None
    }
}

/// Writes out the names of pitch classes with a blank between each two.
fn join_names(classes: &Vec<u8>) -> (text: String)
    ensures
        text@ == joined_names(classes@),
{
    let mut text = String::new();
    for i in 0..classes.len()
        invariant
            text@ == joined_names(classes@.take(i as int)),
    {
        let ghost taken = classes@.take(i + 1);
        assert(taken.drop_last() =~= classes@.take(i as int));
        if i > 0 {
            text.append(" ");
        }
        text.append(note_name(classes[i]));
    }
    assert(classes@.take(classes@.len() as int) =~= classes@);
    text
}

/// Names the chord that the pressed keys form when every key is moved by `transpose` semitones.
/// Neither the order of the keys nor repetitions among them matter, and keys that play nothing
/// are passed over.
pub fn detect_chord(pressed: &[char], transpose: i32) -> (name: String)
    requires
        transposable(pressed@, transpose),
    ensures
        name@ == chord_name(sounding(pressed@, transpose as int)),
{
    let flags = sounding_flags(pressed, transpose);
    let classes = rising_classes(&flags);
    if classes.len() <= 1 {
        return join_names(&classes);
    }
    assert(classes@.skip(0) =~= classes@);
    for i in 0..classes.len()
        invariant
            classes@ == ascending(marked(flags@), 12),
            forall|j: int| 0 <= j < classes@.len() ==> #[trigger] classes@[j] < 12,
            first_chord(marked(flags@), classes@) == first_chord(
                marked(flags@),
                classes@.skip(i as int),
            ),
            classes@.len() > 1,
            marked(flags@) == sounding(pressed@, transpose as int),
    {
        let root = classes[i];
        let intervals = rising_classes(&interval_flags(&flags, root));
        assert(classes@.skip(i as int).skip(1) =~= classes@.skip(i + 1));
        if let Some(shape) = find_shape(&intervals) {
            let mut name = note_name(root).to_string();
            name.append(" ");
            name.append(shape);
            return name;
        }
    }
    join_names(&classes)
}

/// The rising list of a set holds exactly its members below the bound.
proof fn lemma_ascending_members(set: Set<int>, n: nat)
    requires
        n <= 12,
    ensures
        forall|x: u8| #[trigger] ascending(set, n).contains(x) <==> x < n && set.contains(x as int),
    decreases n,
{
    if n > 0 {
        lemma_ascending_members(set, (n - 1) as nat);
        let below = ascending(set, (n - 1) as nat);
        let all = ascending(set, n);
        assert forall|x: u8| #[trigger] all.contains(x) <==> x < n && set.contains(x as int) by {
            if set.contains(n - 1) {
                let top = (n - 1) as u8;
                assert(all == below.push(top));
                if below.contains(x) {
                    let i = choose|i: int| 0 <= i < below.len() && below[i] == x;
                    assert(all[i] == x);
                }
                assert(all[below.len() as int] == top);
                if all.contains(x) && x != top {
                    let i = choose|i: int| 0 <= i < all.len() && all[i] == x;
                    assert(below[i] == x);
                }
                assert(below.contains(x) <==> x < n - 1 && set.contains(x as int));
            } else {
                assert(below.contains(x) <==> x < n - 1 && set.contains(x as int));
            }
        }
    } else {
        assert(ascending(set, n) =~= Seq::<u8>::empty());
    }
}

/// The order in which keys are listed, and how often, makes no difference to what they sound.
pub proof fn law_only_the_set_of_keys_matters(one: Seq<char>, other: Seq<char>, transpose: int)
    requires
        one.to_set() == other.to_set(),
    ensures
        sounding(one, transpose) == sounding(other, transpose),
{
    assert forall|a: Seq<char>, b: Seq<char>, pc: int|
        a.to_set() == b.to_set() && #[trigger] sounds(a, transpose, pc) implies #[trigger] sounds(
        b,
        transpose,
        pc,
    ) by {
        let i = choose|i: int|
            0 <= i < a.len() && (#[trigger] keyboard::pitch_class(a[i]) matches Some(k)
                && transposed(k as int, transpose) == pc);
        assert(a.to_set().contains(a[i]));
        assert(b.to_set().contains(a[i]));
        let j = choose|j: int| 0 <= j < b.len() && b[j] == a[i];
        assert(keyboard::pitch_class(b[j]) is Some);
    }
    assert(sounding(one, transpose) =~= sounding(other, transpose));
}

/// Trading a key for the one an octave away changes nothing in what is sounded, and so nothing
/// in the name of the chord.
pub proof fn law_octave_keys_are_interchangeable(
    pressed: Seq<char>,
    at: int,
    other: char,
    transpose: int,
)
    requires
        0 <= at < pressed.len(),
        keyboard::pitch_class(other) == keyboard::pitch_class(pressed[at]),
    ensures
        sounding(pressed.update(at, other), transpose) == sounding(pressed, transpose),
{
    let traded = pressed.update(at, other);
    assert forall|pc: int| sounds(traded, transpose, pc) == sounds(pressed, transpose, pc) by {
        if sounds(traded, transpose, pc) {
            let i = choose|i: int|
                0 <= i < traded.len() && (#[trigger] keyboard::pitch_class(traded[i]) matches Some(k)
                    && transposed(k as int, transpose) == pc);
            assert(keyboard::pitch_class(pressed[i]) is Some);
        }
        if sounds(pressed, transpose, pc) {
            let i = choose|i: int|
                0 <= i < pressed.len() && (#[trigger] keyboard::pitch_class(
                    pressed[i],
                ) matches Some(k) && transposed(k as int, transpose) == pc);
            assert(keyboard::pitch_class(traded[i]) is Some);
        }
    }
    assert(sounding(traded, transpose) =~= sounding(pressed, transpose));
}

/// Transposing by a whole octave leaves the sounded pitch classes, and so the chord, as they are.
pub proof fn law_octave_transposition(pressed: Seq<char>, transpose: int)
    ensures
        sounding(pressed, transpose + 12) == sounding(pressed, transpose),
{
    assert forall|pc: int| sounds(pressed, transpose + 12, pc) == sounds(pressed, transpose, pc) by {
        if sounds(pressed, transpose + 12, pc) {
            let i = choose|i: int|
                0 <= i < pressed.len() && (#[trigger] keyboard::pitch_class(
                    pressed[i],
                ) matches Some(k) && transposed(k as int, transpose + 12) == pc);
            assert(keyboard::pitch_class(pressed[i]) is Some);
        }
        if sounds(pressed, transpose, pc) {
            let i = choose|i: int|
                0 <= i < pressed.len() && (#[trigger] keyboard::pitch_class(
                    pressed[i],
                ) matches Some(k) && transposed(k as int, transpose) == pc);
            assert(keyboard::pitch_class(pressed[i]) is Some);
        }
    }
    assert(sounding(pressed, transpose + 12) =~= sounding(pressed, transpose));
}

/// Transposing moves every sounded pitch class by the same number of semitones.
#[verifier::spinoff_prover]
#[verifier::rlimit(40)]
pub proof fn law_transposition_shifts_classes(pressed: Seq<char>, transpose: int, pc: int)
    requires
        0 <= pc < 12,
    ensures
        sounding(pressed, 0).contains(pc) <==> sounding(pressed, transpose).contains(
            transposed(pc, transpose),
        ),
{
    if sounds(pressed, 0, pc) {
        let i = choose|i: int|
            0 <= i < pressed.len() && (#[trigger] keyboard::pitch_class(pressed[i]) matches Some(k)
                && transposed(k as int, 0) == pc);
        assert(keyboard::pitch_class(pressed[i]) is Some);
    }
    if sounds(pressed, transpose, transposed(pc, transpose)) {
        let i = choose|i: int|
            0 <= i < pressed.len() && (#[trigger] keyboard::pitch_class(pressed[i]) matches Some(k)
                && transposed(k as int, transpose) == transposed(pc, transpose));
        assert(keyboard::pitch_class(pressed[i]) is Some);
    }
}

/// The kinds of chord that can be read from one root only.
pub open spec fn has_single_root(shape: Seq<u8>) -> bool {
    ||| shape == seq![0u8, 4, 7]
    ||| shape == seq![0u8, 3, 7]
    ||| shape == seq![0u8, 3, 6]
    ||| shape == seq![0u8, 4, 7, 11]
    ||| shape == seq![0u8, 3, 7, 10]
    ||| shape == seq![0u8, 4, 7, 10]
    ||| shape == seq![0u8, 3, 6, 10]
}

/// Over a second root the same pitch classes lie at rotated intervals.
proof fn lemma_rotated_interval(classes: Set<int>, root: int, other: int, i: int)
    requires
        0 <= root < 12,
        0 <= other < 12,
        0 <= i < 12,
    ensures
        intervals_above(classes, other).contains(i) <==> intervals_above(classes, root).contains(
            (other - root + i) % 12,
        ),
{
    assert(transposed(root, (other - root + i) % 12) == transposed(other, i));
}

/// Membership in a list of at most four numbers.
spec fn among(list: Seq<u8>, x: int) -> bool {
    ||| list.len() > 0 && list[0] == x
    ||| list.len() > 1 && list[1] == x
    ||| list.len() > 2 && list[2] == x
    ||| list.len() > 3 && list[3] == x
}

proof fn lemma_among(list: Seq<u8>)
    requires
        list.len() <= 4,
    ensures
        forall|x: u8| #[trigger] list.contains(x) <==> among(list, x as int),
{
    assert forall|x: u8| #[trigger] list.contains(x) <==> among(list, x as int) by {
        if list.contains(x) {
            let i = choose|i: int| 0 <= i < list.len() && list[i] == x;
            assert(i == 0 || i == 1 || i == 2 || i == 3);
        }
    }
}

/// Whether `b` is `a` seen from its member `d`.
#[verifier::opaque]
spec fn rotated(a: Seq<u8>, b: Seq<u8>, d: int) -> bool {
    &&& among(b, 0) == among(a, d)
    &&& among(b, 1) == among(a, (d + 1) % 12)
    &&& among(b, 2) == among(a, (d + 2) % 12)
    &&& among(b, 3) == among(a, (d + 3) % 12)
    &&& among(b, 4) == among(a, (d + 4) % 12)
    &&& among(b, 5) == among(a, (d + 5) % 12)
    &&& among(b, 6) == among(a, (d + 6) % 12)
    &&& among(b, 7) == among(a, (d + 7) % 12)
    &&& among(b, 8) == among(a, (d + 8) % 12)
    &&& among(b, 9) == among(a, (d + 9) % 12)
    &&& among(b, 10) == among(a, (d + 10) % 12)
    &&& among(b, 11) == among(a, (d + 11) % 12)
}

/// No chord with a single root is a chord when seen from another of its members.
#[verifier::spinoff_prover]
#[verifier::rlimit(40)]
proof fn lemma_no_rotation(a: Seq<u8>, b: Seq<u8>, d: int)
    requires
        has_single_root(a),
        shape_name(b) is Some,
        0 < d < 12,
        among(a, d),
    ensures
        !rotated(a, b, d),
{
    reveal(rotated);
}

/// Whether a short list holds exactly the intervals over a root.
#[verifier::opaque]
spec fn lists_intervals(list: Seq<u8>, classes: Set<int>, root: int) -> bool {
    &&& list.len() <= 4
    &&& forall|x: u8|
        #[trigger] list.contains(x) <==> x < 12 && intervals_above(classes, root).contains(x as int)
}

/// An interval over one root is the rotated interval over another.
proof fn lemma_list_rotates(
    classes: Set<int>,
    root: int,
    other: int,
    a: Seq<u8>,
    b: Seq<u8>,
    x: int,
)
    requires
        0 <= root < 12,
        0 <= other < 12,
        0 <= x < 12,
        lists_intervals(a, classes, root),
        lists_intervals(b, classes, other),
    ensures
        among(b, x) == among(a, ((other - root) % 12 + x) % 12),
{
    reveal(lists_intervals);
    let y = (other - root + x) % 12;
    assert(y == ((other - root) % 12 + x) % 12);
    assert(among(b, x) == intervals_above(classes, other).contains(x)) by {
        lemma_among(b);
        assert(b.contains(x as u8) == among(b, x as u8 as int));
    }
    assert(among(a, y) == intervals_above(classes, root).contains(y)) by {
        lemma_among(a);
        assert(a.contains(y as u8) == among(a, y as u8 as int));
    }
    lemma_rotated_interval(classes, root, other, x);
}

/// The intervals over two roots, listed, are rotations of each other.
proof fn lemma_lists_rotate(classes: Set<int>, root: int, other: int, a: Seq<u8>, b: Seq<u8>)
    requires
        0 <= root < 12,
        0 <= other < 12,
        lists_intervals(a, classes, root),
        lists_intervals(b, classes, other),
    ensures
        rotated(a, b, (other - root) % 12),
{
    reveal(rotated);
    lemma_list_rotates(classes, root, other, a, b, 0);
    lemma_list_rotates(classes, root, other, a, b, 1);
    lemma_list_rotates(classes, root, other, a, b, 2);
    lemma_list_rotates(classes, root, other, a, b, 3);
    lemma_list_rotates(classes, root, other, a, b, 4);
    lemma_list_rotates(classes, root, other, a, b, 5);
    lemma_list_rotates(classes, root, other, a, b, 6);
    lemma_list_rotates(classes, root, other, a, b, 7);
    lemma_list_rotates(classes, root, other, a, b, 8);
    lemma_list_rotates(classes, root, other, a, b, 9);
    lemma_list_rotates(classes, root, other, a, b, 10);
    lemma_list_rotates(classes, root, other, a, b, 11);
}

/// The second root lies at one of the intervals over the first.
proof fn lemma_root_is_listed(classes: Set<int>, root: int, other: int, a: Seq<u8>)
    requires
        0 <= root < 12,
        0 <= other < 12,
        classes.contains(other),
        lists_intervals(a, classes, root),
    ensures
        among(a, (other - root) % 12),
{
    reveal(lists_intervals);
    let d = (other - root) % 12;
    assert(transposed(root, d) == other);
    assert(a.contains(d as u8));
    lemma_among(a);
}

proof fn lemma_rising_list_of_intervals(classes: Set<int>, root: int)
    requires
        ascending(intervals_above(classes, root), 12).len() <= 4,
    ensures
        lists_intervals(ascending(intervals_above(classes, root), 12), classes, root),
{
    reveal(lists_intervals);
    lemma_ascending_members(intervals_above(classes, root), 12);
}

/// Pitch classes that form a chord with a single root form none over any of their other members.
proof fn lemma_no_second_root(classes: Set<int>, root: int, other: int)
    requires
        0 <= root < 12,
        0 <= other < 12,
        root != other,
        classes.contains(other),
        has_single_root(ascending(intervals_above(classes, root), 12)),
    ensures
        shape_over(classes, other) is None,
{
    let a = ascending(intervals_above(classes, root), 12);
    let b = ascending(intervals_above(classes, other), 12);
    if shape_name(b) is Some {
        assert(lists_intervals(a, classes, root)) by {
            lemma_rising_list_of_intervals(classes, root);
        }
        assert(lists_intervals(b, classes, other)) by {
            lemma_rising_list_of_intervals(classes, other);
        }
        let d = (other - root) % 12;
        assert(rotated(a, b, d)) by {
            lemma_lists_rotate(classes, root, other, a, b);
        }
        assert(among(a, d)) by {
            lemma_root_is_listed(classes, root, other, a);
        }
        lemma_no_rotation(a, b, d);
    }
}

/// Over one of their members, pitch classes form no chord unless that member is the root.
proof fn lemma_first_chord(classes: Set<int>, root: int, roots: Seq<u8>)
    requires
        0 <= root < 12,
        roots.contains(root as u8),
        forall|i: int|
            0 <= i < roots.len() ==> #[trigger] roots[i] < 12 && classes.contains(roots[i] as int),
        has_single_root(ascending(intervals_above(classes, root), 12)),
    ensures
        first_chord(classes, roots) == Some(
            keyboard::class_name(root) + " "@ + shape_over(classes, root)->0,
        ),
    decreases roots.len(),
{
    if roots[0] as int != root {
        lemma_no_second_root(classes, root, roots[0] as int);
        let rest = roots.skip(1);
        let i = choose|i: int| 0 <= i < roots.len() && roots[i] == root as u8;
        assert(rest[i - 1] == root as u8);
        assert forall|j: int| 0 <= j < rest.len() implies #[trigger] rest[j] < 12
            && classes.contains(rest[j] as int) by {
            assert(roots[j + 1] == rest[j]);
        }
        lemma_first_chord(classes, root, rest);
    }
}

/// Keys that stack a chord with a single root on any of the twelve pitch classes are named after
/// that pitch class and that kind of chord, wherever else on the keyboard they lie.
pub proof fn law_chord_is_named_after_its_root(classes: Set<int>, root: int)
    requires
        0 <= root < 12,
        has_single_root(ascending(intervals_above(classes, root), 12)),
    ensures
        chord_name(classes) == keyboard::class_name(root) + " "@ + shape_over(classes, root)->0,
{
    let above = intervals_above(classes, root);
    let stacked = ascending(above, 12);
    let rising = ascending(classes, 12);
    lemma_ascending_members(above, 12);
    lemma_ascending_members(classes, 12);
    assert(stacked[0] == 0 && stacked[1] != 0);
    assert(stacked.contains(stacked[0]) && stacked.contains(stacked[1]));
    let second = transposed(root, stacked[1] as int);
    assert(above.contains(0) && above.contains(stacked[1] as int));
    assert(classes.contains(root) && classes.contains(second));
    assert(rising.contains(root as u8) && rising.contains(second as u8));
    let i = choose|i: int| 0 <= i < rising.len() && rising[i] == root as u8;
    let j = choose|j: int| 0 <= j < rising.len() && rising[j] == second as u8;
    assert(i != j);
    assert forall|k: int| 0 <= k < rising.len() implies #[trigger] rising[k] < 12
        && classes.contains(rising[k] as int) by {
        assert(rising.contains(rising[k]));
    }
    lemma_first_chord(classes, root, rising);
}

/// Whether a list of numbers rises at every step.
pub open spec fn rises(list: Seq<u8>) -> bool {
    forall|i: int, j: int| 0 <= i < j < list.len() ==> #[trigger] list[i] < #[trigger] list[j]
}

proof fn lemma_ascending_rises(set: Set<int>, n: nat)
    requires
        n <= 12,
    ensures
        rises(ascending(set, n)),
        forall|i: int| 0 <= i < ascending(set, n).len() ==> #[trigger] ascending(set, n)[i] < n,
    decreases n,
{
    if n > 0 {
        lemma_ascending_rises(set, (n - 1) as nat);
    }
}

/// Two rising lists with the same members are the same.
proof fn lemma_rising_lists(a: Seq<u8>, b: Seq<u8>)
    requires
        rises(a),
        rises(b),
        forall|x: u8| #[trigger] a.contains(x) <==> b.contains(x),
    ensures
        a == b,
    decreases a.len(),
{
    if a.len() == 0 {
        if b.len() > 0 {
            assert(b.contains(b[0]));
            assert(a.contains(b[0]));
        }
        assert(a =~= b);
    } else {
        assert(a.contains(a.last()));
        let i = choose|i: int| 0 <= i < b.len() && b[i] == a.last();
        assert(b.contains(b.last()));
        assert(a.contains(b.last()));
        let j = choose|j: int| 0 <= j < a.len() && a[j] == b.last();
        assert(a.last() == b.last());
        let shorter_a = a.drop_last();
        let shorter_b = b.drop_last();
        assert forall|x: u8| #[trigger] shorter_a.contains(x) <==> shorter_b.contains(x) by {
            if shorter_a.contains(x) {
                let k = choose|k: int| 0 <= k < shorter_a.len() && shorter_a[k] == x;
                assert(a[k] == x);
                assert(a.contains(x));
                let m = choose|m: int| 0 <= m < b.len() && b[m] == x;
                assert(m < b.len() - 1);
                assert(shorter_b[m] == x);
            }
            if shorter_b.contains(x) {
                let k = choose|k: int| 0 <= k < shorter_b.len() && shorter_b[k] == x;
                assert(b[k] == x);
                assert(b.contains(x));
                assert(a.contains(x));
                let m = choose|m: int| 0 <= m < a.len() && a[m] == x;
                assert(m < a.len() - 1);
                assert(shorter_a[m] == x);
            }
        }
        lemma_rising_lists(shorter_a, shorter_b);
        assert(a =~= shorter_a.push(a.last()));
        assert(b =~= shorter_b.push(b.last()));
    }
}

/// Whether a rising list holds exactly the members of a set that are below twelve.
pub open spec fn lists_classes(list: Seq<u8>, classes: Set<int>) -> bool {
    &&& rises(list)
    &&& forall|x: u8| #[trigger] list.contains(x) <==> x < 12 && classes.contains(x as int)
}

proof fn lemma_ascending_is(classes: Set<int>, list: Seq<u8>)
    requires
        lists_classes(list, classes),
    ensures
        ascending(classes, 12) == list,
{
    lemma_ascending_members(classes, 12);
    lemma_ascending_rises(classes, 12);
    lemma_rising_lists(ascending(classes, 12), list);
}

/// Three pitch classes: a root and two others so many semitones above it.
pub open spec fn triad(root: int, a: int, b: int) -> Set<int> {
    Set::new(|pc: int| pc == root || pc == (root + a) % 12 || pc == (root + b) % 12)
}

/// Four pitch classes: a root and three others so many semitones above it.
pub open spec fn tetrad(root: int, a: int, b: int, c: int) -> Set<int> {
    Set::new(
        |pc: int|
            pc == root || pc == (root + a) % 12 || pc == (root + b) % 12 || pc == (root + c) % 12,
    )
}

/// Two distances above a root lead to the same pitch class only if they are the same.
proof fn lemma_distance(root: int, x: int, a: int)
    requires
        0 <= root < 12,
        0 <= x < 12,
        0 <= a < 12,
    ensures
        (root + x) % 12 == (root + a) % 12 <==> x == a,
        (root + x) % 12 == root <==> x == 0,
{
}

/// How far a pitch class lies above a root.
proof fn lemma_distance_to(root: int, pc: int, a: int)
    requires
        0 <= root < 12,
        0 <= pc < 12,
        0 <= a < 12,
    ensures
        pc == (root + a) % 12 <==> (pc - root) % 12 == a,
        pc == root <==> (pc - root) % 12 == 0,
{
}

/// The intervals of a triad over its root.
#[verifier::spinoff_prover]
#[verifier::rlimit(40)]
proof fn lemma_triad_intervals(root: int, a: u8, b: u8)
    requires
        0 <= root < 12,
        0 < a < b < 12,
    ensures
        ascending(intervals_above(triad(root, a as int, b as int), root), 12) == seq![0u8, a, b],
{
    let above = intervals_above(triad(root, a as int, b as int), root);
    let list = seq![0u8, a, b];
    assert(list[0] == 0 && list[1] == a && list[2] == b);
    assert forall|x: u8| #[trigger] list.contains(x) <==> x < 12 && above.contains(x as int) by {
        assert(list.contains(x) <==> x == 0 || x == a || x == b);
        if x < 12 {
            lemma_distance(root, x as int, a as int);
            lemma_distance(root, x as int, b as int);
        }
    }
    lemma_ascending_is(above, list);
}

/// The intervals of a tetrad over its root.
#[verifier::spinoff_prover]
#[verifier::rlimit(40)]
proof fn lemma_tetrad_intervals(root: int, a: u8, b: u8, c: u8)
    requires
        0 <= root < 12,
        0 < a < b < c < 12,
    ensures
        ascending(
            intervals_above(tetrad(root, a as int, b as int, c as int), root),
            12,
        ) == seq![0u8, a, b, c],
{
    let above = intervals_above(tetrad(root, a as int, b as int, c as int), root);
    let list = seq![0u8, a, b, c];
    assert(list[0] == 0 && list[1] == a && list[2] == b && list[3] == c);
    assert forall|x: u8| #[trigger] list.contains(x) <==> x < 12 && above.contains(x as int) by {
        assert(list.contains(x) <==> x == 0 || x == a || x == b || x == c);
        if x < 12 {
            lemma_distance(root, x as int, a as int);
            lemma_distance(root, x as int, b as int);
            lemma_distance(root, x as int, c as int);
        }
    }
    lemma_ascending_is(above, list);
}

/// On every one of the twelve roots, the chords that can be read from one root only have their
/// names: the root and the kind of chord.
pub proof fn law_chords_with_one_root(root: int)
    requires
        0 <= root < 12,
    ensures
        chord_name(triad(root, 4, 7)) == keyboard::class_name(root) + " "@ + "maj"@,
        chord_name(triad(root, 3, 7)) == keyboard::class_name(root) + " "@ + "min"@,
        chord_name(triad(root, 3, 6)) == keyboard::class_name(root) + " "@ + "dim"@,
        chord_name(tetrad(root, 4, 7, 11)) == keyboard::class_name(root) + " "@ + "maj7"@,
        chord_name(tetrad(root, 3, 7, 10)) == keyboard::class_name(root) + " "@ + "min7"@,
        chord_name(tetrad(root, 4, 7, 10)) == keyboard::class_name(root) + " "@ + "7"@,
        chord_name(tetrad(root, 3, 6, 10)) == keyboard::class_name(root) + " "@ + "m7b5"@,
{
    lemma_triad_intervals(root, 4, 7);
    law_chord_is_named_after_its_root(triad(root, 4, 7), root);
    lemma_triad_intervals(root, 3, 7);
    law_chord_is_named_after_its_root(triad(root, 3, 7), root);
    lemma_triad_intervals(root, 3, 6);
    law_chord_is_named_after_its_root(triad(root, 3, 6), root);
    lemma_tetrad_intervals(root, 4, 7, 11);
    law_chord_is_named_after_its_root(tetrad(root, 4, 7, 11), root);
    lemma_tetrad_intervals(root, 3, 7, 10);
    law_chord_is_named_after_its_root(tetrad(root, 3, 7, 10), root);
    lemma_tetrad_intervals(root, 4, 7, 10);
    law_chord_is_named_after_its_root(tetrad(root, 4, 7, 10), root);
    lemma_tetrad_intervals(root, 3, 6, 10);
    law_chord_is_named_after_its_root(tetrad(root, 3, 6, 10), root);
    lemma_shape_names();
}

/// The lists of intervals are told apart.
proof fn lemma_shape_names()
    ensures
        shape_name(seq![0u8, 4, 7]) == Some("maj"@),
        shape_name(seq![0u8, 3, 7]) == Some("min"@),
        shape_name(seq![0u8, 3, 6]) == Some("dim"@),
        shape_name(seq![0u8, 4, 8]) == Some("aug"@),
        shape_name(seq![0u8, 2, 7]) == Some("sus2"@),
        shape_name(seq![0u8, 5, 7]) == Some("sus4"@),
        shape_name(seq![0u8, 4, 7, 11]) == Some("maj7"@),
        shape_name(seq![0u8, 3, 7, 10]) == Some("min7"@),
        shape_name(seq![0u8, 4, 7, 10]) == Some("7"@),
        shape_name(seq![0u8, 3, 6, 9]) == Some("dim7"@),
        shape_name(seq![0u8, 3, 6, 10]) == Some("m7b5"@),
        shape_name(seq![0u8, 5, 10]) is None,
{
    assert(forall|a: u8, b: u8| (#[trigger] three(a, b)).len() == 3 && three(a, b)[1] == a && three(
        a,
        b,
    )[2] == b);
    assert(forall|a: u8, b: u8, c: u8|
        (#[trigger] four(a, b, c)).len() == 4 && four(a, b, c)[1] == a && four(a, b, c)[2] == b
            && four(a, b, c)[3] == c);
    assert(three(4, 7) == seq![0u8, 4, 7] && three(3, 7) == seq![0u8, 3, 7] && three(3, 6)
        == seq![0u8, 3, 6] && three(4, 8) == seq![0u8, 4, 8] && three(2, 7) == seq![0u8, 2, 7]
        && three(5, 7) == seq![0u8, 5, 7] && three(5, 10) == seq![0u8, 5, 10]);
    assert(four(4, 7, 11) == seq![0u8, 4, 7, 11] && four(3, 7, 10) == seq![0u8, 3, 7, 10] && four(
        4,
        7,
        10,
    ) == seq![0u8, 4, 7, 10] && four(3, 6, 9) == seq![0u8, 3, 6, 9] && four(3, 6, 10)
        == seq![0u8, 3, 6, 10]);
}

spec fn three(a: u8, b: u8) -> Seq<u8> {
    seq![0u8, a, b]
}

spec fn four(a: u8, b: u8, c: u8) -> Seq<u8> {
    seq![0u8, a, b, c]
}

/// The chords that can be read from several of their notes are named after the lowest of those: an
/// augmented chord after one of the lowest four pitch classes, a diminished seventh chord after one
/// of the lowest three, and a suspended chord, which is a second on one note and a fourth on
/// another, after the lower of the two.
#[verifier::spinoff_prover]
#[verifier::rlimit(40)]
pub proof fn law_chords_with_several_roots(root: int)
    requires
        0 <= root < 12,
    ensures
        chord_name(triad(root, 4, 8)) == keyboard::class_name(root % 4) + " "@ + "aug"@,
        chord_name(tetrad(root, 3, 6, 9)) == keyboard::class_name(root % 3) + " "@ + "dim7"@,
        root < 5 ==> chord_name(triad(root, 2, 7)) == keyboard::class_name(root) + " "@ + "sus2"@,
        root >= 5 ==> chord_name(triad(root, 2, 7)) == keyboard::class_name(root - 5) + " "@
            + "sus4"@,
        root < 7 ==> chord_name(triad(root, 5, 7)) == keyboard::class_name(root) + " "@ + "sus4"@,
        root >= 7 ==> chord_name(triad(root, 5, 7)) == keyboard::class_name(root - 7) + " "@
            + "sus2"@,
{
    lemma_augmented(root);
    lemma_diminished(root);
    if root < 5 {
        lemma_suspended_second(root);
    } else {
        assert(triad(root, 2, 7) =~= triad(root - 5, 5, 7));
        lemma_suspended_fourth(root - 5);
    }
    if root < 7 {
        lemma_suspended_fourth(root);
    } else {
        assert(triad(root, 5, 7) =~= triad(root - 7, 2, 7));
        lemma_suspended_second(root - 7);
    }
}

/// Pitch classes that form a chord over the lowest of them are named after that.
proof fn lemma_lowest_root(classes: Set<int>, list: Seq<u8>, shape: Seq<char>)
    requires
        lists_classes(list, classes),
        list.len() > 1,
        shape_over(classes, list[0] as int) == Some(shape),
    ensures
        chord_name(classes) == keyboard::class_name(list[0] as int) + " "@ + shape,
{
    lemma_ascending_is(classes, list);
}

#[verifier::spinoff_prover]
#[verifier::rlimit(40)]
proof fn lemma_augmented(root: int)
    requires
        0 <= root < 12,
    ensures
        chord_name(triad(root, 4, 8)) == keyboard::class_name(root % 4) + " "@ + "aug"@,
{
    let low = root % 4;
    let classes = triad(low, 4, 8);
    assert(triad(root, 4, 8) =~= classes);
    let list = seq![low as u8, (low + 4) as u8, (low + 8) as u8];
    assert(list[0] == low && list[1] == low + 4 && list[2] == low + 8);
    lemma_triad_intervals(low, 4, 8);
    lemma_shape_names();
    lemma_lowest_root(classes, list, "aug"@);
}

#[verifier::spinoff_prover]
#[verifier::rlimit(40)]
proof fn lemma_diminished(root: int)
    requires
        0 <= root < 12,
    ensures
        chord_name(tetrad(root, 3, 6, 9)) == keyboard::class_name(root % 3) + " "@ + "dim7"@,
{
    let low = root % 3;
    let classes = tetrad(low, 3, 6, 9);
    assert(tetrad(root, 3, 6, 9) =~= classes);
    let list = seq![low as u8, (low + 3) as u8, (low + 6) as u8, (low + 9) as u8];
    assert(list[0] == low && list[1] == low + 3 && list[2] == low + 6 && list[3] == low + 9);
    lemma_tetrad_intervals(low, 3, 6, 9);
    lemma_shape_names();
    lemma_lowest_root(classes, list, "dim7"@);
}

proof fn lemma_suspended_second(root: int)
    requires
        0 <= root < 5,
    ensures
        chord_name(triad(root, 2, 7)) == keyboard::class_name(root) + " "@ + "sus2"@,
{
    let classes = triad(root, 2, 7);
    let list = seq![root as u8, (root + 2) as u8, (root + 7) as u8];
    assert(list[0] == root && list[1] == root + 2 && list[2] == root + 7);
    lemma_triad_intervals(root, 2, 7);
    lemma_shape_names();
    lemma_lowest_root(classes, list, "sus2"@);
}

#[verifier::spinoff_prover]
#[verifier::rlimit(40)]
proof fn lemma_suspended_fourth(root: int)
    requires
        0 <= root < 7,
    ensures
        chord_name(triad(root, 5, 7)) == keyboard::class_name(root) + " "@ + "sus4"@,
{
    let classes = triad(root, 5, 7);
    lemma_triad_intervals(root, 5, 7);
    lemma_shape_names();
    if root < 5 {
        let list = seq![root as u8, (root + 5) as u8, (root + 7) as u8];
        assert(list[0] == root && list[1] == root + 5 && list[2] == root + 7);
        lemma_lowest_root(classes, list, "sus4"@);
    } else {
        let low = root - 5;
        let list = seq![low as u8, root as u8, (root + 5) as u8];
        assert(list[0] == low && list[1] == root && list[2] == root + 5);
        lemma_ascending_is(classes, list);
        assert(classes =~= triad(low, 5, 10));
        lemma_triad_intervals(low, 5, 10);
        assert(shape_over(classes, low) is None);
        assert(list.skip(1)[0] == root);
        reveal_with_fuel(first_chord, 2);
    }
}

/// Whether the pitch classes are those of one of the known chords on a root.
pub open spec fn is_chord_on(classes: Set<int>, root: int) -> bool {
    ||| classes == triad(root, 4, 7)
    ||| classes == triad(root, 3, 7)
    ||| classes == triad(root, 3, 6)
    ||| classes == triad(root, 4, 8)
    ||| classes == triad(root, 2, 7)
    ||| classes == triad(root, 5, 7)
    ||| classes == tetrad(root, 4, 7, 11)
    ||| classes == tetrad(root, 3, 7, 10)
    ||| classes == tetrad(root, 4, 7, 10)
    ||| classes == tetrad(root, 3, 6, 9)
    ||| classes == tetrad(root, 3, 6, 10)
}

/// What the intervals over a root say of the pitch classes.
proof fn lemma_classes_from_intervals(classes: Set<int>, root: int, pc: int)
    requires
        0 <= root < 12,
        0 <= pc < 12,
    ensures
        ascending(intervals_above(classes, root), 12).contains(((pc - root) % 12) as u8)
            <==> classes.contains(pc),
{
    lemma_ascending_members(intervals_above(classes, root), 12);
    let x = (pc - root) % 12;
    assert(transposed(root, x) == pc);
    assert(ascending(intervals_above(classes, root), 12).contains(x as u8) <==> (x as u8) < 12
        && intervals_above(classes, root).contains(x as u8 as int));
}

#[verifier::spinoff_prover]
#[verifier::rlimit(40)]
proof fn lemma_is_triad(classes: Set<int>, root: int, a: u8, b: u8)
    requires
        0 <= root < 12,
        0 < a < b < 12,
        forall|pc: int| #[trigger] classes.contains(pc) ==> 0 <= pc < 12,
        ascending(intervals_above(classes, root), 12) == seq![0u8, a, b],
    ensures
        classes == triad(root, a as int, b as int),
{
    let list = seq![0u8, a, b];
    assert(list[0] == 0 && list[1] == a && list[2] == b);
    assert forall|pc: int| classes.contains(pc) <==> triad(
        root,
        a as int,
        b as int,
    ).contains(pc) by {
        if 0 <= pc < 12 {
            lemma_classes_from_intervals(classes, root, pc);
            lemma_distance_to(root, pc, a as int);
            lemma_distance_to(root, pc, b as int);
            let x = ((pc - root) % 12) as u8;
            assert(list.contains(x) <==> x == 0 || x == a || x == b);
        }
    }
    assert(classes =~= triad(root, a as int, b as int));
}

#[verifier::spinoff_prover]
#[verifier::rlimit(40)]
proof fn lemma_is_tetrad(classes: Set<int>, root: int, a: u8, b: u8, c: u8)
    requires
        0 <= root < 12,
        0 < a < b < c < 12,
        forall|pc: int| #[trigger] classes.contains(pc) ==> 0 <= pc < 12,
        ascending(intervals_above(classes, root), 12) == seq![0u8, a, b, c],
    ensures
        classes == tetrad(root, a as int, b as int, c as int),
{
    let list = seq![0u8, a, b, c];
    assert(list[0] == 0 && list[1] == a && list[2] == b && list[3] == c);
    assert forall|pc: int| classes.contains(pc) <==> tetrad(
        root,
        a as int,
        b as int,
        c as int,
    ).contains(pc) by {
        if 0 <= pc < 12 {
            lemma_classes_from_intervals(classes, root, pc);
            lemma_distance_to(root, pc, a as int);
            lemma_distance_to(root, pc, b as int);
            lemma_distance_to(root, pc, c as int);
            let x = ((pc - root) % 12) as u8;
            assert(list.contains(x) <==> x == 0 || x == a || x == b || x == c);
        }
    }
    assert(classes =~= tetrad(root, a as int, b as int, c as int));
}

/// Only the known chords have a shape.
proof fn lemma_shapes_are_chords(classes: Set<int>, root: int)
    requires
        0 <= root < 12,
        forall|pc: int| #[trigger] classes.contains(pc) ==> 0 <= pc < 12,
        shape_over(classes, root) is Some,
    ensures
        is_chord_on(classes, root),
{
    let list = ascending(intervals_above(classes, root), 12);
    if list == seq![0u8, 4, 7] {
        lemma_is_triad(classes, root, 4, 7);
    } else if list == seq![0u8, 3, 7] {
        lemma_is_triad(classes, root, 3, 7);
    } else if list == seq![0u8, 3, 6] {
        lemma_is_triad(classes, root, 3, 6);
    } else if list == seq![0u8, 4, 8] {
        lemma_is_triad(classes, root, 4, 8);
    } else if list == seq![0u8, 2, 7] {
        lemma_is_triad(classes, root, 2, 7);
    } else if list == seq![0u8, 5, 7] {
        lemma_is_triad(classes, root, 5, 7);
    } else if list == seq![0u8, 4, 7, 11] {
        lemma_is_tetrad(classes, root, 4, 7, 11);
    } else if list == seq![0u8, 3, 7, 10] {
        lemma_is_tetrad(classes, root, 3, 7, 10);
    } else if list == seq![0u8, 4, 7, 10] {
        lemma_is_tetrad(classes, root, 4, 7, 10);
    } else if list == seq![0u8, 3, 6, 9] {
        lemma_is_tetrad(classes, root, 3, 6, 9);
    } else {
        lemma_is_tetrad(classes, root, 3, 6, 10);
    }
}

proof fn lemma_no_chord(classes: Set<int>, roots: Seq<u8>)
    requires
        forall|i: int| 0 <= i < roots.len() ==> #[trigger] roots[i] < 12,
        forall|pc: int| #[trigger] classes.contains(pc) ==> 0 <= pc < 12,
        forall|root: int| 0 <= root < 12 ==> !#[trigger] is_chord_on(classes, root),
    ensures
        first_chord(classes, roots) is None,
    decreases roots.len(),
{
    if roots.len() > 0 {
        if shape_over(classes, roots[0] as int) is Some {
            lemma_shapes_are_chords(classes, roots[0] as int);
        }
        let rest = roots.skip(1);
        assert forall|i: int| 0 <= i < rest.len() implies #[trigger] rest[i] < 12 by {
            assert(rest[i] == roots[i + 1]);
        }
        lemma_no_chord(classes, rest);
    }
}

/// Pitch classes that are no known chord on any root are named by listing exactly them, in rising
/// order: the name is that of the list, and of no other notes.
pub proof fn law_other_notes_are_listed(classes: Set<int>, list: Seq<u8>)
    requires
        forall|pc: int| #[trigger] classes.contains(pc) ==> 0 <= pc < 12,
        forall|root: int| 0 <= root < 12 ==> !#[trigger] is_chord_on(classes, root),
        lists_classes(list, classes),
    ensures
        chord_name(classes) == joined_names(list),
{
    lemma_ascending_is(classes, list);
    assert forall|i: int| 0 <= i < list.len() implies #[trigger] list[i] < 12 by {
        assert(list.contains(list[i]));
    }
    lemma_no_chord(classes, list);
}

/// A list of notes is written out from the front: the name of the first one, and, if there are
/// more, a blank and the list of the rest.
pub proof fn law_names_are_joined(list: Seq<u8>)
    ensures
        list.len() == 0 ==> joined_names(list) == Seq::<char>::empty(),
        list.len() == 1 ==> joined_names(list) == keyboard::class_name(list[0] as int),
        list.len() > 1 ==> joined_names(list) == keyboard::class_name(list[0] as int) + " "@
            + joined_names(list.skip(1)),
    decreases list.len(),
{
    if list.len() > 1 {
        let front = list.drop_last();
        let rest = list.skip(1);
        law_names_are_joined(front);
        assert(front[0] == list[0]);
        assert(rest.last() == list.last());
        if list.len() == 2 {
            assert(rest[0] == list.last());
        } else {
            assert(front.skip(1) =~= rest.drop_last());
            let first = keyboard::class_name(list[0] as int) + " "@;
            let middle = joined_names(rest.drop_last());
            let end = " "@ + keyboard::class_name(list.last() as int);
            assert(joined_names(rest) =~= middle + end);
            assert(joined_names(front) == first + middle);
            assert(joined_names(list) =~= first + middle + end);
            assert(first + middle + end =~= first + (middle + end));
        }
    }
}

/// Silence has no name, a single note has its own, and two different notes are named one after the
/// other, the lower one first, whatever the interval between them.
#[verifier::spinoff_prover]
#[verifier::rlimit(40)]
pub proof fn law_one_and_two_notes(a: int, b: int)
    requires
        0 <= a < b < 12,
    ensures
        chord_name(Set::<int>::empty()) == Seq::<char>::empty(),
        chord_name(set![a]) == keyboard::class_name(a),
        chord_name(set![b]) == keyboard::class_name(b),
        chord_name(set![a, b]) == keyboard::class_name(a) + " "@ + keyboard::class_name(b),
{
    lemma_ascending_is(Set::<int>::empty(), seq![]);
    assert(seq![a as u8][0] == a as u8);
    lemma_ascending_is(set![a], seq![a as u8]);
    assert(seq![b as u8][0] == b as u8);
    lemma_ascending_is(set![b], seq![b as u8]);
    let both = set![a, b];
    let list = seq![a as u8, b as u8];
    assert(list[0] == a && list[1] == b);
    assert forall|root: int| 0 <= root < 12 implies !#[trigger] is_chord_on(both, root) by {
        let second = (root + 2) % 12;
        let minor = (root + 3) % 12;
        let major = (root + 4) % 12;
        let fourth = (root + 5) % 12;
        let tritone = (root + 6) % 12;
        let fifth = (root + 7) % 12;
        let augmented = (root + 8) % 12;
        assert(both.contains(root) && both.contains(fifth) ==> !both.contains(second)
            && !both.contains(minor) && !both.contains(major) && !both.contains(fourth));
        assert(both.contains(root) && both.contains(minor) ==> !both.contains(tritone));
        assert(both.contains(root) && both.contains(major) ==> !both.contains(augmented));
        assert(triad(root, 4, 7).contains(root) && triad(root, 4, 7).contains(major) && triad(
            root,
            4,
            7,
        ).contains(fifth));
        assert(triad(root, 3, 7).contains(root) && triad(root, 3, 7).contains(minor) && triad(
            root,
            3,
            7,
        ).contains(fifth));
        assert(triad(root, 3, 6).contains(root) && triad(root, 3, 6).contains(minor) && triad(
            root,
            3,
            6,
        ).contains(tritone));
        assert(triad(root, 4, 8).contains(root) && triad(root, 4, 8).contains(major) && triad(
            root,
            4,
            8,
        ).contains(augmented));
        assert(triad(root, 2, 7).contains(root) && triad(root, 2, 7).contains(second) && triad(
            root,
            2,
            7,
        ).contains(fifth));
        assert(triad(root, 5, 7).contains(root) && triad(root, 5, 7).contains(fourth) && triad(
            root,
            5,
            7,
        ).contains(fifth));
        assert(tetrad(root, 4, 7, 11).contains(root) && tetrad(root, 4, 7, 11).contains(major)
            && tetrad(root, 4, 7, 11).contains(fifth));
        assert(tetrad(root, 3, 7, 10).contains(root) && tetrad(root, 3, 7, 10).contains(minor)
            && tetrad(root, 3, 7, 10).contains(fifth));
        assert(tetrad(root, 4, 7, 10).contains(root) && tetrad(root, 4, 7, 10).contains(major)
            && tetrad(root, 4, 7, 10).contains(fifth));
        assert(tetrad(root, 3, 6, 9).contains(root) && tetrad(root, 3, 6, 9).contains(minor)
            && tetrad(root, 3, 6, 9).contains(tritone));
        assert(tetrad(root, 3, 6, 10).contains(root) && tetrad(root, 3, 6, 10).contains(minor)
            && tetrad(root, 3, 6, 10).contains(tritone));
    }
    law_other_notes_are_listed(both, list);
    law_names_are_joined(list);
    assert(list.skip(1) =~= seq![b as u8]);
    law_names_are_joined(list.skip(1));
}

/// What sounds is what the pressed keys play, each moved up by the transposition, and nothing else.
#[verifier::spinoff_prover]
#[verifier::rlimit(40)]
pub proof fn law_pressed_keys_are_heard(pressed: Seq<char>, transpose: int, pc: int)
    ensures
        sounding(pressed, transpose).contains(pc) ==> 0 <= pc < 12,
        0 <= pc < 12 ==> (sounding(pressed, transpose).contains(pc) <==> exists|i: int|
            0 <= i < pressed.len() && (#[trigger] keyboard::pitch_class(pressed[i])) is Some && (
            keyboard::pitch_class(pressed[i])->0 + transpose - pc) % 12 == 0),
{
    if 0 <= pc < 12 {
        if sounds(pressed, transpose, pc) {
            let i = choose|i: int|
                0 <= i < pressed.len() && (#[trigger] keyboard::pitch_class(
                    pressed[i],
                ) matches Some(k) && transposed(k as int, transpose) == pc);
            assert(keyboard::pitch_class(pressed[i]) is Some);
            assert((keyboard::pitch_class(pressed[i])->0 + transpose - pc) % 12 == 0);
        }
        if exists|i: int|
            0 <= i < pressed.len() && (#[trigger] keyboard::pitch_class(pressed[i])) is Some && (
            keyboard::pitch_class(pressed[i])->0 + transpose - pc) % 12 == 0 {
            let i = choose|i: int|
                0 <= i < pressed.len() && (#[trigger] keyboard::pitch_class(pressed[i])) is Some
                    && (keyboard::pitch_class(pressed[i])->0 + transpose - pc) % 12 == 0;
            assert(keyboard::pitch_class(pressed[i]) is Some);
            assert(transposed(keyboard::pitch_class(pressed[i])->0 as int, transpose) == pc);
        }
    }
}

/// It does not matter in which order a pitch class is moved twice.
proof fn lemma_moves_add_up(root: int, transpose: int, i: int)
    ensures
        transposed(transposed(root, i), transpose) == transposed((root + transpose) % 12, i),
        0 <= transposed(root, i) < 12,
{
    vstd::arithmetic::div_mod::lemma_add_mod_noop(root + i, transpose, 12);
    vstd::arithmetic::div_mod::lemma_add_mod_noop((root + i) % 12, transpose, 12);
    vstd::arithmetic::div_mod::lemma_add_mod_noop(root + transpose, i, 12);
    vstd::arithmetic::div_mod::lemma_add_mod_noop((root + transpose) % 12, i, 12);
}

/// An interval stays an interval when everything is moved.
#[verifier::spinoff_prover]
#[verifier::rlimit(40)]
proof fn lemma_moved_interval(pressed: Seq<char>, root: int, transpose: int, i: int)
    requires
        0 <= root < 12,
        0 <= i < 12,
    ensures
        intervals_above(sounding(pressed, 0), root).contains(i) <==> intervals_above(
            sounding(pressed, transpose),
            (root + transpose) % 12,
        ).contains(i),
{
    lemma_moves_add_up(root, transpose, i);
    law_transposition_shifts_classes(pressed, transpose, transposed(root, i));
}

/// Transposing keeps the kind of a chord and moves its root along: keys that stack a chord with a
/// single root on a pitch class sound the same kind of chord on the transposed pitch class.
pub proof fn law_transposing_moves_the_chord(pressed: Seq<char>, root: int, transpose: int)
    requires
        0 <= root < 12,
        has_single_root(ascending(intervals_above(sounding(pressed, 0), root), 12)),
    ensures
        chord_name(sounding(pressed, transpose)) == keyboard::class_name((root + transpose) % 12)
            + " "@ + shape_over(sounding(pressed, 0), root)->0,
{
    let moved = (root + transpose) % 12;
    let here = intervals_above(sounding(pressed, 0), root);
    let there = intervals_above(sounding(pressed, transpose), moved);
    assert(here == there) by {
        assert forall|i: int| here.contains(i) <==> there.contains(i) by {
            if 0 <= i < 12 {
                lemma_moved_interval(pressed, root, transpose, i);
            }
        }
        assert(here =~= there);
    }
    law_chord_is_named_after_its_root(sounding(pressed, transpose), moved);
}

} // verus!
