//! The orders in which an arpeggio plays its keys.

use vstd::prelude::*;

use crate::keyboard;
use crate::keyboard::key_to_pitch_class;

verus! {

/// The order in which the held keys are played.
#[derive(Clone, Copy, PartialEq, Eq, Structural, Debug)]
pub enum ArpPattern {
    Up,
    Down,
    UpDown,
}

impl ArpPattern {
    /// The pattern that a press of the pattern key goes to.
    pub open spec fn successor(self) -> ArpPattern {
        match self {
            ArpPattern::Up => ArpPattern::Down,
            ArpPattern::Down => ArpPattern::UpDown,
            ArpPattern::UpDown => ArpPattern::Up,
        }
    }

    /// The name that the screen shows.
    pub open spec fn title(self) -> Seq<char> {
        match self {
            ArpPattern::Up => "Up"@,
            ArpPattern::Down => "Down"@,
            ArpPattern::UpDown => "Up-Down"@,
        }
    }

    /// Which of `n` notes, counted from the lowest, the pattern plays at a step: from the lowest
    /// to the highest over and over, the same backwards, or up and down again without playing
    /// the two ends twice.
    pub open spec fn index_at(self, step: int, n: int) -> int {
        match self {
            ArpPattern::Up => step % n,
            ArpPattern::Down => n - 1 - step % n,
            ArpPattern::UpDown => if n <= 1 {
                0
            } else {
                let turn = n - 1;
                let position = step % (2 * turn);
                if position <= turn {
                    position
                } else {
                    2 * turn - position
                }
            },
        }
    }

    /// The next pattern in the cycle.
    pub fn next(self) -> (following: Self)
        ensures
            following == self.successor(),
    {
        match self {
            ArpPattern::Up => ArpPattern::Down,
            ArpPattern::Down => ArpPattern::UpDown,
            ArpPattern::UpDown => ArpPattern::Up,
        }
    }

    /// The name of the pattern.
    pub fn name(self) -> (text: &'static str)
        ensures
            text@ == self.title(),
    {
        match self {
            ArpPattern::Up => "Up",
            ArpPattern::Down => "Down",
            ArpPattern::UpDown => "Up-Down",
        }
    }

    /// Which of `n` notes to play at the step `arp_idx`. There has to be a note to choose, though
    /// going up and down does without, and a round trip has to be countable.
    pub fn note_index(self, arp_idx: usize, n: usize) -> (index: usize)
        requires
            n > 0 || self is UpDown,
            self is UpDown && n > 0 ==> 2 * (n - 1) <= usize::MAX,
        ensures
            index == self.index_at(arp_idx as int, n as int),
            n > 0 ==> index < n,
    {
        match self {
            ArpPattern::Up => arp_idx % n,
            ArpPattern::Down => (n - 1).saturating_sub(arp_idx % n),
            ArpPattern::UpDown => {
                if n <= 1 {
                    return 0;
                }
                let cycle: usize = 2 * (n - 1);
                let pos: usize = arp_idx % cycle;
                if pos < n {
                    pos
                } else {
                    cycle - pos
                }
            },
        }
    }
}

/// Three steps through the patterns come back to the start, and no fewer do.
pub proof fn law_patterns_cycle(p: ArpPattern)
    ensures
        p.successor().successor().successor() == p,
        p.successor() != p,
        p.successor().successor() != p,
{
}

/// Every pattern chooses one of the notes there are.
pub proof fn law_pattern_stays_in_range(p: ArpPattern, step: int, n: int)
    requires
        n > 0,
        step >= 0,
    ensures
        0 <= p.index_at(step, n) < n,
{
    vstd::arithmetic::div_mod::lemma_mod_bound(step, n);
    if n > 1 {
        vstd::arithmetic::div_mod::lemma_mod_bound(step, 2 * (n - 1));
    }
}

/// In the first round every pattern plays every note: going up the `i`th step plays the `i`th note, going down it
/// plays the `i`th from the top, and going up and down starts like going up.
pub proof fn law_pattern_reaches_every_note(i: int, n: int)
    requires
        0 <= i < n,
    ensures
        ArpPattern::Up.index_at(i, n) == i,
        ArpPattern::Down.index_at(i, n) == n - 1 - i,
        ArpPattern::UpDown.index_at(i, n) == i,
{
    vstd::arithmetic::div_mod::lemma_small_mod(i as nat, n as nat);
    if n > 1 {
        vstd::arithmetic::div_mod::lemma_small_mod(i as nat, (2 * (n - 1)) as nat);
    }
}

/// How often a pattern plays the note `k` in a number of steps from a start on.
pub open spec fn times_played(p: ArpPattern, start: int, steps: nat, n: int, k: int) -> int
    decreases steps,
{
    if steps == 0 {
        0
    } else {
        times_played(p, start, (steps - 1) as nat, n, k) + once_if(
            p.index_at(start + steps - 1, n) == k,
        )
    }
}

/// One or nothing.
pub open spec fn once_if(happens: bool) -> int {
    if happens {
        1
    } else {
        0
    }
}

/// Starting a step later leaves out the first step and adds one at the end.
proof fn lemma_start_later(p: ArpPattern, start: int, steps: nat, n: int, k: int)
    ensures
        times_played(p, start + 1, steps, n, k) == times_played(p, start, steps, n, k) - once_if(
            p.index_at(start, n) == k,
        ) + once_if(p.index_at(start + steps, n) == k),
    decreases steps,
{
    if steps > 0 {
        lemma_start_later(p, start, (steps - 1) as nat, n, k);
        assert(start + 1 + steps - 1 == start + steps);
    }
}

/// After how many steps a pattern repeats itself.
pub open spec fn round_length(p: ArpPattern, n: int) -> int {
    match p {
        ArpPattern::UpDown => 2 * (n - 1),
        _ => n,
    }
}

/// A pattern repeats itself after a round.
pub proof fn law_patterns_repeat(p: ArpPattern, step: int, n: int)
    requires
        n > 1 || (n == 1 && !(p is UpDown)),
    ensures
        p.index_at(step + round_length(p, n), n) == p.index_at(step, n),
{
    vstd::arithmetic::div_mod::lemma_mod_add_multiples_vanish(step, round_length(p, n));
    assert(step + round_length(p, n) == round_length(p, n) + step);
}

/// How often the first steps of a round that starts at zero play a note.
proof fn lemma_round_from_zero(p: ArpPattern, steps: nat, n: int, k: int)
    requires
        n > 1 || (n == 1 && !(p is UpDown)),
        0 <= k < n,
        steps <= round_length(p, n),
    ensures
        times_played(p, 0, steps, n, k) == match p {
            ArpPattern::Up => once_if(k < steps),
            ArpPattern::Down => once_if(n - 1 - k < steps),
            ArpPattern::UpDown => once_if(k < steps) + once_if(
                0 < k < n - 1 && 2 * (n - 1) - k < steps,
            ),
        },
    decreases steps,
{
    if steps > 0 {
        lemma_round_from_zero(p, (steps - 1) as nat, n, k);
        vstd::arithmetic::div_mod::lemma_small_mod(
            (steps - 1) as nat,
            round_length(p, n) as nat,
        );
    }
}

proof fn lemma_round_from(p: ArpPattern, start: nat, n: int, k: int)
    requires
        n > 1 || (n == 1 && !(p is UpDown)),
        0 <= k < n,
    ensures
        times_played(p, start as int, round_length(p, n) as nat, n, k) == times_played(
            p,
            0,
            round_length(p, n) as nat,
            n,
            k,
        ),
    decreases start,
{
    if start > 0 {
        lemma_round_from(p, (start - 1) as nat, n, k);
        lemma_start_later(p, start - 1, round_length(p, n) as nat, n, k);
        law_patterns_repeat(p, start - 1, n);
    }
}

/// A full round plays every note, at whatever step it starts: going up or down each of them once,
/// and going up and down the two ends once and each of the others twice.
pub proof fn law_every_round_plays_every_note(start: nat, n: int, k: int)
    requires
        0 <= k < n,
    ensures
        times_played(ArpPattern::Up, start as int, n as nat, n, k) == 1,
        times_played(ArpPattern::Down, start as int, n as nat, n, k) == 1,
        n > 1 ==> times_played(ArpPattern::UpDown, start as int, (2 * (n - 1)) as nat, n, k) == (
        if k == 0 || k == n - 1 {
            1int
        } else {
            2
        }),
{
    lemma_round_from(ArpPattern::Up, start, n, k);
    lemma_round_from_zero(ArpPattern::Up, n as nat, n, k);
    lemma_round_from(ArpPattern::Down, start, n, k);
    lemma_round_from_zero(ArpPattern::Down, n as nat, n, k);
    if n > 1 {
        lemma_round_from(ArpPattern::UpDown, start, n, k);
        lemma_round_from_zero(ArpPattern::UpDown, (2 * (n - 1)) as nat, n, k);
    }
}

/// Going up and down moves to a neighbouring note at every step.
pub proof fn law_up_down_moves_to_neighbours(step: int, n: int)
    requires
        n > 1,
        step >= 0,
    ensures
        ({
            let here = ArpPattern::UpDown.index_at(step, n);
            let there = ArpPattern::UpDown.index_at(step + 1, n);
            there == here + 1 || there == here - 1
        }),
{
    let cycle = 2 * (n - 1);
    vstd::arithmetic::div_mod::lemma_mod_bound(step, cycle);
    let position = step % cycle;
    vstd::arithmetic::div_mod::lemma_add_mod_noop(step, 1, cycle);
    vstd::arithmetic::div_mod::lemma_small_mod(1, cycle as nat);
    if position + 1 == cycle {
        vstd::arithmetic::div_mod::lemma_mod_self_0(cycle);
    } else {
        vstd::arithmetic::div_mod::lemma_small_mod((position + 1) as nat, cycle as nat);
    }
}

/// The pitch class by which a key is sorted, that of C for a key that plays nothing.
pub open spec fn sort_class(key: char) -> int {
    match keyboard::pitch_class(key) {
        Some(pc) => pc as int,
        None => 0,
    }
}

/// The keys with a pitch class below `n`, by rising pitch class; keys of the same class stay in
/// the order in which they were held.
pub open spec fn sorted_below(held: Seq<char>, n: nat) -> Seq<char>
    decreases n,
{
    if n == 0 {
        seq![]
    } else {
        sorted_below(held, (n - 1) as nat) + held.filter(|key: char| sort_class(key) == n - 1)
    }
}

/// The held keys by rising pitch class.
pub open spec fn by_pitch(held: Seq<char>) -> Seq<char> {
    sorted_below(held, 12)
}

/// Sorts keys by pitch class; keys of the same class keep their order.
pub fn sort_by_pitch(held: &Vec<char>) -> (sorted: Vec<char>)
    ensures
        sorted@ == by_pitch(held@),
{
    let mut sorted: Vec<char> = Vec::new();
    for class in 0..12u8
        invariant
            sorted@ == sorted_below(held@, class as nat),
    {
        let ghost below = sorted@;
        let ghost wanted = |key: char| sort_class(key) == class;
        assert(held@.take(0).filter(wanted) =~= Seq::<char>::empty()) by {
            reveal(Seq::filter);
        }
        for i in 0..held.len()
            invariant
                wanted == (|key: char| sort_class(key) == class),
                sorted@ == below + held@.take(i as int).filter(wanted),
        {
            let key = held[i];
            proof {
                assert(held@.take(i + 1) =~= held@.take(i as int).push(key));
                held@.take(i as int).lemma_filter_push(key, wanted);
            }
            let of_key = match key_to_pitch_class(key) {
                Some(pc) => pc,
                None => 0,
            };
            if of_key == class {
                sorted.push(key);
            }
            assert(sorted@ =~= below + held@.take(i + 1).filter(wanted));
        }
        assert(held@.take(held@.len() as int) =~= held@);
        assert(sorted_below(held@, (class + 1) as nat) == below + held@.filter(wanted)) by {
            assert(wanted =~= (|key: char| sort_class(key) == (class + 1) as nat - 1));
        }
    }
    sorted
}

/// Taking out the keys below a class and those of the next class takes out those below the class
/// after that.
proof fn lemma_next_class(held: Seq<char>, n: nat)
    requires
        n > 0,
    ensures
        held.filter(|key: char| sort_class(key) < n).to_multiset() =~= held.filter(
            |key: char| sort_class(key) < n - 1,
        ).to_multiset().add(held.filter(|key: char| sort_class(key) == n - 1).to_multiset()),
    decreases held.len(),
{
    reveal(Seq::filter);
    broadcast use vstd::seq_lib::group_to_multiset_ensures;

    if held.len() > 0 {
        lemma_next_class(held.drop_last(), n);
    } else {
        assert(held.filter(|key: char| sort_class(key) < n) =~= Seq::<char>::empty());
        assert(held.filter(|key: char| sort_class(key) < n - 1) =~= Seq::<char>::empty());
        assert(held.filter(|key: char| sort_class(key) == n - 1) =~= Seq::<char>::empty());
    }
}

proof fn lemma_sorted_below_keys(held: Seq<char>, n: nat)
    ensures
        sorted_below(held, n).to_multiset() =~= held.filter(
            |key: char| sort_class(key) < n,
        ).to_multiset(),
    decreases n,
{
    if n > 0 {
        lemma_sorted_below_keys(held, (n - 1) as nat);
        lemma_next_class(held, n);
        assert((|key: char| sort_class(key) < (n - 1) as nat) =~= (|key: char|
            sort_class(key) < n - 1));
        vstd::seq_lib::lemma_multiset_commutative(
            sorted_below(held, (n - 1) as nat),
            held.filter(|key: char| sort_class(key) == n - 1),
        );
    } else {
        lemma_filter_none(held, |key: char| sort_class(key) < n);
    }
}

proof fn lemma_filter_none(keys: Seq<char>, wanted: spec_fn(char) -> bool)
    requires
        forall|key: char| !(#[trigger] wanted(key)),
    ensures
        keys.filter(wanted) == Seq::<char>::empty(),
    decreases keys.len(),
{
    reveal(Seq::filter);
    if keys.len() > 0 {
        lemma_filter_none(keys.drop_last(), wanted);
    } else {
        assert(keys.filter(wanted) =~= Seq::<char>::empty());
    }
}

/// Taking out the keys that are wanted takes out all of them if all are.
pub(crate) proof fn lemma_filter_keeps_all(keys: Seq<char>, wanted: spec_fn(char) -> bool)
    requires
        forall|i: int| 0 <= i < keys.len() ==> wanted(#[trigger] keys[i]),
    ensures
        keys.filter(wanted) == keys,
    decreases keys.len(),
{
    reveal(Seq::filter);
    if keys.len() > 0 {
        let rest = keys.drop_last();
        assert forall|i: int| 0 <= i < rest.len() implies wanted(#[trigger] rest[i]) by {
            assert(keys[i] == rest[i]);
        }
        lemma_filter_keeps_all(rest, wanted);
        assert(keys.filter(wanted) =~= keys);
    }
}

/// Sorting keys by pitch class loses none, adds none and repeats none.
pub proof fn law_sorting_keeps_the_keys(held: Seq<char>)
    ensures
        by_pitch(held).to_multiset() == held.to_multiset(),
        by_pitch(held).len() == held.len(),
        forall|key: char| by_pitch(held).contains(key) <==> held.contains(key),
{
    lemma_sorted_below_keys(held, 12);
    lemma_filter_keeps_all(held, |key: char| sort_class(key) < 12nat);
    by_pitch(held).to_multiset_ensures();
    held.to_multiset_ensures();
    assert forall|key: char| by_pitch(held).contains(key) <==> held.contains(key) by {
        assert(by_pitch(held).to_multiset().count(key) == held.to_multiset().count(key));
    }
}

proof fn lemma_sorted_below_order(held: Seq<char>, n: nat)
    ensures
        forall|i: int|
            0 <= i < sorted_below(held, n).len() ==> sort_class(#[trigger] sorted_below(held, n)[i])
                < n,
        forall|i: int, j: int|
            0 <= i <= j < sorted_below(held, n).len() ==> sort_class(
                #[trigger] sorted_below(held, n)[i],
            ) <= sort_class(#[trigger] sorted_below(held, n)[j]),
    decreases n,
{
    if n > 0 {
        lemma_sorted_below_order(held, (n - 1) as nat);
        let wanted = |key: char| sort_class(key) == n - 1;
        let lower = sorted_below(held, (n - 1) as nat);
        let upper = held.filter(wanted);
        assert forall|i: int| 0 <= i < upper.len() implies sort_class(#[trigger] upper[i]) == n
            - 1 by {
            held.lemma_filter_pred(wanted, i);
            assert(wanted(upper[i]));
        }
    }
}

/// Sorted keys never fall in pitch class.
pub proof fn law_sorting_orders_by_pitch(held: Seq<char>, i: int, j: int)
    requires
        0 <= i <= j < by_pitch(held).len(),
    ensures
        sort_class(by_pitch(held)[i]) <= sort_class(by_pitch(held)[j]),
{
    lemma_sorted_below_order(held, 12);
}

proof fn lemma_filter_of_filter(keys: Seq<char>, a: int, b: int)
    ensures
        keys.filter(|key: char| sort_class(key) == a).filter(|key: char| sort_class(key) == b) == (
        if a == b {
            keys.filter(|key: char| sort_class(key) == b)
        } else {
            Seq::<char>::empty()
        }),
    decreases keys.len(),
{
    reveal(Seq::filter);
    let one = |key: char| sort_class(key) == a;
    let other = |key: char| sort_class(key) == b;
    if keys.len() > 0 {
        lemma_filter_of_filter(keys.drop_last(), a, b);
        let inner = keys.drop_last().filter(one);
        if one(keys.last()) {
            inner.lemma_filter_push(keys.last(), other);
        }
    } else {
        assert(keys.filter(one) =~= Seq::<char>::empty());
        assert(keys.filter(one).filter(other) =~= Seq::<char>::empty());
    }
}

proof fn lemma_sorted_below_is_stable(held: Seq<char>, n: nat, class: int)
    ensures
        sorted_below(held, n).filter(|key: char| sort_class(key) == class) == (if 0 <= class < n {
            held.filter(|key: char| sort_class(key) == class)
        } else {
            Seq::<char>::empty()
        }),
    decreases n,
{
    let wanted = |key: char| sort_class(key) == class;
    if n > 0 {
        lemma_sorted_below_is_stable(held, (n - 1) as nat, class);
        lemma_filter_of_filter(held, n - 1, class);
        let lower = sorted_below(held, (n - 1) as nat);
        let upper = held.filter(|key: char| sort_class(key) == n - 1);
        Seq::filter_distributes_over_add(lower, upper, wanted);
        assert(lower.filter(wanted) + upper.filter(wanted) =~= (if 0 <= class < n {
            held.filter(wanted)
        } else {
            Seq::<char>::empty()
        }));
    } else {
        reveal(Seq::filter);
        assert(sorted_below(held, n).filter(wanted) =~= Seq::<char>::empty());
    }
}

/// Keys of the same pitch class stay in the order in which they were held.
pub proof fn law_sorting_is_stable(held: Seq<char>, class: int)
    requires
        0 <= class < 12,
    ensures
        by_pitch(held).filter(|key: char| sort_class(key) == class) == held.filter(
            |key: char| sort_class(key) == class,
        ),
{
    lemma_sorted_below_is_stable(held, 12, class);
}

/// Keys are sorted by the pitch classes that they play.
pub proof fn law_keys_are_sorted_by_what_they_play(held: Seq<char>, i: int, j: int)
    requires
        0 <= i <= j < by_pitch(held).len(),
        forall|k: int| 0 <= k < held.len() ==> keyboard::is_piano_key(#[trigger] held[k]),
    ensures
        keyboard::pitch_class(by_pitch(held)[i])->0 <= keyboard::pitch_class(by_pitch(held)[j])->0,
{
    law_sorting_orders_by_pitch(held, i, j);
    law_sorting_keeps_the_keys(held);
    assert(by_pitch(held).contains(by_pitch(held)[i]) && held.contains(by_pitch(held)[i]));
    assert(by_pitch(held).contains(by_pitch(held)[j]) && held.contains(by_pitch(held)[j]));
    let a = choose|a: int| 0 <= a < held.len() && held[a] == by_pitch(held)[i];
    let b = choose|b: int| 0 <= b < held.len() && held[b] == by_pitch(held)[j];
    assert(keyboard::is_piano_key(held[a]) && keyboard::is_piano_key(held[b]));
}

/// Where a pattern is at a step: going up it counts the notes over and over, going down it counts
/// from the top, and going up and down it is as far from the bottom as the step is from the nearest
/// start of a round.
pub proof fn law_patterns_count_the_notes(rounds: nat, step: int, n: int)
    requires
        n > 0,
    ensures
        0 <= step < n ==> ArpPattern::Up.index_at(rounds * n + step, n) == step,
        0 <= step < n ==> ArpPattern::Down.index_at(rounds * n + step, n) == n - 1 - step,
        n > 1 && 0 <= step < n ==> ArpPattern::UpDown.index_at(rounds * (2 * (n - 1)) + step, n)
            == step,
        n > 1 && 0 < step < n ==> ArpPattern::UpDown.index_at(
            (rounds + 1) * (2 * (n - 1)) - step,
            n,
        ) == step,
        ArpPattern::UpDown.index_at(step, 1) == 0,
{
    if 0 <= step < n {
        vstd::arithmetic::div_mod::lemma_fundamental_div_mod_converse(
            rounds * n + step,
            n,
            rounds as int,
            step,
        );
        if n > 1 {
            let round = 2 * (n - 1);
            vstd::arithmetic::div_mod::lemma_fundamental_div_mod_converse(
                rounds * round + step,
                round,
                rounds as int,
                step,
            );
            if step > 0 {
                assert((rounds + 1) * round - step == rounds * round + (round - step))
                    by (nonlinear_arith);
                vstd::arithmetic::div_mod::lemma_fundamental_div_mod_converse(
                    (rounds + 1) * round - step,
                    round,
                    rounds as int,
                    round - step,
                );
            }
        }
    }
}

} // verus!
