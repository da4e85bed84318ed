//! Ring buffers of audio samples: the echo and the reverberation.
//!
//! What a sample is, and how samples are mixed, is left to the caller.

use vstd::prelude::*;

verus! {

/// A ring buffer that plays back every sample a fixed number of steps after it was recorded.
#[derive(Debug)]
pub struct Delay<T> {
    buffer: Vec<T>,
    position: usize,
}

/// The buffer read from the oldest sample on.
spec fn unrolled<T>(buffer: Seq<T>, position: int) -> Seq<T> {
    buffer.skip(position) + buffer.take(position)
}

/// The samples are in the order in which they will be played back.
impl<T> View for Delay<T> {
    type V = Seq<T>;

    closed spec fn view(&self) -> Seq<T> {
        unrolled(self.buffer@, self.position as int)
    }
}

impl<T: Copy> Delay<T> {
    /// The position lies in the buffer.
    pub closed spec fn wf(self) -> bool {
        self.position < self.buffer@.len() || (self.position == 0 && self.buffer@.len() == 0)
    }

    /// A line of a given length that holds nothing but silence.
    pub fn new(length: usize, silence: T) -> (line: Self)
        ensures
            line.wf(),
            line@ == Seq::new(length as nat, |i: int| silence),
    {
        let mut buffer: Vec<T> = Vec::new();
        for i in 0..length
            invariant
                buffer@.len() == i,
                forall|j: int| 0 <= j < i ==> buffer@[j] == silence,
        {
            buffer.push(silence);
        }
        let line = Delay { buffer, position: 0 };
        assert(line@ =~= Seq::new(length as nat, |i: int| silence));
        line
    }

    /// The sample that is due to be played back.
    fn due(&self) -> (sample: T)
        requires
            self.wf(),
            self@.len() > 0,
        ensures
            sample == self@[0],
    {
        self.buffer[self.position]
    }

    /// Records a sample in the place of the one that is due, and steps on.
    fn record(&mut self, sample: T)
        requires
            old(self).wf(),
            old(self)@.len() > 0,
        ensures
            final(self).wf(),
            final(self)@ == old(self)@.drop_first().push(sample),
    {
        let ghost before = self.buffer@;
        let position: usize = self.position;
        self.buffer[position] = sample;
        let length: usize = self.buffer.len();
        self.position = (position + 1) % length;
        assert(self@ =~= unrolled(before, position as int).drop_first().push(sample)) by {
            if position + 1 == length {
                vstd::arithmetic::div_mod::lemma_mod_self_0(length as int);
            } else {
                vstd::arithmetic::div_mod::lemma_small_mod((position + 1) as nat, length as nat);
            }
        }
    }

    /// Plays back the oldest sample and records what `mix` makes of it in its place.
    pub fn process<F: Fn(T) -> T>(&mut self, mix: F) -> (delayed: T)
        requires
            old(self).wf(),
            old(self)@.len() > 0,
            mix.requires((old(self)@[0],)),
        ensures
            final(self).wf(),
            delayed == old(self)@[0],
            mix.ensures((delayed,), final(self)@.last()),
            final(self)@ == old(self)@.drop_first().push(final(self)@.last()),
    {
        let delayed = self.due();
        let sample = mix(delayed);
        self.record(sample);
        delayed
    }
}

/// What a line holds after recording the given samples one after the other.
pub open spec fn fed<T>(line: Seq<T>, samples: Seq<T>) -> Seq<T>
    decreases samples.len(),
{
    if samples.len() == 0 {
        line
    } else {
        fed(line, samples.drop_last()).drop_first().push(samples.last())
    }
}

/// A line plays back everything that it held and then everything that it recorded, in order and
/// without loss: after `n` recorded samples the next one played is the `n`th of these. In
/// particular a sample is heard again exactly as many steps after it was recorded as the line is
/// long.
pub proof fn law_delay_is_first_in_first_out<T>(line: Seq<T>, samples: Seq<T>)
    requires
        line.len() > 0,
    ensures
        fed(line, samples) == (line + samples).skip(samples.len() as int),
        fed(line, samples)[0] == (line + samples)[samples.len() as int],
        samples.len() >= line.len() ==> fed(line, samples)[0] == samples[samples.len()
            - line.len()],
    decreases samples.len(),
{
    if samples.len() > 0 {
        let shorter = samples.drop_last();
        law_delay_is_first_in_first_out(line, shorter);
        assert(fed(line, samples) =~= (line + samples).skip(samples.len() as int));
    } else {
        assert(fed(line, samples) =~= (line + samples).skip(0));
    }
}

/// Four delay lines side by side, fed with the same input: a comb filter each.
#[derive(Debug)]
pub struct Reverb<T> {
    lines: [Delay<T>; 4],
}

/// How far the combs delay, in tenths of a millisecond.
pub open spec fn comb_delays() -> Seq<u32> {
    seq![297, 371, 411, 437]
}

/// How much of its output each comb feeds back, in thousandths.
pub open spec fn comb_gains() -> Seq<u32> {
    seq![805, 827, 783, 764]
}

/// The delay of a comb in tenths of a millisecond.
pub fn comb_delay(comb: usize) -> (tenths_of_ms: u32)
    requires
        comb < 4,
    ensures
        tenths_of_ms == comb_delays()[comb as int],
{
    match comb {
        0 => 297,
        1 => 371,
        2 => 411,
        _ => 437,
    }
}

/// The feedback of a comb in thousandths.
pub fn comb_gain(comb: usize) -> (thousandths: u32)
    requires
        comb < 4,
    ensures
        thousandths == comb_gains()[comb as int],
{
    match comb {
        0 => 805,
        1 => 827,
        2 => 783,
        _ => 764,
    }
}

/// The contents of the four lines.
impl<T> View for Reverb<T> {
    type V = Seq<Seq<T>>;

    closed spec fn view(&self) -> Seq<Seq<T>> {
        Seq::new(4, |comb: int| self.lines@[comb]@)
    }
}

impl<T: Copy> Reverb<T> {
    /// Every line is in order.
    pub closed spec fn wf(self) -> bool {
        forall|comb: int| 0 <= comb < 4 ==> (#[trigger] self.lines@[comb]).wf()
    }

    /// Four lines of the given lengths that hold nothing but silence.
    pub fn new(lengths: [usize; 4], silence: T) -> (reverb: Self)
        ensures
            reverb.wf(),
            reverb@.len() == 4,
            forall|comb: int|
                0 <= comb < 4 ==> #[trigger] reverb@[comb] == Seq::new(
                    lengths@[comb] as nat,
                    |i: int| silence,
                ),
    {
        Reverb {
            lines: [
                Delay::new(lengths[0], silence),
                Delay::new(lengths[1], silence),
                Delay::new(lengths[2], silence),
                Delay::new(lengths[3], silence),
            ],
        }
    }

    /// Plays back the oldest sample of every line and records in its place what `mix` makes of
    /// it, given the number of the comb.
    pub fn process<F: Fn(usize, T) -> T>(&mut self, mix: F) -> (delayed: [T; 4])
        requires
            old(self).wf(),
            forall|comb: int| 0 <= comb < 4 ==> (#[trigger] old(self)@[comb]).len() > 0,
            forall|comb: int|
                0 <= comb < 4 ==> mix.requires((comb as usize, (#[trigger] old(self)@[comb])[0])),
        ensures
            final(self).wf(),
            final(self)@.len() == 4,
            forall|comb: int|
                0 <= comb < 4 ==> {
                    &&& #[trigger] delayed@[comb] == old(self)@[comb][0]
                    &&& mix.ensures((comb as usize, delayed@[comb]), final(self)@[comb].last())
                    &&& final(self)@[comb] == old(self)@[comb].drop_first().push(
                        final(self)@[comb].last(),
                    )
                },
    {
        let ghost before = self@;
        assert(self.lines@[0].wf() && self.lines@[1].wf() && self.lines@[2].wf()
            && self.lines@[3].wf());
        assert(before[0].len() > 0 && before[1].len() > 0 && before[2].len() > 0
            && before[3].len() > 0);
        let a = self.lines[0].due();
        let sample = mix(0, a);
        self.lines[0].record(sample);
        let b = self.lines[1].due();
        let sample = mix(1, b);
        self.lines[1].record(sample);
        let c = self.lines[2].due();
        let sample = mix(2, c);
        self.lines[2].record(sample);
        let d = self.lines[3].due();
        let sample = mix(3, d);
        self.lines[3].record(sample);
        let delayed = [a, b, c, d];
        assert forall|comb: int| 0 <= comb < 4 implies {
            &&& #[trigger] delayed@[comb] == before[comb][0]
            &&& mix.ensures((comb as usize, delayed@[comb]), self@[comb].last())
            &&& self@[comb] == before[comb].drop_first().push(self@[comb].last())
        } by {
            assert(comb == 0 || comb == 1 || comb == 2 || comb == 3);
        }
        delayed
    }
}

} // verus!
