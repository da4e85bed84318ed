//! The four timbres, each a sum of sine waves.

use vstd::prelude::*;

verus! {

/// The timbre of a note.
#[derive(Clone, Copy, PartialEq, Eq, Structural, Debug)]
pub enum Waveform {
    Sine,
    Triangle,
    Square,
    Sawtooth,
}

/// One sine wave of a timbre: it sounds at `harmonic` times the frequency of the note, with an
/// amplitude of `thousandths / 1000` times the velocity raised to the power `velocity_power`.
#[derive(Clone, Copy, PartialEq, Eq, Structural, Debug)]
pub struct Partial {
    pub harmonic: u8,
    pub thousandths: i16,
    pub velocity_power: u8,
}

/// A partial from its three numbers.
pub open spec fn partial(harmonic: u8, thousandths: int, velocity_power: u8) -> Partial {
    Partial { harmonic, thousandths: thousandths as i16, velocity_power }
}

impl Waveform {
    /// The waveform that a press of the waveform key goes to.
    pub open spec fn successor(self) -> Waveform {
        match self {
            Waveform::Sine => Waveform::Triangle,
            Waveform::Triangle => Waveform::Square,
            Waveform::Square => Waveform::Sawtooth,
            Waveform::Sawtooth => Waveform::Sine,
        }
    }

    /// The description that the screen shows.
    pub open spec fn title(self) -> Seq<char> {
        match self {
            Waveform::Sine => "Sine     — pure, clean"@,
            Waveform::Triangle => "Triangle — soft, hollow"@,
            Waveform::Square => "Square   — reedy, nasal"@,
            Waveform::Sawtooth => "Sawtooth — bright, buzzy"@,
        }
    }

    /// The sine waves that make up the timbre.
    pub open spec fn spectrum(self) -> Seq<Partial> {
        match self {
            Waveform::Sine => seq![partial(1, 1000, 0)],
            Waveform::Triangle => seq![
                partial(1, 1000, 0),
                partial(3, -111, 1),
                partial(5, 40, 1),
                partial(7, -20, 1),
            ],
            Waveform::Square => seq![
                partial(1, 1000, 0),
                partial(3, 333, 1),
                partial(5, 200, 1),
                partial(7, 143, 1),
            ],
            Waveform::Sawtooth => seq![
                partial(1, 1000, 0),
                partial(2, 500, 1),
                partial(3, 333, 1),
                partial(4, 250, 2),
                partial(5, 200, 2),
            ],
        }
    }

    /// The loudness of the timbre in hundredths.
    pub open spec fn level(self) -> int {
        match self {
            Waveform::Sine => 100,
            Waveform::Triangle => 90,
            Waveform::Square => 60,
            Waveform::Sawtooth => 50,
        }
    }

    /// The next waveform in the cycle.
    pub fn next(self) -> (following: Self)
        ensures
            following == self.successor(),
    {
        match self {
            Waveform::Sine => Waveform::Triangle,
            Waveform::Triangle => Waveform::Square,
            Waveform::Square => Waveform::Sawtooth,
            Waveform::Sawtooth => Waveform::Sine,
        }
    }

    /// The name of the waveform with a word on how it sounds.
    pub fn name(self) -> (text: &'static str)
        ensures
            text@ == self.title(),
    {
        match self {
            Waveform::Sine => "Sine     — pure, clean",
            Waveform::Triangle => "Triangle — soft, hollow",
            Waveform::Square => "Square   — reedy, nasal",
            Waveform::Sawtooth => "Sawtooth — bright, buzzy",
        }
    }

    /// The sine waves that add up to the waveform, in the order in which they are added.
    pub fn partials(self) -> (list: &'static [Partial])
        ensures
            list@ == self.spectrum(),
    {
        match self {
            Waveform::Sine => &[Partial { harmonic: 1, thousandths: 1000, velocity_power: 0 }],
            Waveform::Triangle => &[
                Partial { harmonic: 1, thousandths: 1000, velocity_power: 0 },
                Partial { harmonic: 3, thousandths: -111, velocity_power: 1 },
                Partial { harmonic: 5, thousandths: 40, velocity_power: 1 },
                Partial { harmonic: 7, thousandths: -20, velocity_power: 1 },
            ],
            Waveform::Square => &[
                Partial { harmonic: 1, thousandths: 1000, velocity_power: 0 },
                Partial { harmonic: 3, thousandths: 333, velocity_power: 1 },
                Partial { harmonic: 5, thousandths: 200, velocity_power: 1 },
                Partial { harmonic: 7, thousandths: 143, velocity_power: 1 },
            ],
            Waveform::Sawtooth => &[
                Partial { harmonic: 1, thousandths: 1000, velocity_power: 0 },
                Partial { harmonic: 2, thousandths: 500, velocity_power: 1 },
                Partial { harmonic: 3, thousandths: 333, velocity_power: 1 },
                Partial { harmonic: 4, thousandths: 250, velocity_power: 2 },
                Partial { harmonic: 5, thousandths: 200, velocity_power: 2 },
            ],
        }
    }

    /// The factor, in hundredths, that the sum of the partials is scaled by.
    pub fn gain(self) -> (hundredths: u32)
        ensures
            hundredths == self.level(),
    {
        match self {
            Waveform::Sine => 100,
            Waveform::Triangle => 90,
            Waveform::Square => 60,
            Waveform::Sawtooth => 50,
        }
    }
}

/// Four steps through the waveforms come back to the start, and no fewer do.
pub proof fn law_waveforms_cycle(w: Waveform)
    ensures
        w.successor().successor().successor().successor() == w,
        w.successor() != w,
        w.successor().successor() != w,
        w.successor().successor().successor() != w,
{
}

/// Every timbre starts with a sine wave at the pitch of the note itself, at full strength whatever
/// the velocity; the others follow in rising pitch, each of them weaker than the first.
pub proof fn law_fundamental_comes_first(w: Waveform, i: int)
    requires
        0 <= i < w.spectrum().len(),
    ensures
        w.spectrum()[0] == partial(1, 1000, 0),
        i > 0 ==> w.spectrum()[i].harmonic > w.spectrum()[i - 1].harmonic,
        i > 0 ==> -1000 < w.spectrum()[i].thousandths < 1000,
{
}

} // verus!
