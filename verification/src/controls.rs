//! The settings of the instrument that are plain numbers and switches.

use vstd::prelude::*;

use crate::command::Command;
use crate::fraction;
use crate::fraction::{step_down, step_up};
use crate::scale::{Scale, ROOT_COUNT};
use crate::waveform::Waveform;

verus! {

pub const MIN_OCTAVE: i32 = -3;

pub const MAX_OCTAVE: i32 = 3;

pub const MIN_TRANSPOSE: i32 = -12;

pub const MAX_TRANSPOSE: i32 = 12;

/// The strongest reverb: 0.8 in single precision.
pub const MAX_REVERB: u32 = 107374184;

/// The limits of the feedback of the delay: 0.1 and 0.7 in single precision.
pub const MIN_FEEDBACK: u32 = 13421773;

pub const MAX_FEEDBACK: u32 = 93952408;

/// The reverb and the feedback that the instrument starts with: 0.3 and 0.4 in single precision.
pub const INITIAL_REVERB: u32 = 40265320;

pub const INITIAL_FEEDBACK: u32 = 53687092;

/// The limits of the rates of tremolo and vibrato, in half hertz.
pub const MIN_RATE: u8 = 1;

pub const MAX_RATE: u8 = 20;

/// The settings: octave shift; transposition in semitones; velocity in ninths; the pedal; the
/// waveform of new notes; reverb as a fraction; the scale to highlight and its root; delay with its
/// feedback as a fraction; tremolo and vibrato with their rates in half hertz.
#[derive(Clone, Copy, PartialEq, Eq, Structural, Debug)]
pub struct Controls {
    pub octave: i32,
    pub transpose: i32,
    pub velocity: u8,
    pub pedal_down: bool,
    pub waveform: Waveform,
    pub reverb: u32,
    pub scale: Scale,
    pub root_idx: usize,
    pub delay_on: bool,
    pub delay_feedback: u32,
    pub tremolo_on: bool,
    pub tremolo_rate: u8,
    pub vibrato_on: bool,
    pub vibrato_rate: u8,
}

/// A number kept within limits.
pub open spec fn clamped(n: int, low: int, high: int) -> int {
    if n < low {
        low
    } else if n > high {
        high
    } else {
        n
    }
}

impl Controls {
    /// Every setting is within its limits, and reverb and feedback are numbers that steps of a tenth
    /// lead to.
    pub open spec fn wf(self) -> bool {
        &&& MIN_OCTAVE <= self.octave <= MAX_OCTAVE
        &&& MIN_TRANSPOSE <= self.transpose <= MAX_TRANSPOSE
        &&& 1 <= self.velocity <= 9
        &&& self.reverb <= MAX_REVERB
        &&& fraction::is_step(self.reverb as int)
        &&& self.root_idx < ROOT_COUNT
        &&& MIN_FEEDBACK <= self.delay_feedback <= MAX_FEEDBACK
        &&& fraction::is_step(self.delay_feedback as int)
        &&& MIN_RATE <= self.tremolo_rate <= MAX_RATE
        &&& MIN_RATE <= self.vibrato_rate <= MAX_RATE
    }

    /// The octave shifted by some octaves.
    pub open spec fn with_octave(self, change: int) -> Controls {
        Controls {
            octave: clamped(
                self.octave + change,
                MIN_OCTAVE as int,
                MAX_OCTAVE as int,
            ) as i32,
            ..self
        }
    }

    /// Transposed by some semitones more.
    pub open spec fn with_transpose(self, change: int) -> Controls {
        Controls {
            transpose: clamped(
                self.transpose + change,
                MIN_TRANSPOSE as int,
                MAX_TRANSPOSE as int,
            ) as i32,
            ..self
        }
    }

    /// With a tenth more reverb.
    pub open spec fn with_more_reverb(self) -> Controls {
        Controls {
            reverb: fraction::stepped_up(self.reverb as int, MAX_REVERB as int) as u32,
            ..self
        }
    }

    /// With a tenth less reverb.
    pub open spec fn with_less_reverb(self) -> Controls {
        Controls { reverb: fraction::stepped_down(self.reverb as int, 0) as u32, ..self }
    }

    /// With a tenth more feedback in the delay.
    pub open spec fn with_more_feedback(self) -> Controls {
        Controls {
            delay_feedback: fraction::stepped_up(
                self.delay_feedback as int,
                MAX_FEEDBACK as int,
            ) as u32,
            ..self
        }
    }

    /// With a tenth less feedback in the delay.
    pub open spec fn with_less_feedback(self) -> Controls {
        Controls {
            delay_feedback: fraction::stepped_down(
                self.delay_feedback as int,
                MIN_FEEDBACK as int,
            ) as u32,
            ..self
        }
    }

    /// With a faster or slower tremolo.
    pub open spec fn with_tremolo(self, change: int) -> Controls {
        Controls {
            tremolo_rate: clamped(
                self.tremolo_rate + change,
                MIN_RATE as int,
                MAX_RATE as int,
            ) as u8,
            ..self
        }
    }

    /// With a faster or slower vibrato.
    pub open spec fn with_vibrato(self, change: int) -> Controls {
        Controls {
            vibrato_rate: clamped(
                self.vibrato_rate + change,
                MIN_RATE as int,
                MAX_RATE as int,
            ) as u8,
            ..self
        }
    }

    /// The settings after a command. Commands that are about something else leave them alone.
    pub open spec fn after(self, command: Command) -> Controls {
        match command {
            Command::PedalDown => Controls { pedal_down: true, ..self },
            Command::PedalUp => Controls { pedal_down: false, ..self },
            Command::TransposeUp => self.with_transpose(1),
            Command::TransposeDown => self.with_transpose(-1),
            Command::ToggleDelay => Controls { delay_on: !self.delay_on, ..self },
            Command::LessFeedback => self.with_less_feedback(),
            Command::MoreFeedback => self.with_more_feedback(),
            Command::ToggleTremolo => Controls { tremolo_on: !self.tremolo_on, ..self },
            Command::SlowerTremolo => self.with_tremolo(-1),
            Command::FasterTremolo => self.with_tremolo(1),
            Command::ToggleVibrato => Controls { vibrato_on: !self.vibrato_on, ..self },
            Command::SlowerVibrato => self.with_vibrato(-1),
            Command::FasterVibrato => self.with_vibrato(1),
            Command::NextWaveform => Controls { waveform: self.waveform.successor(), ..self },
            Command::LessReverb => self.with_less_reverb(),
            Command::MoreReverb => self.with_more_reverb(),
            Command::OctaveDown => self.with_octave(-1),
            Command::OctaveUp => self.with_octave(1),
            Command::NextScale => Controls { scale: self.scale.successor(), ..self },
            Command::NextRoot => Controls {
                root_idx: ((self.root_idx + 1) % ROOT_COUNT as int) as usize,
                ..self
            },
            Command::Velocity(level) => Controls { velocity: level, ..self },
            _ => self,
        }
    }

    /// The settings that the instrument starts with.
    pub open spec fn initial() -> Controls {
        Controls {
            octave: 0,
            transpose: 0,
            velocity: 5,
            pedal_down: false,
            waveform: Waveform::Sine,
            reverb: INITIAL_REVERB,
            scale: Scale::Major,
            root_idx: 0,
            delay_on: false,
            delay_feedback: INITIAL_FEEDBACK,
            tremolo_on: false,
            tremolo_rate: 8,
            vibrato_on: false,
            vibrato_rate: 10,
        }
    }

    /// The settings that the instrument starts with.
    pub fn new() -> (controls: Self)
        ensures
            controls == Controls::initial(),
            controls.wf(),
    {
        proof {
            lemma_limits_are_steps();
        }
        Controls {
            octave: 0,
            transpose: 0,
            velocity: 5,
            pedal_down: false,
            waveform: Waveform::Sine,
            reverb: INITIAL_REVERB,
            scale: Scale::Major,
            root_idx: 0,
            delay_on: false,
            delay_feedback: INITIAL_FEEDBACK,
            tremolo_on: false,
            tremolo_rate: 8,
            vibrato_on: false,
            vibrato_rate: 10,
        }
    }

    /// Carries out a command.
    pub fn apply(&mut self, command: Command)
        requires
            old(self).wf(),
            command matches Command::Velocity(level) ==> 1 <= level <= 9,
        ensures
            *final(self) == old(self).after(command),
            final(self).wf(),
    {
        proof {
            law_controls_stay_in_order(*self, command);
        }
        match command {
            Command::PedalDown => {
                self.pedal_down = true;
            },
            Command::PedalUp => {
                self.pedal_down = false;
            },
            Command::TransposeUp => {
                if self.transpose < MAX_TRANSPOSE {
                    self.transpose = self.transpose + 1;
                }
            },
            Command::TransposeDown => {
                if self.transpose > MIN_TRANSPOSE {
                    self.transpose = self.transpose - 1;
                }
            },
            Command::ToggleDelay => {
                self.delay_on = !self.delay_on;
            },
            Command::LessFeedback => {
                self.delay_feedback = step_down(self.delay_feedback, MIN_FEEDBACK);
            },
            Command::MoreFeedback => {
                self.delay_feedback = step_up(self.delay_feedback, MAX_FEEDBACK);
            },
            Command::ToggleTremolo => {
                self.tremolo_on = !self.tremolo_on;
            },
            Command::SlowerTremolo => {
                if self.tremolo_rate > MIN_RATE {
                    self.tremolo_rate = self.tremolo_rate - 1;
                }
            },
            Command::FasterTremolo => {
                if self.tremolo_rate < MAX_RATE {
                    self.tremolo_rate = self.tremolo_rate + 1;
                }
            },
            Command::ToggleVibrato => {
                self.vibrato_on = !self.vibrato_on;
            },
            Command::SlowerVibrato => {
                if self.vibrato_rate > MIN_RATE {
                    self.vibrato_rate = self.vibrato_rate - 1;
                }
            },
            Command::FasterVibrato => {
                if self.vibrato_rate < MAX_RATE {
                    self.vibrato_rate = self.vibrato_rate + 1;
                }
            },
            Command::NextWaveform => {
                self.waveform = self.waveform.next();
            },
            Command::LessReverb => {
                self.reverb = step_down(self.reverb, 0);
            },
            Command::MoreReverb => {
                self.reverb = step_up(self.reverb, MAX_REVERB);
            },
            Command::OctaveDown => {
                if self.octave > MIN_OCTAVE {
                    self.octave = self.octave - 1;
                }
            },
            Command::OctaveUp => {
                if self.octave < MAX_OCTAVE {
                    self.octave = self.octave + 1;
                }
            },
            Command::NextScale => {
                self.scale = self.scale.next();
            },
            Command::NextRoot => {
                self.root_idx = (self.root_idx + 1) % ROOT_COUNT;
            },
            Command::Velocity(level) => {
                self.velocity = level;
            },
            _ => {},
        }
    }
}

/// Commands keep every setting within its limits.
#[verifier::spinoff_prover]
#[verifier::rlimit(40)]
pub proof fn law_controls_stay_in_order(c: Controls, command: Command)
    requires
        c.wf(),
        command matches Command::Velocity(level) ==> 1 <= level <= 9,
    ensures
        c.after(command).wf(),
{
    law_tenths_go_up_and_down(c);
}

/// Each of the settings that go up and down in whole numbers comes back to where it was after a step
/// up and a step down, unless the step up was stopped by the upper limit.
pub proof fn law_down_undoes_up(c: Controls)
    requires
        c.wf(),
    ensures
        c.octave < MAX_OCTAVE ==> c.after(Command::OctaveUp).after(Command::OctaveDown) == c,
        c.transpose < MAX_TRANSPOSE ==> c.after(Command::TransposeUp).after(Command::TransposeDown)
            == c,
        c.tremolo_rate < MAX_RATE ==> c.after(Command::FasterTremolo).after(Command::SlowerTremolo)
            == c,
        c.vibrato_rate < MAX_RATE ==> c.after(Command::FasterVibrato).after(Command::SlowerVibrato)
            == c,
{
}

/// Likewise after a step down and a step up, unless the step down was stopped by the lower limit.
pub proof fn law_up_undoes_down(c: Controls)
    requires
        c.wf(),
    ensures
        c.octave > MIN_OCTAVE ==> c.after(Command::OctaveDown).after(Command::OctaveUp) == c,
        c.transpose > MIN_TRANSPOSE ==> c.after(Command::TransposeDown).after(Command::TransposeUp)
            == c,
        c.tremolo_rate > MIN_RATE ==> c.after(Command::SlowerTremolo).after(Command::FasterTremolo)
            == c,
        c.vibrato_rate > MIN_RATE ==> c.after(Command::SlowerVibrato).after(Command::FasterVibrato)
            == c,
{
}

/// A step of the reverb or of the feedback changes it by exactly one tenth as it is shown, and
/// touches nothing else, unless it is at its limit; there it stays as it is shown.
#[verifier::spinoff_prover]
#[verifier::rlimit(40)]
pub proof fn law_tenths_go_up_and_down(c: Controls)
    requires
        c.wf(),
    ensures
        ({
            let reverb = fraction::tenths(c.reverb as int);
            let more = c.after(Command::MoreReverb);
            let less = c.after(Command::LessReverb);
            &&& 0 <= reverb <= 8
            &&& more == (Controls { reverb: more.reverb, ..c })
            &&& less == (Controls { reverb: less.reverb, ..c })
            &&& fraction::tenths(more.reverb as int) == clamped(reverb + 1, 0, 8)
            &&& fraction::tenths(less.reverb as int) == clamped(reverb - 1, 0, 8)
            &&& more.wf() && less.wf()
        }),
        ({
            let feedback = fraction::tenths(c.delay_feedback as int);
            let more = c.after(Command::MoreFeedback);
            let less = c.after(Command::LessFeedback);
            &&& 1 <= feedback <= 7
            &&& more == (Controls { delay_feedback: more.delay_feedback, ..c })
            &&& less == (Controls { delay_feedback: less.delay_feedback, ..c })
            &&& fraction::tenths(more.delay_feedback as int) == clamped(feedback + 1, 1, 7)
            &&& fraction::tenths(less.delay_feedback as int) == clamped(feedback - 1, 1, 7)
            &&& more.wf() && less.wf()
        }),
{
    lemma_limits_are_steps();
    fraction::law_steps_lie_near_tenths(c.reverb as int);
    fraction::law_steps_up_lead_to_tenths(c.reverb as int, MAX_REVERB as int);
    fraction::law_steps_down_lead_to_tenths(c.reverb as int, 0);
    fraction::law_steps_lie_near_tenths(fraction::stepped_up(c.reverb as int, MAX_REVERB as int));
    fraction::law_steps_lie_near_tenths(fraction::stepped_down(c.reverb as int, 0));
    let feedback = c.delay_feedback as int;
    fraction::law_steps_lie_near_tenths(feedback);
    fraction::law_steps_up_lead_to_tenths(feedback, MAX_FEEDBACK as int);
    fraction::law_steps_down_lead_to_tenths(feedback, MIN_FEEDBACK as int);
    fraction::law_steps_lie_near_tenths(fraction::stepped_up(feedback, MAX_FEEDBACK as int));
    fraction::law_steps_lie_near_tenths(fraction::stepped_down(feedback, MIN_FEEDBACK as int));
}

/// A step of the reverb or of the feedback up and one down, in either order, come back to what was
/// shown, unless the limit stopped the first of them. In its last binary digits the number can
/// differ.
pub proof fn law_tenths_come_back(c: Controls)
    requires
        c.wf(),
    ensures
        ({
            let reverb = fraction::tenths(c.reverb as int);
            let up_down = c.after(Command::MoreReverb).after(Command::LessReverb);
            let down_up = c.after(Command::LessReverb).after(Command::MoreReverb);
            &&& up_down == (Controls { reverb: up_down.reverb, ..c })
            &&& down_up == (Controls { reverb: down_up.reverb, ..c })
            &&& reverb < 8 ==> fraction::tenths(up_down.reverb as int) == reverb
            &&& reverb > 0 ==> fraction::tenths(down_up.reverb as int) == reverb
        }),
        ({
            let feedback = fraction::tenths(c.delay_feedback as int);
            let up_down = c.after(Command::MoreFeedback).after(Command::LessFeedback);
            let down_up = c.after(Command::LessFeedback).after(Command::MoreFeedback);
            &&& up_down == (Controls { delay_feedback: up_down.delay_feedback, ..c })
            &&& down_up == (Controls { delay_feedback: down_up.delay_feedback, ..c })
            &&& feedback < 7 ==> fraction::tenths(up_down.delay_feedback as int) == feedback
            &&& feedback > 1 ==> fraction::tenths(down_up.delay_feedback as int) == feedback
        }),
{
    law_tenths_go_up_and_down(c);
    law_tenths_go_up_and_down(c.after(Command::MoreReverb));
    law_tenths_go_up_and_down(c.after(Command::LessReverb));
    law_tenths_go_up_and_down(c.after(Command::MoreFeedback));
    law_tenths_go_up_and_down(c.after(Command::LessFeedback));
}

/// The limits and the first values of reverb and feedback are tenths.
proof fn lemma_limits_are_steps()
    ensures
        fraction::is_step(0) && fraction::tenths(0) == 0,
        fraction::is_step(MIN_FEEDBACK as int) && fraction::tenths(MIN_FEEDBACK as int) == 1,
        fraction::is_step(INITIAL_REVERB as int) && fraction::tenths(INITIAL_REVERB as int) == 3,
        fraction::is_step(INITIAL_FEEDBACK as int) && fraction::tenths(INITIAL_FEEDBACK as int)
            == 4,
        fraction::is_step(MAX_FEEDBACK as int) && fraction::tenths(MAX_FEEDBACK as int) == 7,
        fraction::is_step(MAX_REVERB as int) && fraction::tenths(MAX_REVERB as int) == 8,
{
    fraction::law_steps_count_as_tenths(0, 0);
    fraction::law_steps_count_as_tenths(MIN_FEEDBACK as int, 1);
    fraction::law_steps_count_as_tenths(INITIAL_REVERB as int, 3);
    fraction::law_steps_count_as_tenths(INITIAL_FEEDBACK as int, 4);
    fraction::law_steps_count_as_tenths(MAX_FEEDBACK as int, 7);
    fraction::law_steps_count_as_tenths(MAX_REVERB as int, 8);
}

/// At a limit, a step beyond it does nothing.
pub proof fn law_limits_hold(c: Controls)
    requires
        c.wf(),
    ensures
        c.octave == MAX_OCTAVE ==> c.after(Command::OctaveUp) == c,
        c.octave == MIN_OCTAVE ==> c.after(Command::OctaveDown) == c,
        c.transpose == MAX_TRANSPOSE ==> c.after(Command::TransposeUp) == c,
        c.transpose == MIN_TRANSPOSE ==> c.after(Command::TransposeDown) == c,
        c.reverb == MAX_REVERB ==> c.after(Command::MoreReverb) == c,
        c.reverb == 0 ==> c.after(Command::LessReverb) == c,
        c.delay_feedback == MAX_FEEDBACK ==> c.after(Command::MoreFeedback) == c,
        c.delay_feedback == MIN_FEEDBACK ==> c.after(Command::LessFeedback) == c,
        c.tremolo_rate == MAX_RATE ==> c.after(Command::FasterTremolo) == c,
        c.tremolo_rate == MIN_RATE ==> c.after(Command::SlowerTremolo) == c,
        c.vibrato_rate == MAX_RATE ==> c.after(Command::FasterVibrato) == c,
        c.vibrato_rate == MIN_RATE ==> c.after(Command::SlowerVibrato) == c,
{
    lemma_limits_are_steps();
    fraction::law_steps_up_lead_to_tenths(c.reverb as int, MAX_REVERB as int);
    fraction::law_steps_down_lead_to_tenths(c.reverb as int, 0);
    fraction::law_steps_up_lead_to_tenths(c.delay_feedback as int, MAX_FEEDBACK as int);
    fraction::law_steps_down_lead_to_tenths(c.delay_feedback as int, MIN_FEEDBACK as int);
}

/// Switching an effect twice leaves it as it was.
pub proof fn law_switches_are_their_own_inverse(c: Controls)
    ensures
        c.after(Command::ToggleDelay).after(Command::ToggleDelay) == c,
        c.after(Command::ToggleTremolo).after(Command::ToggleTremolo) == c,
        c.after(Command::ToggleVibrato).after(Command::ToggleVibrato) == c,
{
}

/// The settings after going on to the next root a number of times.
pub open spec fn after_roots(c: Controls, times: nat) -> Controls
    decreases times,
{
    if times == 0 {
        c
    } else {
        after_roots(c, (times - 1) as nat).after(Command::NextRoot)
    }
}

/// Going on to the next root goes through all twelve in turn.
pub proof fn law_roots_cycle(c: Controls, times: nat)
    requires
        c.wf(),
    ensures
        after_roots(c, times) == (Controls {
            root_idx: ((c.root_idx + times) % 12) as usize,
            ..c
        }),
        after_roots(c, 12) == c,
{
    lemma_roots(c, times);
    lemma_roots(c, 12);
}

proof fn lemma_roots(c: Controls, times: nat)
    requires
        c.root_idx < ROOT_COUNT,
    ensures
        after_roots(c, times) == (Controls {
            root_idx: ((c.root_idx + times) % 12) as usize,
            ..c
        }),
    decreases times,
{
    if times > 0 {
        let before = c.root_idx + times - 1;
        lemma_roots(c, (times - 1) as nat);
        vstd::arithmetic::div_mod::lemma_add_mod_noop(before, 1, 12);
        vstd::arithmetic::div_mod::lemma_add_mod_noop(before % 12, 1, 12);
        assert((before % 12 + 1) % 12 == (c.root_idx + times) % 12);
    } else {
        vstd::arithmetic::div_mod::lemma_small_mod(c.root_idx as nat, 12);
    }
}

/// Every setting has its own commands, and no other command changes it.
pub proof fn law_settings_have_their_own_commands(c: Controls, command: Command)
    ensures
        !(command is OctaveUp) && !(command is OctaveDown) ==> c.after(command).octave == c.octave,
        !(command is TransposeUp) && !(command is TransposeDown) ==> c.after(command).transpose == c.transpose,
        !(command is Velocity) ==> c.after(command).velocity == c.velocity,
        !(command is PedalDown) && !(command is PedalUp) ==> c.after(command).pedal_down == c.pedal_down,
        !(command is NextWaveform) ==> c.after(command).waveform == c.waveform,
        !(command is MoreReverb) && !(command is LessReverb) ==> c.after(command).reverb == c.reverb,
        !(command is NextScale) ==> c.after(command).scale == c.scale,
        !(command is NextRoot) ==> c.after(command).root_idx == c.root_idx,
        !(command is ToggleDelay) ==> c.after(command).delay_on == c.delay_on,
        !(command is MoreFeedback) && !(command is LessFeedback) ==> c.after(command).delay_feedback == c.delay_feedback,
        !(command is ToggleTremolo) ==> c.after(command).tremolo_on == c.tremolo_on,
        !(command is FasterTremolo) && !(command is SlowerTremolo) ==> c.after(command).tremolo_rate == c.tremolo_rate,
        !(command is ToggleVibrato) ==> c.after(command).vibrato_on == c.vibrato_on,
        !(command is FasterVibrato) && !(command is SlowerVibrato) ==> c.after(command).vibrato_rate == c.vibrato_rate,
{
}

/// The velocity becomes what it is set to, whatever it was before, be it higher or lower.
pub proof fn law_velocity_is_what_it_is_set_to(c: Controls, level: u8)
    ensures
        c.after(Command::Velocity(level)).velocity == level,
        c.after(Command::Velocity(level)) == (Controls { velocity: level, ..c }),
{
}

/// Octave, transposition and the two rates go up and down by one, between -3 and 3 octaves, -12 and
/// 12 semitones, and 1 and 20 half hertz.
pub proof fn law_knobs_go_by_single_steps(c: Controls)
    requires
        c.wf(),
    ensures
        c.octave < 3 ==> c.after(Command::OctaveUp).octave == c.octave + 1,
        c.octave == 3 ==> c.after(Command::OctaveUp).octave == 3,
        c.octave > -3 ==> c.after(Command::OctaveDown).octave == c.octave - 1,
        c.octave == -3 ==> c.after(Command::OctaveDown).octave == -3,
        c.transpose < 12 ==> c.after(Command::TransposeUp).transpose == c.transpose + 1,
        c.transpose == 12 ==> c.after(Command::TransposeUp).transpose == 12,
        c.transpose > -12 ==> c.after(Command::TransposeDown).transpose == c.transpose - 1,
        c.transpose == -12 ==> c.after(Command::TransposeDown).transpose == -12,
        c.tremolo_rate < 20 ==> c.after(Command::FasterTremolo).tremolo_rate == c.tremolo_rate + 1,
        c.tremolo_rate == 20 ==> c.after(Command::FasterTremolo).tremolo_rate == 20,
        c.tremolo_rate > 1 ==> c.after(Command::SlowerTremolo).tremolo_rate == c.tremolo_rate - 1,
        c.tremolo_rate == 1 ==> c.after(Command::SlowerTremolo).tremolo_rate == 1,
        c.vibrato_rate < 20 ==> c.after(Command::FasterVibrato).vibrato_rate == c.vibrato_rate + 1,
        c.vibrato_rate == 20 ==> c.after(Command::FasterVibrato).vibrato_rate == 20,
        c.vibrato_rate > 1 ==> c.after(Command::SlowerVibrato).vibrato_rate == c.vibrato_rate - 1,
        c.vibrato_rate == 1 ==> c.after(Command::SlowerVibrato).vibrato_rate == 1,
{
}

/// Reverb and feedback go by steps of a tenth in single precision, from 0 to 0.8 and from 0.1 to
/// 0.7.
pub proof fn law_reverb_and_feedback_go_by_tenths(c: Controls)
    requires
        c.wf(),
    ensures
        c.after(Command::MoreReverb).reverb as int == fraction::stepped_up(
            c.reverb as int,
            107374184,
        ),
        c.after(Command::LessReverb).reverb as int == fraction::stepped_down(c.reverb as int, 0),
        c.after(Command::MoreFeedback).delay_feedback as int == fraction::stepped_up(
            c.delay_feedback as int,
            93952408,
        ),
        c.after(Command::LessFeedback).delay_feedback as int == fraction::stepped_down(
            c.delay_feedback as int,
            13421773,
        ),
{
    lemma_limits_are_steps();
    fraction::law_steps_up_lead_to_tenths(c.reverb as int, MAX_REVERB as int);
    fraction::law_steps_lie_near_tenths(c.reverb as int);
    fraction::law_steps_lie_near_tenths(fraction::stepped_up(c.reverb as int, MAX_REVERB as int));
    fraction::law_steps_down_lead_to_tenths(c.reverb as int, 0);
    fraction::law_steps_lie_near_tenths(fraction::stepped_down(c.reverb as int, 0));
    let feedback = c.delay_feedback as int;
    fraction::law_steps_lie_near_tenths(feedback);
    fraction::law_steps_up_lead_to_tenths(feedback, MAX_FEEDBACK as int);
    fraction::law_steps_lie_near_tenths(fraction::stepped_up(feedback, MAX_FEEDBACK as int));
    fraction::law_steps_down_lead_to_tenths(feedback, MIN_FEEDBACK as int);
    fraction::law_steps_lie_near_tenths(fraction::stepped_down(feedback, MIN_FEEDBACK as int));
}

/// Switches turn over, the pedal goes where it is told, and what is chosen from a list goes on to
/// the next in it, from the last back to the first.
pub proof fn law_switches_and_choices(c: Controls)
    requires
        c.wf(),
    ensures
        c.after(Command::ToggleDelay).delay_on == !c.delay_on,
        c.after(Command::ToggleTremolo).tremolo_on == !c.tremolo_on,
        c.after(Command::ToggleVibrato).vibrato_on == !c.vibrato_on,
        c.after(Command::PedalDown).pedal_down,
        !c.after(Command::PedalUp).pedal_down,
        c.root_idx < 11 ==> c.after(Command::NextRoot).root_idx == c.root_idx + 1,
        c.root_idx == 11 ==> c.after(Command::NextRoot).root_idx == 0,
        c.after(Command::NextWaveform).waveform == match c.waveform {
            Waveform::Sine => Waveform::Triangle,
            Waveform::Triangle => Waveform::Square,
            Waveform::Square => Waveform::Sawtooth,
            Waveform::Sawtooth => Waveform::Sine,
        },
        c.after(Command::NextScale).scale == match c.scale {
            Scale::Major => Scale::NaturalMinor,
            Scale::NaturalMinor => Scale::PentatonicMajor,
            Scale::PentatonicMajor => Scale::PentatonicMinor,
            Scale::PentatonicMinor => Scale::Blues,
            Scale::Blues => Scale::Major,
        },
{
}

} // verus!
