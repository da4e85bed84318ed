use terminal_piano::command::Command;
use terminal_piano::controls::Controls;
use terminal_piano::fraction::{count_tenths, ONE};
use terminal_piano::scale::Scale;
use terminal_piano::waveform::Waveform;

fn value(fraction: u32) -> f32 {
    fraction as f32 / ONE as f32
}

fn after(commands: &[Command]) -> Controls {
    let mut controls = Controls::new();
    for command in commands {
        controls.apply(*command);
    }
    controls
}

#[test]
fn the_instrument_starts_with_these_settings() {
    let c = Controls::new();
    assert_eq!((c.octave, c.transpose, c.velocity, c.pedal_down), (0, 0, 5, false));
    assert_eq!((c.waveform, c.scale, c.root_idx), (Waveform::Sine, Scale::Major, 0));
    assert_eq!((value(c.reverb), c.delay_on, value(c.delay_feedback)), (0.3, false, 0.40));
    assert_eq!((c.tremolo_on, c.tremolo_rate), (false, 8));
    assert_eq!((c.vibrato_on, c.vibrato_rate), (false, 10));
}

#[test]
fn settings_stop_at_their_limits() {
    assert_eq!(after(&[Command::OctaveUp; 9]).octave, 3);
    assert_eq!(after(&[Command::OctaveDown; 9]).octave, -3);
    assert_eq!(after(&[Command::TransposeUp; 30]).transpose, 12);
    assert_eq!(after(&[Command::TransposeDown; 30]).transpose, -12);
    assert_eq!(value(after(&[Command::MoreReverb; 30]).reverb), 0.8);
    assert_eq!(value(after(&[Command::LessReverb; 30]).reverb), 0.0);
    assert_eq!(value(after(&[Command::MoreFeedback; 30]).delay_feedback), 0.7);
    assert_eq!(value(after(&[Command::LessFeedback; 30]).delay_feedback), 0.1);
    assert_eq!(after(&[Command::FasterTremolo; 30]).tremolo_rate, 20);
    assert_eq!(after(&[Command::SlowerTremolo; 30]).tremolo_rate, 1);
    assert_eq!(after(&[Command::FasterVibrato; 30]).vibrato_rate, 20);
    assert_eq!(after(&[Command::SlowerVibrato; 30]).vibrato_rate, 1);
}

#[test]
fn steps_up_and_down_undo_each_other() {
    let pairs = [
        (Command::OctaveUp, Command::OctaveDown),
        (Command::TransposeUp, Command::TransposeDown),
        (Command::FasterTremolo, Command::SlowerTremolo),
        (Command::FasterVibrato, Command::SlowerVibrato),
    ];
    for (up, down) in pairs {
        assert_ne!(after(&[up]), Controls::new());
        assert_ne!(after(&[down]), Controls::new());
        assert_eq!(after(&[up, down]), Controls::new());
        assert_eq!(after(&[down, up]), Controls::new());
    }
}

#[test]
fn switches_switch_over() {
    for switch in [Command::ToggleDelay, Command::ToggleTremolo, Command::ToggleVibrato] {
        assert_ne!(after(&[switch]), Controls::new());
        assert_eq!(after(&[switch, switch]), Controls::new());
    }
    assert!(after(&[Command::ToggleDelay]).delay_on);
    assert!(after(&[Command::ToggleTremolo]).tremolo_on);
    assert!(after(&[Command::ToggleVibrato]).vibrato_on);
}

#[test]
fn choices_go_round() {
    assert_eq!(after(&[Command::NextRoot; 11]).root_idx, 11);
    assert_eq!(after(&[Command::NextRoot; 12]), Controls::new());
    assert_eq!(after(&[Command::NextScale; 4]).scale, Scale::Blues);
    assert_eq!(after(&[Command::NextScale; 5]), Controls::new());
    assert_eq!(after(&[Command::NextWaveform; 3]).waveform, Waveform::Sawtooth);
    assert_eq!(after(&[Command::NextWaveform; 4]), Controls::new());
}

#[test]
fn velocity_and_pedal_are_set() {
    assert_eq!(after(&[Command::Velocity(9)]).velocity, 9);
    assert!(after(&[Command::PedalDown]).pedal_down);
    assert!(!after(&[Command::PedalDown, Command::PedalUp]).pedal_down);
    assert_eq!(after(&[Command::Quit, Command::KeyDown('a'), Command::Faster]), Controls::new());
}

/// A walk of steps up and down that is different for every seed.
fn walk(seed: u32, length: usize) -> Vec<bool> {
    let mut state = seed;
    let mut steps = Vec::new();
    for _ in 0..length {
        state = state.wrapping_mul(1664525).wrapping_add(1013904223);
        steps.push(state >> 31 == 1);
    }
    steps
}

#[test]
fn fractions_are_those_of_single_precision() {
    for seed in 0..200 {
        let mut c = Controls::new();
        let mut reverb = 0.3f32;
        let mut feedback = 0.40f32;
        let mut rate = 4.0f32;
        for up in walk(seed, 300) {
            if up {
                reverb = (reverb + 0.1).min(0.8);
                feedback = (feedback + 0.1).min(0.7);
                rate = (rate + 0.5).min(10.0);
                c.apply(Command::MoreReverb);
                c.apply(Command::MoreFeedback);
                c.apply(Command::FasterTremolo);
            } else {
                reverb = (reverb - 0.1).max(0.0);
                feedback = (feedback - 0.1).max(0.1);
                rate = (rate - 0.5).max(0.5);
                c.apply(Command::LessReverb);
                c.apply(Command::LessFeedback);
                c.apply(Command::SlowerTremolo);
            }
            assert_eq!(value(c.reverb), reverb);
            assert_eq!(value(c.delay_feedback), feedback);
            assert_eq!(count_tenths(c.reverb) as usize, (reverb * 10.0).round() as usize);
            assert_eq!(
                count_tenths(c.delay_feedback) as usize,
                (feedback * 10.0).round() as usize
            );
            assert_eq!(c.tremolo_rate as f32 / 2.0, rate);
        }
    }
}

#[test]
fn velocities_are_ninths() {
    for level in 1..=9u8 {
        let velocity = level as f32 / 9.0;
        assert_eq!((velocity * 9.0).round() as u8, level);
    }
}

#[test]
fn three_steps_down_leave_a_trace_of_reverb() {
    let c = after(&[Command::LessReverb; 3]);
    assert_eq!(value(c.reverb), 0.3f32 - 0.1 - 0.1 - 0.1);
    assert!(value(c.reverb) > 0.0);
    assert_eq!(count_tenths(c.reverb), 0);
    assert_eq!(value(after(&[Command::LessReverb; 4]).reverb), 0.0);
}

#[test]
fn steps_of_a_tenth_come_back_to_what_is_shown() {
    let mut c = Controls::new();
    for _ in 0..8 {
        let mut up_down = c;
        up_down.apply(Command::MoreReverb);
        up_down.apply(Command::LessReverb);
        let shown = count_tenths(c.reverb);
        assert_eq!(count_tenths(up_down.reverb), if shown < 8 { shown } else { 7 });
        up_down.apply(Command::MoreFeedback);
        up_down.apply(Command::LessFeedback);
        let shown = count_tenths(c.delay_feedback);
        assert_eq!(count_tenths(up_down.delay_feedback), if shown < 7 { shown } else { 6 });
        c.apply(Command::MoreReverb);
        c.apply(Command::MoreFeedback);
    }
}
