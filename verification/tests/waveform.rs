use terminal_piano::waveform::Waveform;

const ALL: [Waveform; 4] =
    [Waveform::Sine, Waveform::Triangle, Waveform::Square, Waveform::Sawtooth];

#[test]
fn waveforms_follow_each_other() {
    for i in 0..4 {
        assert_eq!(ALL[i].next(), ALL[(i + 1) % 4]);
    }
}

#[test]
fn waveforms_have_names() {
    assert_eq!(Waveform::Sine.name(), "Sine     — pure, clean");
    assert_eq!(Waveform::Triangle.name(), "Triangle — soft, hollow");
    assert_eq!(Waveform::Square.name(), "Square   — reedy, nasal");
    assert_eq!(Waveform::Sawtooth.name(), "Sawtooth — bright, buzzy");
}

fn strengths(w: Waveform) -> Vec<(u8, f32, u8)> {
    w.partials()
        .iter()
        .map(|p| (p.harmonic, p.thousandths as f32 / 1000.0, p.velocity_power))
        .collect()
}

#[test]
fn partials_have_their_strengths() {
    assert_eq!(strengths(Waveform::Sine), vec![(1, 1.0, 0)]);
    assert_eq!(
        strengths(Waveform::Triangle),
        vec![(1, 1.000, 0), (3, -0.111, 1), (5, 0.040, 1), (7, -0.020, 1)]
    );
    assert_eq!(
        strengths(Waveform::Square),
        vec![(1, 1.000, 0), (3, 0.333, 1), (5, 0.200, 1), (7, 0.143, 1)]
    );
    assert_eq!(
        strengths(Waveform::Sawtooth),
        vec![(1, 1.000, 0), (2, 0.500, 1), (3, 0.333, 1), (4, 0.250, 2), (5, 0.200, 2)]
    );
}

#[test]
fn gains_are_hundredths() {
    let gains: Vec<f32> = ALL.iter().map(|w| w.gain() as f32 / 100.0).collect();
    assert_eq!(gains, vec![1.0, 0.90, 0.60, 0.50]);
}
