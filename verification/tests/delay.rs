use terminal_piano::delay::{comb_delay, comb_gain, Delay, Reverb};

#[test]
fn a_sample_is_heard_after_the_length_of_the_line() {
    let mut line = Delay::new(3, 0);
    let mut heard = Vec::new();
    for n in 1..=8 {
        heard.push(line.process(|_| n));
    }
    assert_eq!(heard, vec![0, 0, 0, 1, 2, 3, 4, 5]);
}

#[test]
fn feedback_repeats_the_echo() {
    let mut line = Delay::new(2, 0.0f32);
    let mut heard = Vec::new();
    for n in 0..7 {
        let input = if n == 0 { 1.0 } else { 0.0 };
        heard.push(line.process(|old| input + old * 0.5));
    }
    assert_eq!(heard, vec![0.0, 0.0, 1.0, 0.0, 0.5, 0.0, 0.25]);
}

#[test]
fn a_line_of_one_sample() {
    let mut line = Delay::new(1, 7);
    assert_eq!(line.process(|_| 8), 7);
    assert_eq!(line.process(|old| old + 1), 8);
    assert_eq!(line.process(|old| old), 9);
}

#[test]
fn combs_run_side_by_side() {
    let mut reverb = Reverb::new([1, 2, 3, 4], 0i64);
    assert_eq!(reverb.process(|comb, _| 10 + comb as i64), [0, 0, 0, 0]);
    assert_eq!(reverb.process(|comb, _| 20 + comb as i64), [10, 0, 0, 0]);
    assert_eq!(reverb.process(|_, old| -old), [20, 11, 0, 0]);
    assert_eq!(reverb.process(|_, old| old), [-20, 21, 12, 0]);
    assert_eq!(reverb.process(|_, old| old), [-20, -11, 22, 13]);
}

#[test]
fn comb_numbers() {
    let delays: Vec<f32> = (0..4).map(|i| comb_delay(i) as f32 / 10.0).collect();
    assert_eq!(delays, vec![29.7, 37.1, 41.1, 43.7]);
    let gains: Vec<f32> = (0..4).map(|i| comb_gain(i) as f32 / 1000.0).collect();
    assert_eq!(gains, vec![0.805, 0.827, 0.783, 0.764]);
}
