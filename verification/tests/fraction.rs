use terminal_piano::fraction::{count_tenths, step_down, step_up, ONE, TENTH};

fn value(fraction: u32) -> f32 {
    fraction as f32 / ONE as f32
}

/// Counts below one that are single-precision numbers, spread over the whole range.
fn samples() -> Vec<u32> {
    let mut state = 12345u32;
    let mut list = vec![0, 1, 2, TENTH - 1, TENTH, TENTH + 1, ONE / 8, ONE / 4, ONE / 2, ONE - 8];
    for _ in 0..20000 {
        state = state.wrapping_mul(1664525).wrapping_add(1013904223);
        let n = state >> (5 + (state & 7));
        if n < ONE && n as f32 as u32 == n {
            list.push(n);
        }
    }
    list
}

#[test]
fn a_tenth_is_that_of_single_precision() {
    assert_eq!(value(TENTH), 0.1);
    assert_eq!(value(ONE), 1.0);
}

#[test]
fn steps_are_rounded_like_single_precision() {
    for n in samples() {
        assert_eq!(value(step_up(n, u32::MAX)), value(n) + 0.1);
        assert_eq!(value(step_down(n, 0)), (value(n) - 0.1).max(0.0));
        assert_eq!(value(step_up(n, 93952408)), (value(n) + 0.1).min(0.7));
        assert_eq!(value(step_down(n, TENTH)), (value(n) - 0.1).max(0.1));
    }
}

#[test]
fn tenths_are_counted_like_in_single_precision() {
    for n in samples() {
        assert_eq!(count_tenths(n), (value(n) * 10.0).round() as u8);
    }
    assert_eq!(count_tenths(0), 0);
    assert_eq!(count_tenths(ONE - 8), 10);
}
