use terminal_piano::text::{bar, decimal, halves, join, padded, signed, to_capital};

#[test]
fn numbers_are_written_in_decimal() {
    for n in [0u64, 7, 10, 99, 100, 1234567890, u64::MAX] {
        assert_eq!(decimal(n), format!("{}", n));
    }
    for n in [0i32, 5, -5, 12, -12, i32::MAX, i32::MIN] {
        assert_eq!(signed(n), format!("{}", n));
    }
}

#[test]
fn written_numbers_read_back() {
    for n in [0u64, 42, 90210] {
        assert_eq!(decimal(n).parse(), Ok(n));
    }
}

#[test]
fn halves_have_one_decimal_place() {
    for n in 0..=255u8 {
        assert_eq!(halves(n), format!("{:.1}", n as f32 / 2.0));
    }
}

#[test]
fn bars_are_filled_from_the_left() {
    assert_eq!(bar(5, 9), "█████░░░░");
    assert_eq!(bar(0, 8), "░░░░░░░░");
    assert_eq!(bar(8, 8), "████████");
    assert_eq!(bar(200, 3), "███");
    assert_eq!(bar(1, 0), "");
}

#[test]
fn short_texts_are_filled_up() {
    for text in ["", "C", "C# maj7", "exactly 16 chars", "longer than sixteen chars"] {
        assert_eq!(padded(text, 16), format!("{:<16}", text));
    }
}

#[test]
fn letters_become_capitals() {
    for c in ['a', 'z', 'm', 'A', ';', '0', '`', '{', 'é'] {
        assert_eq!(to_capital(c), c.to_ascii_uppercase());
    }
}

#[test]
fn texts_are_joined() {
    assert_eq!(join("a", "", "bc"), "abc");
}
