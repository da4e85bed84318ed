use terminal_piano::command::{decode, Command, Key, KeyKind};

fn press(c: char) -> Command {
    decode(Key::Char(c), KeyKind::Press)
}

#[test]
fn quitting_keys_quit_however_they_move() {
    for kind in [KeyKind::Press, KeyKind::Repeat, KeyKind::Release] {
        assert_eq!(decode(Key::Esc, kind), Command::Quit);
        assert_eq!(decode(Key::Char('q'), kind), Command::Quit);
        assert_ne!(decode(Key::Char('Q'), kind), Command::Quit);
    }
}

#[test]
fn the_space_bar_is_the_pedal() {
    assert_eq!(decode(Key::Char(' '), KeyKind::Press), Command::PedalDown);
    assert_eq!(decode(Key::Char(' '), KeyKind::Repeat), Command::Refresh);
    assert_eq!(decode(Key::Char(' '), KeyKind::Release), Command::PedalUp);
}

#[test]
fn presses_have_their_meaning() {
    let meanings = [
        ('`', Command::NextPattern),
        ('e', Command::ToggleDelay),
        ('v', Command::ToggleTremolo),
        ('b', Command::SlowerTremolo),
        ('n', Command::FasterTremolo),
        ('c', Command::ToggleVibrato),
        ('m', Command::SlowerVibrato),
        (',', Command::FasterVibrato),
        ('r', Command::ToggleRecording),
        ('p', Command::PlayOnce),
        ('y', Command::PlayLoop),
        ('[', Command::NextWaveform),
        ('-', Command::LessReverb),
        ('=', Command::MoreReverb),
        ('z', Command::OctaveDown),
        ('x', Command::OctaveUp),
        (']', Command::NextScale),
        ('\\', Command::NextRoot),
    ];
    for (c, command) in meanings {
        assert_eq!(press(c), command);
    }
    let keys = [
        (Key::PageUp, Command::TransposeUp),
        (Key::PageDown, Command::TransposeDown),
        (Key::Tab, Command::ToggleArp),
        (Key::Up, Command::Faster),
        (Key::Down, Command::Slower),
        (Key::Left, Command::LessFeedback),
        (Key::Right, Command::MoreFeedback),
        (Key::Other, Command::Ignore),
    ];
    for (key, command) in keys {
        assert_eq!(decode(key, KeyKind::Press), command);
        assert_eq!(decode(key, KeyKind::Repeat), Command::Ignore);
        assert_eq!(decode(key, KeyKind::Release), Command::Ignore);
    }
}

#[test]
fn digits_set_the_velocity() {
    for level in 1..=9u8 {
        assert_eq!(press((b'0' + level) as char), Command::Velocity(level));
    }
    assert_eq!(press('0'), Command::Ignore);
}

#[test]
fn piano_keys_go_down_and_up() {
    for c in ['a', 'w', 's', 'd', 'f', 't', 'g', 'h', 'u', 'j', 'i', 'k', 'o', 'l', ';'] {
        assert_eq!(press(c), Command::KeyDown(c));
        assert_eq!(decode(Key::Char(c), KeyKind::Repeat), Command::Refresh);
        assert_eq!(decode(Key::Char(c), KeyKind::Release), Command::KeyUp(c));
    }
}

#[test]
fn the_press_of_r_records_and_its_release_is_a_key_up() {
    assert_eq!(press('r'), Command::ToggleRecording);
    assert_eq!(decode(Key::Char('r'), KeyKind::Repeat), Command::Refresh);
    assert_eq!(decode(Key::Char('r'), KeyKind::Release), Command::KeyUp('r'));
}

#[test]
fn releases_of_other_keys_are_ignored() {
    for c in ['e', 'p', 'y', '1', 'A', '?', '0'] {
        assert_eq!(decode(Key::Char(c), KeyKind::Release), Command::Ignore);
        assert_eq!(decode(Key::Char(c), KeyKind::Repeat), Command::Ignore);
    }
    assert_eq!(press('A'), Command::Ignore);
}
