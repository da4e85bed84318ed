//! What the keys of the computer keyboard stand for.

use vstd::prelude::*;

use crate::keyboard;
use crate::keyboard::key_to_freq;

verus! {

/// A key of the computer keyboard, as far as the instrument tells keys apart.
#[derive(Clone, Copy, PartialEq, Eq, Structural, Debug)]
pub enum Key {
    Char(char),
    Esc,
    Tab,
    PageUp,
    PageDown,
    Up,
    Down,
    Left,
    Right,
    Other,
}

/// What happened to a key. A repeat comes from a key that stays down.
#[derive(Clone, Copy, PartialEq, Eq, Structural, Debug)]
pub enum KeyKind {
    Press,
    Repeat,
    Release,
}

/// What the instrument is asked to do.
#[derive(Clone, Copy, PartialEq, Eq, Structural, Debug)]
pub enum Command {
    Quit,
    /// Nothing, not even to draw the screen anew.
    Ignore,
    /// Nothing but to draw the screen anew.
    Refresh,
    PedalDown,
    PedalUp,
    TransposeUp,
    TransposeDown,
    ToggleArp,
    NextPattern,
    Faster,
    Slower,
    ToggleDelay,
    LessFeedback,
    MoreFeedback,
    ToggleTremolo,
    SlowerTremolo,
    FasterTremolo,
    ToggleVibrato,
    SlowerVibrato,
    FasterVibrato,
    ToggleRecording,
    PlayOnce,
    PlayLoop,
    NextWaveform,
    LessReverb,
    MoreReverb,
    OctaveDown,
    OctaveUp,
    NextScale,
    NextRoot,
    /// Strike the keys this hard, in ninths.
    Velocity(u8),
    KeyDown(char),
    KeyUp(char),
}

/// What the press of a character key asks for, unless the key is left to the piano.
pub open spec fn character_command(c: char) -> Option<Command> {
    match c {
        '`' => Some(Command::NextPattern),
        'e' => Some(Command::ToggleDelay),
        'v' => Some(Command::ToggleTremolo),
        'b' => Some(Command::SlowerTremolo),
        'n' => Some(Command::FasterTremolo),
        'c' => Some(Command::ToggleVibrato),
        'm' => Some(Command::SlowerVibrato),
        ',' => Some(Command::FasterVibrato),
        'r' => Some(Command::ToggleRecording),
        'p' => Some(Command::PlayOnce),
        'y' => Some(Command::PlayLoop),
        '[' => Some(Command::NextWaveform),
        '-' => Some(Command::LessReverb),
        '=' => Some(Command::MoreReverb),
        'z' => Some(Command::OctaveDown),
        'x' => Some(Command::OctaveUp),
        ']' => Some(Command::NextScale),
        '\\' => Some(Command::NextRoot),
        _ => if '1' <= c && c <= '9' {
            Some(Command::Velocity((c as int - '0' as int) as u8))
        } else {
            None
        },
    }
}

/// What the press of a key asks for, unless the key is left to the piano.
pub open spec fn press_command(key: Key) -> Option<Command> {
    match key {
        Key::Char(c) => character_command(c),
        Key::PageUp => Some(Command::TransposeUp),
        Key::PageDown => Some(Command::TransposeDown),
        Key::Tab => Some(Command::ToggleArp),
        Key::Up => Some(Command::Faster),
        Key::Down => Some(Command::Slower),
        Key::Left => Some(Command::LessFeedback),
        Key::Right => Some(Command::MoreFeedback),
        Key::Esc => None,
        Key::Other => None,
    }
}

/// What an event of the keyboard asks for: `Esc` and `q` quit whatever happened to them, the space
/// bar is the pedal, other keys with a meaning of their own have it when pressed, and what is left
/// goes to the piano keys.
pub open spec fn decoded(key: Key, kind: KeyKind) -> Command {
    if key is Esc || key == Key::Char('q') {
        Command::Quit
    } else if key == Key::Char(' ') {
        match kind {
            KeyKind::Press => Command::PedalDown,
            KeyKind::Repeat => Command::Refresh,
            KeyKind::Release => Command::PedalUp,
        }
    } else if kind is Press && press_command(key) is Some {
        press_command(key)->0
    } else {
        match key {
            Key::Char(c) => if keyboard::is_piano_key(c) {
                match kind {
                    KeyKind::Press => Command::KeyDown(c),
                    KeyKind::Repeat => Command::Refresh,
                    KeyKind::Release => Command::KeyUp(c),
                }
            } else {
                Command::Ignore
            },
            _ => Command::Ignore,
        }
    }
}

/// Looks up what the press of a character key asks for.
fn decode_character(c: char) -> (command: Option<Command>)
    ensures
        command == character_command(c),
{
    match c {
        '`' => Some(Command::NextPattern),
        'e' => Some(Command::ToggleDelay),
        'v' => Some(Command::ToggleTremolo),
        'b' => Some(Command::SlowerTremolo),
        'n' => Some(Command::FasterTremolo),
        'c' => Some(Command::ToggleVibrato),
        'm' => Some(Command::SlowerVibrato),
        ',' => Some(Command::FasterVibrato),
        'r' => Some(Command::ToggleRecording),
        'p' => Some(Command::PlayOnce),
        'y' => Some(Command::PlayLoop),
        '[' => Some(Command::NextWaveform),
        '-' => Some(Command::LessReverb),
        '=' => Some(Command::MoreReverb),
        'z' => Some(Command::OctaveDown),
        'x' => Some(Command::OctaveUp),
        ']' => Some(Command::NextScale),
        '\\' => Some(Command::NextRoot),
        _ => if '1' <= c && c <= '9' {
            Some(Command::Velocity(c as u8 - 48))
        } else {
            None
        },
    }
}

/// Looks up what an event of the keyboard asks for.
pub fn decode(key: Key, kind: KeyKind) -> (command: Command)
    ensures
        command == decoded(key, kind),
{
    match key {
        Key::Esc => Command::Quit,
        Key::Char('q') => Command::Quit,
        Key::Char(' ') => match kind {
            KeyKind::Press => Command::PedalDown,
            KeyKind::Repeat => Command::Refresh,
            KeyKind::Release => Command::PedalUp,
        },
        Key::Char(c) => {
            if kind == KeyKind::Press {
                if let Some(command) = decode_character(c) {
                    return command;
                }
            }
            if key_to_freq(c).is_some() {
                match kind {
                    KeyKind::Press => Command::KeyDown(c),
                    KeyKind::Repeat => Command::Refresh,
                    KeyKind::Release => Command::KeyUp(c),
                }
            } else {
                Command::Ignore
            }
        },
        _ => {
            if kind != KeyKind::Press {
                return Command::Ignore;
            }
            match key {
                Key::PageUp => Command::TransposeUp,
                Key::PageDown => Command::TransposeDown,
                Key::Tab => Command::ToggleArp,
                Key::Up => Command::Faster,
                Key::Down => Command::Slower,
                Key::Left => Command::LessFeedback,
                Key::Right => Command::MoreFeedback,
                _ => Command::Ignore,
            }
        },
    }
}

/// The instrument is left by `Esc` and `q`, and by no other key.
pub proof fn law_only_q_and_esc_quit(key: Key, kind: KeyKind)
    ensures
        decoded(key, kind) is Quit <==> key is Esc || key == Key::Char('q'),
{
}

/// Pressing a piano key plays it, but for `r`, whose press belongs to the recorder. Letting go of a
/// piano key always reaches the piano.
pub proof fn law_piano_keys_play(c: char)
    requires
        keyboard::is_piano_key(c),
    ensures
        c != 'r' ==> decoded(Key::Char(c), KeyKind::Press) == Command::KeyDown(c),
        decoded(Key::Char(c), KeyKind::Release) == Command::KeyUp(c),
{
}

/// Only piano keys are ever played.
pub proof fn law_only_piano_keys_play(key: Key, kind: KeyKind)
    ensures
        decoded(key, kind) matches Command::KeyDown(c) ==> keyboard::is_piano_key(c) && key
            == Key::Char(c) && kind is Press,
        decoded(key, kind) matches Command::KeyUp(c) ==> keyboard::is_piano_key(c) && key
            == Key::Char(c) && kind is Release,
        decoded(key, kind) matches Command::Velocity(level) ==> 1 <= level <= 9,
{
}

/// A key that stays down does nothing more than it did when it went down, unless it quits.
pub proof fn law_repeats_do_nothing(key: Key)
    requires
        !(key is Esc),
        key != Key::Char('q'),
    ensures
        decoded(key, KeyKind::Repeat) is Ignore || decoded(key, KeyKind::Repeat) is Refresh,
{
}

/// Every command has its key, and comes of a press of that key and of nothing else.
#[verifier::spinoff_prover]
#[verifier::rlimit(40)]
pub proof fn law_every_command_has_its_key(key: Key, kind: KeyKind)
    ensures
        decoded(key, kind) is NextPattern <==> key == Key::Char('`') && kind is Press,
        decoded(key, kind) is ToggleDelay <==> key == Key::Char('e') && kind is Press,
        decoded(key, kind) is ToggleTremolo <==> key == Key::Char('v') && kind is Press,
        decoded(key, kind) is SlowerTremolo <==> key == Key::Char('b') && kind is Press,
        decoded(key, kind) is FasterTremolo <==> key == Key::Char('n') && kind is Press,
        decoded(key, kind) is ToggleVibrato <==> key == Key::Char('c') && kind is Press,
        decoded(key, kind) is SlowerVibrato <==> key == Key::Char('m') && kind is Press,
        decoded(key, kind) is FasterVibrato <==> key == Key::Char(',') && kind is Press,
        decoded(key, kind) is ToggleRecording <==> key == Key::Char('r') && kind is Press,
        decoded(key, kind) is PlayOnce <==> key == Key::Char('p') && kind is Press,
        decoded(key, kind) is PlayLoop <==> key == Key::Char('y') && kind is Press,
        decoded(key, kind) is NextWaveform <==> key == Key::Char('[') && kind is Press,
        decoded(key, kind) is LessReverb <==> key == Key::Char('-') && kind is Press,
        decoded(key, kind) is MoreReverb <==> key == Key::Char('=') && kind is Press,
        decoded(key, kind) is OctaveDown <==> key == Key::Char('z') && kind is Press,
        decoded(key, kind) is OctaveUp <==> key == Key::Char('x') && kind is Press,
        decoded(key, kind) is NextScale <==> key == Key::Char(']') && kind is Press,
        decoded(key, kind) is NextRoot <==> key == Key::Char('\\') && kind is Press,
        decoded(key, kind) is TransposeUp <==> key is PageUp && kind is Press,
        decoded(key, kind) is TransposeDown <==> key is PageDown && kind is Press,
        decoded(key, kind) is ToggleArp <==> key is Tab && kind is Press,
        decoded(key, kind) is Faster <==> key is Up && kind is Press,
        decoded(key, kind) is Slower <==> key is Down && kind is Press,
        decoded(key, kind) is LessFeedback <==> key is Left && kind is Press,
        decoded(key, kind) is MoreFeedback <==> key is Right && kind is Press,
        decoded(key, kind) is PedalDown <==> key == Key::Char(' ') && kind is Press,
        decoded(key, kind) is PedalUp <==> key == Key::Char(' ') && kind is Release,
{
}

/// The digits from one to nine, pressed, set the velocity to themselves, and nothing else sets it.
pub proof fn law_digits_set_the_velocity(key: Key, kind: KeyKind, level: u8)
    ensures
        decoded(key, kind) == Command::Velocity(level) <==> kind is Press && 1 <= level <= 9
            && key is Char && key->0 as int == 48 + level,
{
}

/// What is left does nothing. A repeat of the space bar or of a piano key still draws the screen
/// anew; everything else is ignored.
pub proof fn law_what_is_left_is_ignored(key: Key, kind: KeyKind)
    ensures
        decoded(key, kind) is Refresh <==> kind is Repeat && key is Char && (key->0 == ' '
            || keyboard::is_piano_key(key->0)),
        kind is Repeat && !(key is Esc) && key != Key::Char('q') && !(decoded(key, kind) is Refresh)
            ==> decoded(key, kind) is Ignore,
        kind is Release && key is Char && key->0 != 'q' && key->0 != ' ' && !keyboard::is_piano_key(
            key->0,
        ) ==> decoded(key, kind) is Ignore,
        kind is Release && !(key is Char) && !(key is Esc) ==> decoded(key, kind) is Ignore,
        key is Other ==> decoded(key, kind) is Ignore,
{
}

} // verus!
