use terminal_piano::active_notes::ActiveNotes;
use terminal_piano::command::{Command, Key, KeyKind};
use terminal_piano::screen::{redraw, ui_lines, write_key, Color, Content, Span};
use terminal_piano::session::{Session, Transport};
use terminal_piano::waveform::Waveform;

fn words(span: &Span) -> String {
    match &span.content {
        Content::Words(words) => words.clone(),
        Content::Letter(letter) => letter.to_string(),
    }
}

fn text(line: &Vec<Span>) -> String {
    line.iter().map(words).collect()
}

fn last_color(line: &Vec<Span>) -> Option<Color> {
    line[line.len() - 1].foreground
}

const STOPPED: Transport = Transport { playing: false, looping: false, called_off: false };

#[test]
fn the_first_screen() {
    let lines = redraw(&Session::new(0), &ActiveNotes::new(), STOPPED);
    let shown: Vec<String> = lines.iter().map(text).collect();
    assert_eq!(
        shown,
        vec![
            "",
            "  Terminal Piano",
            "",
            "  White:  A  S  D  F  G  H  J  K  L  ;  ",
            "  Black:  W     R     T  U  I     O     ",
            "",
            "  Chord:   —",
            "",
            "  Octave:  0  (default)",
            "  Transpose:  0 semitones  (PgUp/PgDn)",
            "  Velocity: █████░░░░  (5/9 — keys 1-9)",
            "  Pedal: up  ",
            "  Waveform: Sine     — pure, clean  ([ to cycle)",
            "  Reverb:   ███░░░░░  (- / = to adjust)",
            "  Delay:    off  fb: ████░░░  (E to enable, \u{25c4}\u{25ba}=feedback)",
            "  Tremolo:  off  4.0 Hz  (V to enable, B/N=rate)",
            "  Vibrato:  off  5.0 Hz  (C to enable, M/,=rate)",
            "  Scale:    C Major  (] = scale, \\ = root)",
            "  Arp:      off  (Tab to enable)",
            "  Tape: 0 events stored  — R=record  P=play once  Y=loop",
            "",
            "  SPACE=pedal  Z/X=octave  PgUp/PgDn=transpose  1-9=vel  [=wave  -/==reverb",
            "  E=delay  V=tremolo  C=vibrato  Tab=arp  R=record  P=play  Y=loop  Q=quit",
        ]
    );
}

#[test]
fn effects_that_are_on_are_coloured() {
    let mut session = Session::new(0);
    let mut notes = ActiveNotes::new();
    let mut transport = STOPPED;
    for c in ['e', 'v', 'c', 'x', ']', '\\', 'n'] {
        session.on_key(&mut notes, &mut transport, Key::Char(c), KeyKind::Press, 0);
    }
    for key in [Key::PageUp, Key::Tab, Key::Up] {
        session.on_key(&mut notes, &mut transport, key, KeyKind::Press, 0);
    }
    session.on_key(&mut notes, &mut transport, Key::Char(' '), KeyKind::Press, 0);
    let lines = redraw(&session, &notes, transport);
    assert_eq!(text(&lines[8]), "  Octave: +1  (Z/X to shift)");
    assert_eq!(text(&lines[9]), "  Transpose: +1 semitones  (PgUp/PgDn)");
    assert_eq!(last_color(&lines[9]), Some(Color::Yellow));
    assert_eq!(text(&lines[11]), "  Pedal: DOWN");
    assert_eq!(
        text(&lines[14]),
        "  Delay:    ON   fb: ████░░░  (E=off, \u{25c4}\u{25ba}=feedback)"
    );
    assert_eq!(last_color(&lines[14]), Some(Color::Yellow));
    assert_eq!(text(&lines[15]), "  Tremolo:  ON   4.5 Hz  (V=off, B/N=rate)");
    assert_eq!(last_color(&lines[15]), Some(Color::Blue));
    assert_eq!(text(&lines[16]), "  Vibrato:  ON   5.0 Hz  (C=off, M/,=rate)");
    assert_eq!(last_color(&lines[16]), Some(Color::Magenta));
    assert_eq!(text(&lines[17]), "  Scale:    C# Natural Minor  (] = scale, \\ = root)");
    assert_eq!(
        text(&lines[18]),
        "  Arp:      ON   130 BPM  Up  (Tab=off, \u{2191}\u{2193}=BPM, `=pattern)"
    );
    assert_eq!(last_color(&lines[18]), Some(Color::Cyan));
}

#[test]
fn shifts_downwards_have_a_sign() {
    let mut session = Session::new(0);
    session.controls.apply(Command::OctaveDown);
    session.controls.apply(Command::TransposeDown);
    session.controls.apply(Command::TransposeDown);
    let lines = redraw(&session, &ActiveNotes::new(), STOPPED);
    assert_eq!(text(&lines[8]), "  Octave: -1  (Z/X to shift)");
    assert_eq!(text(&lines[9]), "  Transpose: -2 semitones  (PgUp/PgDn)");
}

#[test]
fn the_tape_line_tells_what_the_tape_does() {
    let mut session = Session::new(0);
    let tape = |session: &Session, transport: Transport| {
        let lines = redraw(session, &ActiveNotes::new(), transport);
        (text(&lines[19]), lines[19][1].foreground, lines[19][1].background)
    };
    let looping = Transport { playing: true, looping: true, called_off: false };
    let playing = Transport { playing: true, looping: false, called_off: false };
    assert_eq!(
        tape(&session, looping),
        (
            "  Tape: LOOPING  (0 events)  — Y to stop".to_string(),
            Some(Color::Green),
            Some(Color::DarkGreen)
        )
    );
    assert_eq!(
        tape(&session, playing),
        ("  Tape: playing once...  — P to stop".to_string(), Some(Color::Green), None)
    );
    session.tape.toggle(0);
    assert_eq!(
        tape(&session, STOPPED),
        ("  Tape: RECORDING  (0 events)  — R to stop".to_string(), Some(Color::Red), None)
    );
    assert_eq!(
        tape(&session, playing),
        ("  Tape: playing once...  — P to stop".to_string(), Some(Color::Red), None)
    );
}

#[test]
fn chords_are_shown() {
    let session = Session::new(0);
    let lines = ui_lines(&session, STOPPED, &vec!['j', 'd', 'g']);
    assert_eq!(text(&lines[6]), "  Chord:   C maj           ");
    assert_eq!(last_color(&lines[6]), Some(Color::Cyan));
    let same = ui_lines(&session, STOPPED, &vec!['g', 'j', 'd']);
    assert_eq!(text(&same[6]), text(&lines[6]));
}

#[test]
fn keys_are_drawn_by_state() {
    let colors = |span: Span| (words(&span), span.foreground, span.background);
    let pressed = vec!['d', ';'];
    let scale = vec![0, 2];
    assert_eq!(
        colors(write_key('d', &pressed, &scale)),
        ("D".to_string(), Some(Color::Black), Some(Color::Yellow))
    );
    assert_eq!(
        colors(write_key('f', &pressed, &scale)),
        ("F".to_string(), Some(Color::White), Some(Color::DarkGreen))
    );
    assert_eq!(colors(write_key('r', &pressed, &scale)), ("R".to_string(), None, None));
    assert_eq!(colors(write_key('x', &pressed, &scale)), ("X".to_string(), None, None));
    assert_eq!(
        colors(write_key(';', &pressed, &scale)),
        (";".to_string(), Some(Color::Black), Some(Color::Yellow))
    );
}

#[test]
fn the_screen_shows_sounding_notes() {
    let mut notes = ActiveNotes::new();
    notes.strike('d', 5, Waveform::Sine);
    notes.strike('g', 5, Waveform::Sine);
    notes.fade('g');
    let lines = redraw(&Session::new(0), &notes, STOPPED);
    assert_eq!(text(&lines[6]), "  Chord:   C               ");
    // "A", gap, "S", gap, "D" behind the title
    assert_eq!(lines[3][5].background, Some(Color::Yellow));
    assert_eq!(lines[3][9].background, Some(Color::DarkGreen));
}

#[test]
fn white_keys_are_naturals() {
    // on C major without transposition every white key and no black one is lit
    let lines = redraw(&Session::new(0), &ActiveNotes::new(), STOPPED);
    let lit = |line: &Vec<Span>| line.iter().filter(|s| s.background.is_some()).count();
    assert_eq!(lit(&lines[3]), 10);
    assert_eq!(lit(&lines[4]), 0);
}

#[test]
fn green_keys_sound_the_scale() {
    // under a transposition by two semitones the C key sounds a D and the C# key a D#
    let mut session = Session::new(0);
    session.controls.apply(Command::TransposeUp);
    session.controls.apply(Command::TransposeUp);
    let lines = redraw(&session, &ActiveNotes::new(), STOPPED);
    let color = |row: usize, letter: &str| {
        lines[row].iter().find(|s| words(s) == letter).unwrap().background
    };
    assert_eq!(color(3, "D"), Some(Color::DarkGreen));
    assert_eq!(color(4, "R"), None);
    // E sounds F#, and A# sounds C
    assert_eq!(color(3, "G"), None);
    assert_eq!(color(4, "W"), Some(Color::DarkGreen));
}
