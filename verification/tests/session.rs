use terminal_piano::active_notes::ActiveNotes;
use terminal_piano::arpeggiator::IDLE_WAIT;
use terminal_piano::command::{Key, KeyKind};
use terminal_piano::note::Stage;
use terminal_piano::session::{stop_playback, Reaction, Session, Transport};
use terminal_piano::tape::{apply_event, PlaybackAction, RecordKind};
use terminal_piano::waveform::Waveform;

struct Piano {
    session: Session,
    notes: ActiveNotes,
    transport: Transport,
    now: u64,
}

impl Piano {
    fn new() -> Self {
        Piano {
            session: Session::new(0),
            notes: ActiveNotes::new(),
            transport: Transport::new(),
            now: 0,
        }
    }

    fn event(&mut self, key: Key, kind: KeyKind) -> Reaction {
        self.session.on_key(&mut self.notes, &mut self.transport, key, kind, self.now)
    }

    fn down(&mut self, c: char) -> Reaction {
        self.event(Key::Char(c), KeyKind::Press)
    }

    fn up(&mut self, c: char) -> Reaction {
        self.event(Key::Char(c), KeyKind::Release)
    }

    fn timeout(&mut self) -> bool {
        self.session.on_timeout(&mut self.notes, self.now)
    }

    fn pressed(&self) -> Vec<char> {
        let mut keys = self.notes.collect_pressed();
        keys.sort();
        keys
    }
}

#[test]
fn several_keys_sound_at_once() {
    let mut piano = Piano::new();
    for key in ['d', 'g', 'j'] {
        assert!(matches!(piano.down(key), Reaction::Redraw));
    }
    assert_eq!(piano.pressed(), vec!['d', 'g', 'j']);
    piano.up('g');
    assert_eq!(piano.pressed(), vec!['d', 'j']);
}

#[test]
fn q_and_esc_leave_the_piano() {
    assert!(matches!(Piano::new().down('q'), Reaction::Quit));
    assert!(matches!(Piano::new().event(Key::Esc, KeyKind::Press), Reaction::Quit));
    assert!(matches!(Piano::new().event(Key::Esc, KeyKind::Release), Reaction::Quit));
    assert!(matches!(Piano::new().down('Q'), Reaction::Nothing));
}

#[test]
fn repeats_only_redraw() {
    let mut piano = Piano::new();
    assert!(matches!(piano.event(Key::Char('a'), KeyKind::Repeat), Reaction::Redraw));
    assert!(matches!(piano.event(Key::Char(' '), KeyKind::Repeat), Reaction::Redraw));
    assert!(matches!(piano.event(Key::Char('e'), KeyKind::Repeat), Reaction::Nothing));
    assert!(piano.pressed().is_empty());
    assert!(!piano.session.controls.pedal_down);
}

#[test]
fn new_notes_take_velocity_and_waveform() {
    let mut piano = Piano::new();
    piano.down('a');
    piano.down('9');
    piano.down('[');
    piano.down('d');
    let first = piano.notes.entry(0).1;
    let second = piano.notes.entry(1).1;
    assert_eq!((first.velocity, first.waveform), (5, Waveform::Sine));
    assert_eq!((second.velocity, second.waveform), (9, Waveform::Triangle));
}

#[test]
fn the_pedal_sustains() {
    let mut piano = Piano::new();
    piano.down(' ');
    piano.down('a');
    piano.down('d');
    piano.up('a');
    assert_eq!(piano.pressed(), vec!['a', 'd']);
    piano.up(' ');
    assert_eq!(piano.pressed(), vec!['d']);
    assert!(!piano.session.controls.pedal_down);
}

#[test]
fn a_pedal_that_is_up_lets_nothing_go() {
    let mut piano = Piano::new();
    piano.down(' ');
    piano.down('a');
    piano.up('a');
    piano.session.controls.pedal_down = false;
    piano.up(' ');
    assert_eq!(piano.pressed(), vec!['a']);
}

#[test]
fn recording_and_playing_once() {
    let mut piano = Piano::new();
    assert!(matches!(piano.down('p'), Reaction::Redraw));
    assert_eq!(piano.transport, Transport { playing: false, looping: false, called_off: false });
    piano.now = 1000;
    piano.down('r');
    // the release of the record key is heard by the recorder as well
    piano.now = 1100;
    piano.up('r');
    piano.now = 1500;
    piano.down('a');
    piano.now = 1900;
    piano.up('a');
    piano.down('r');
    assert!(!piano.session.tape.recording);
    assert_eq!(piano.session.tape.recorded.len(), 3);

    let mut playback = match piano.down('p') {
        Reaction::Start(playback) => playback,
        _ => panic!("no playback"),
    };
    assert_eq!(piano.transport, Transport { playing: true, looping: false, called_off: false });
    assert_eq!(playback.step(false), PlaybackAction::Sleep(100));
    match playback.step(false) {
        PlaybackAction::Apply(event) => {
            assert_eq!((event.key, event.kind), ('r', RecordKind::Release));
        }
        _ => panic!("nothing to apply"),
    }
    assert_eq!(playback.step(false), PlaybackAction::Sleep(400));
    match playback.step(false) {
        PlaybackAction::Apply(event) => {
            assert_eq!((event.timestamp, event.key), (500, 'a'));
            assert_eq!((event.kind, event.velocity), (RecordKind::Press, 5));
        }
        _ => panic!("nothing to apply"),
    }
    assert_eq!(playback.step(false), PlaybackAction::Sleep(400));
    assert!(matches!(playback.step(false), PlaybackAction::Apply(_)));
    assert_eq!(playback.step(false), PlaybackAction::Finish);
    piano.transport.finish();
    assert_eq!(piano.transport, Transport { playing: false, looping: false, called_off: false });
}

#[test]
fn the_play_keys_call_off_a_loop() {
    for stop in ['p', 'y'] {
        let mut piano = Piano::new();
        piano.down('r');
        piano.down('a');
        piano.down('r');
        let mut playback = match piano.down('y') {
            Reaction::Start(playback) => playback,
            _ => panic!("no playback"),
        };
        assert_eq!(piano.transport, Transport { playing: true, looping: true, called_off: false });
        playback.step(piano.transport.called_off);
        assert!(matches!(piano.down(stop), Reaction::Redraw));
        assert_eq!(piano.transport, Transport { playing: true, looping: false, called_off: true });
        assert!(piano.pressed().is_empty());
        assert_eq!(playback.step(piano.transport.called_off), PlaybackAction::Finish);
    }
}

#[test]
fn the_play_keys_stop_what_is_played_once() {
    for stop in ['p', 'y'] {
        let mut piano = Piano::new();
        piano.down('r');
        piano.down('a');
        piano.down('r');
        let mut playback = match piano.down('p') {
            Reaction::Start(playback) => playback,
            _ => panic!("no playback"),
        };
        assert_eq!(playback.step(piano.transport.called_off), PlaybackAction::Sleep(0));
        assert!(matches!(piano.down(stop), Reaction::Redraw));
        assert_eq!(playback.step(piano.transport.called_off), PlaybackAction::Finish);
        // until it has come to its end nothing else is started
        assert!(matches!(piano.down('p'), Reaction::Redraw));
        piano.transport.finish();
        assert!(matches!(piano.down('p'), Reaction::Start(_)));
        assert_eq!(piano.transport, Transport { playing: true, looping: false, called_off: false });
    }
}

#[test]
fn stopping_lets_everything_fade() {
    let mut piano = Piano::new();
    piano.down('a');
    piano.transport = Transport { playing: true, looping: true, called_off: false };
    stop_playback(&mut piano.transport, &mut piano.notes);
    assert_eq!(piano.transport, Transport { playing: true, looping: false, called_off: true });
    assert_eq!(piano.notes.entry(0).1.stage, Stage::Release);
}

#[test]
fn the_arpeggiator_takes_over_the_keys() {
    let mut piano = Piano::new();
    assert_eq!(piano.session.wait(77), IDLE_WAIT);
    assert!(!piano.timeout());
    piano.event(Key::Tab, KeyKind::Press);
    assert_eq!(piano.session.wait(0), 500_000_000);
    piano.down('r');
    piano.down('j');
    piano.down('d');
    assert!(piano.pressed().is_empty());
    piano.now = 500_000_000;
    assert!(piano.timeout());
    assert_eq!(piano.pressed(), vec!['d']);
    piano.now += 500_000_000;
    assert!(piano.timeout());
    assert_eq!(piano.pressed(), vec!['j']);
    piano.event(Key::Up, KeyKind::Press);
    assert_eq!(piano.session.arp.bpm, 130);
    piano.event(Key::Down, KeyKind::Press);
    piano.down('`');
    assert_eq!(piano.session.arp.idx, 0);
    piano.up('j');
    piano.up('d');
    assert!(piano.pressed().is_empty());
    assert!(piano.session.tape.recorded.is_empty());
    piano.event(Key::Tab, KeyKind::Press);
    assert!(!piano.session.arp.on);
}

#[test]
fn knobs_leave_notes_alone() {
    let mut piano = Piano::new();
    piano.down('a');
    let before = piano.notes.entry(0);
    for c in ['e', 'v', 'c', '-', '=', 'z', 'x', ']', '\\', '3', '[', 'b', 'n', 'm', ','] {
        piano.down(c);
    }
    for key in [Key::PageUp, Key::PageDown, Key::Left, Key::Right] {
        piano.event(key, KeyKind::Press);
    }
    assert_eq!(piano.notes.entry(0), before);
    assert_eq!(piano.notes.len(), 1);
}

#[test]
fn a_recording_repeats_the_performance() {
    let mut piano = Piano::new();
    piano.down('r');
    for c in ['a', 'd', '7', '[', 'g', 'x', 'a', 'j'] {
        piano.now += 10;
        piano.down(c);
    }
    for c in ['d', 'g', 's'] {
        piano.now += 10;
        piano.up(c);
    }
    piano.down('r');
    let mut again = ActiveNotes::new();
    for event in &piano.session.tape.recorded {
        apply_event(&mut again, *event);
    }
    assert_eq!(again.len(), piano.notes.len());
    for i in 0..again.len() {
        assert_eq!(again.entry(i), piano.notes.entry(i));
    }
    assert_eq!(piano.pressed(), vec!['a', 'j']);
}
