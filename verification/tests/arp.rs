use terminal_piano::active_notes::ActiveNotes;
use terminal_piano::arp::{sort_by_pitch, ArpPattern};
use terminal_piano::arpeggiator::{Arpeggiator, IDLE_WAIT};
use terminal_piano::note::Stage;
use terminal_piano::waveform::Waveform;

fn steps(pattern: ArpPattern, n: usize, count: usize) -> Vec<usize> {
    (0..count).map(|i| pattern.note_index(i, n)).collect()
}

#[test]
fn patterns_follow_each_other() {
    assert_eq!(ArpPattern::Up.next(), ArpPattern::Down);
    assert_eq!(ArpPattern::Down.next(), ArpPattern::UpDown);
    assert_eq!(ArpPattern::UpDown.next(), ArpPattern::Up);
}

#[test]
fn patterns_have_names() {
    assert_eq!(ArpPattern::Up.name(), "Up");
    assert_eq!(ArpPattern::Down.name(), "Down");
    assert_eq!(ArpPattern::UpDown.name(), "Up-Down");
}

#[test]
fn patterns_choose_notes() {
    assert_eq!(steps(ArpPattern::Up, 4, 9), vec![0, 1, 2, 3, 0, 1, 2, 3, 0]);
    assert_eq!(steps(ArpPattern::Down, 4, 9), vec![3, 2, 1, 0, 3, 2, 1, 0, 3]);
    assert_eq!(steps(ArpPattern::UpDown, 4, 9), vec![0, 1, 2, 3, 2, 1, 0, 1, 2]);
}

#[test]
fn patterns_of_one_and_two_notes() {
    for pattern in [ArpPattern::Up, ArpPattern::Down, ArpPattern::UpDown] {
        assert_eq!(steps(pattern, 1, 3), vec![0, 0, 0]);
    }
    assert_eq!(steps(ArpPattern::UpDown, 2, 4), vec![0, 1, 0, 1]);
    assert_eq!(ArpPattern::UpDown.note_index(5, 0), 0);
    assert_eq!(ArpPattern::Up.note_index(usize::MAX, 10), usize::MAX % 10);
}

#[test]
fn keys_are_sorted_by_pitch_class() {
    assert_eq!(sort_by_pitch(&vec!['j', 'd', 'g']), vec!['d', 'g', 'j']);
    // keys of the same class stay in the order in which they were held
    assert_eq!(sort_by_pitch(&vec!['k', ';', 'a', 'd']), vec![';', 'd', 'k', 'a']);
    assert_eq!(sort_by_pitch(&vec![]), Vec::<char>::new());
}

fn arpeggiator(keys: &[char]) -> (Arpeggiator, ActiveNotes) {
    let mut notes = ActiveNotes::new();
    let mut arp = Arpeggiator::new(0);
    arp.toggle(&mut notes, 0);
    for key in keys {
        arp.key_down(*key);
    }
    (arp, notes)
}

#[test]
fn beats_play_held_keys_in_turn() {
    let (mut arp, mut notes) = arpeggiator(&['j', 'd', 'g', 'd']);
    assert_eq!(arp.held_notes, vec!['j', 'd', 'g']);
    let mut played = Vec::new();
    for beat in 1..=4 {
        arp.tick(&mut notes, 5, Waveform::Sine, beat);
        played.push(arp.last.unwrap());
    }
    assert_eq!(played, vec!['d', 'g', 'j', 'd']);
    assert_eq!(arp.idx, 4);
    assert_eq!(arp.last_tick, 4);
    // the note before has ended; the first one is still fading and is not struck again
    assert_eq!(notes.collect_pressed(), Vec::<char>::new());
}

#[test]
fn a_beat_ends_the_note_before() {
    let (mut arp, mut notes) = arpeggiator(&['d', 'g']);
    arp.tick(&mut notes, 5, Waveform::Sine, 1);
    assert_eq!(notes.collect_pressed(), vec!['d']);
    arp.tick(&mut notes, 5, Waveform::Sine, 2);
    assert_eq!(notes.collect_pressed(), vec!['g']);
}

#[test]
fn a_new_key_starts_over() {
    let (mut arp, mut notes) = arpeggiator(&['d', 'g']);
    arp.tick(&mut notes, 5, Waveform::Sine, 1);
    arp.key_down('j');
    assert_eq!(arp.idx, 0);
    arp.tick(&mut notes, 5, Waveform::Sine, 2);
    arp.key_down('j');
    assert_eq!(arp.idx, 1);
    arp.next_pattern();
    assert_eq!((arp.idx, arp.pattern), (0, ArpPattern::Down));
}

#[test]
fn the_last_key_ends_the_arpeggio() {
    let (mut arp, mut notes) = arpeggiator(&['d', 'g']);
    arp.tick(&mut notes, 5, Waveform::Sine, 1);
    arp.key_up(&mut notes, 'd');
    assert_eq!(notes.collect_pressed(), vec!['d']);
    assert_eq!(arp.last, Some('d'));
    arp.key_up(&mut notes, 'g');
    assert_eq!(notes.collect_pressed(), Vec::<char>::new());
    assert_eq!(arp.last, None);
    arp.tick(&mut notes, 5, Waveform::Sine, 2);
    assert_eq!((arp.last, arp.last_tick), (None, 2));
}

#[test]
fn switching_off_ends_everything() {
    let (mut arp, mut notes) = arpeggiator(&['d', 'g']);
    arp.tick(&mut notes, 5, Waveform::Sine, 1);
    arp.toggle(&mut notes, 9);
    assert!(!arp.on);
    assert!(arp.held_notes.is_empty());
    assert_eq!((arp.idx, arp.last, arp.last_tick), (0, None, 9));
    assert_eq!(notes.entry(0).1.stage, Stage::Release);
}

#[test]
fn the_tempo_has_limits() {
    let mut arp = Arpeggiator::new(0);
    assert_eq!(arp.bpm, 120);
    arp.faster();
    assert_eq!(arp.bpm, 130);
    for _ in 0..40 {
        arp.faster();
    }
    assert_eq!(arp.bpm, 300);
    for _ in 0..40 {
        arp.slower();
    }
    assert_eq!(arp.bpm, 40);
}

#[test]
fn beats_last_as_long_as_in_floating_point() {
    let mut notes = ActiveNotes::new();
    let mut arp = Arpeggiator::new(0);
    assert_eq!(arp.wait(5), IDLE_WAIT);
    arp.toggle(&mut notes, 1_000);
    for _ in 0..40 {
        arp.slower();
    }
    while arp.bpm < 300 {
        let ms = (60_000.0f32 / arp.bpm as f32) as u64;
        assert_eq!(arp.wait(1_000), ms * 1_000_000);
        arp.faster();
    }
    assert_eq!(arp.wait(1_000), 200_000_000);
    assert_eq!(arp.wait(50_001_000), 150_000_000);
    assert_eq!(arp.wait(900_000_000), 0);
    assert_eq!(arp.wait(0), 200_000_000);
}

#[test]
fn every_round_plays_every_note() {
    for n in 1..=16usize {
        for start in 0..50 {
            for k in 0..n {
                let played = |p: ArpPattern, steps: usize| {
                    (start..start + steps).filter(|i| p.note_index(*i, n) == k).count()
                };
                assert_eq!(played(ArpPattern::Up, n), 1);
                assert_eq!(played(ArpPattern::Down, n), 1);
                if n > 1 {
                    let expected = if k == 0 || k == n - 1 { 1 } else { 2 };
                    assert_eq!(played(ArpPattern::UpDown, 2 * (n - 1)), expected);
                }
            }
        }
    }
}
