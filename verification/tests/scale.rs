use terminal_piano::scale::{scale_notes, Scale, ROOT_COUNT};

const ALL: [Scale; 5] = [
    Scale::Major,
    Scale::NaturalMinor,
    Scale::PentatonicMajor,
    Scale::PentatonicMinor,
    Scale::Blues,
];

#[test]
fn scales_follow_each_other() {
    for i in 0..5 {
        assert_eq!(ALL[i].next(), ALL[(i + 1) % 5]);
    }
}

#[test]
fn scales_have_names() {
    let names: Vec<&str> = ALL.iter().map(|s| s.name()).collect();
    assert_eq!(
        names,
        vec!["Major", "Natural Minor", "Pentatonic Major", "Pentatonic Minor", "Blues"]
    );
}

#[test]
fn scales_have_intervals() {
    assert_eq!(Scale::Major.intervals(), &[0, 2, 4, 5, 7, 9, 11]);
    assert_eq!(Scale::NaturalMinor.intervals(), &[0, 2, 3, 5, 7, 8, 10]);
    assert_eq!(Scale::PentatonicMajor.intervals(), &[0, 2, 4, 7, 9]);
    assert_eq!(Scale::PentatonicMinor.intervals(), &[0, 3, 5, 7, 10]);
    assert_eq!(Scale::Blues.intervals(), &[0, 3, 5, 6, 7, 10]);
}

#[test]
fn notes_of_a_scale() {
    assert_eq!(ROOT_COUNT, 12);
    assert_eq!(scale_notes(Scale::Major, 0, 0), vec![0, 2, 4, 5, 7, 9, 11]);
    assert_eq!(scale_notes(Scale::Major, 7, 0), vec![7, 9, 11, 0, 2, 4, 6]);
    assert_eq!(scale_notes(Scale::NaturalMinor, 9, 0), vec![9, 11, 0, 2, 4, 5, 7]);
    // two semitones up, the keys that sound C major are those of B flat major
    assert_eq!(scale_notes(Scale::Major, 0, 2), vec![10, 0, 2, 3, 5, 7, 9]);
    assert_eq!(scale_notes(Scale::Blues, 0, -2), vec![2, 5, 7, 8, 9, 0]);
}

#[test]
fn transposing_moves_the_root_of_the_scale() {
    for scale in ALL {
        for root in 0..12usize {
            for t in -12..=12i32 {
                let moved = (root as i32 - t).rem_euclid(12) as usize;
                assert_eq!(scale_notes(scale, root, t), scale_notes(scale, moved, 0));
                assert_eq!(scale_notes(scale, root, t), scale_notes(scale, root, t + 12));
            }
        }
    }
}

#[test]
fn highlights_are_what_is_heard() {
    for scale in ALL {
        for root in 0..12usize {
            let meant = scale_notes(scale, root, 0);
            for t in (-12..=12i32).chain([i32::MIN, i32::MAX]) {
                let shown = scale_notes(scale, root, t);
                for pc in 0..12u8 {
                    let heard = (pc as i64 + t as i64).rem_euclid(12) as u8;
                    assert_eq!(shown.contains(&pc), meant.contains(&heard));
                }
            }
        }
    }
}
