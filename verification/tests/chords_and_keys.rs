use music_analyzer::chords::{chord_hue, chord_root_index, format_chord_display};
use music_analyzer::keys::{estimate_key_timeline, key_index_to_hue, score_keys, TimedChord};

#[test]
fn root_index_of_natural_and_altered_roots() {
    assert_eq!(chord_root_index("C"), Some(0));
    assert_eq!(chord_root_index("F#"), Some(6));
    assert_eq!(chord_root_index("Bb:maj7"), Some(10));
    assert_eq!(chord_root_index("Am"), Some(9));
    assert_eq!(chord_root_index("G:min"), Some(7));
}

#[test]
fn root_index_wraps_around_the_octave() {
    assert_eq!(chord_root_index("Cb"), Some(11));
    assert_eq!(chord_root_index("B#"), Some(0));
}

#[test]
fn root_index_of_no_chord_is_none() {
    assert_eq!(chord_root_index("N"), None);
    assert_eq!(chord_root_index("N/A"), None);
    assert_eq!(chord_root_index(""), None);
    assert_eq!(chord_root_index("   "), None);
    assert_eq!(chord_root_index(" N "), None);
    assert_eq!(chord_root_index("X:maj"), None);
    assert_eq!(chord_root_index("H"), None);
}

#[test]
fn root_index_ignores_surrounding_white_space() {
    assert_eq!(chord_root_index("  D:min\t"), Some(2));
    assert_eq!(chord_root_index("\u{3000}Eb\n"), Some(3));
}

#[test]
fn hue_by_root_letter() {
    assert_eq!(chord_hue("C"), 0);
    assert_eq!(chord_hue("D:min"), 40);
    assert_eq!(chord_hue("E"), 70);
    assert_eq!(chord_hue("F#"), 130);
    assert_eq!(chord_hue("G7"), 180);
    assert_eq!(chord_hue("Am"), 240);
    assert_eq!(chord_hue("Bb"), 300);
}

#[test]
fn hue_of_no_chord_or_unknown_letter() {
    assert_eq!(chord_hue("N"), 220);
    assert_eq!(chord_hue("N/A"), 220);
    assert_eq!(chord_hue(""), 220);
    assert_eq!(chord_hue("X"), 220);
    assert_eq!(chord_hue(" E "), 70);
}

#[test]
fn display_of_minor_chords() {
    assert_eq!(format_chord_display("A:min"), "Am");
    assert_eq!(format_chord_display("Am7"), "Am");
    assert_eq!(format_chord_display("C:m"), "Cm");
    assert_eq!(format_chord_display("C:min7"), "Cm");
    assert_eq!(format_chord_display("F#m"), "F#m");
    assert_eq!(format_chord_display("Ebmin"), "Ebm");
}

#[test]
fn display_of_major_chords() {
    assert_eq!(format_chord_display("F#:maj"), "F#");
    assert_eq!(format_chord_display("Bb"), "Bb");
    assert_eq!(format_chord_display("Cmaj7"), "C");
    assert_eq!(format_chord_display("C:maj"), "C");
    assert_eq!(format_chord_display("G:7"), "G");
    assert_eq!(format_chord_display(" D "), "D");
}

#[test]
fn display_of_no_chord_is_empty() {
    assert_eq!(format_chord_display("N"), "");
    assert_eq!(format_chord_display("N/A"), "");
    assert_eq!(format_chord_display(""), "");
    assert_eq!(format_chord_display("X:min"), "");
    assert_eq!(format_chord_display("c:min"), "");
}

#[test]
fn no_roots_give_c_major() {
    assert_eq!(score_keys(&[]), 0);
    assert_eq!(score_keys(&["N", "X", ""]), 0);
}

#[test]
fn first_best_key_wins() {
    // C, F and G fit C major and C minor alike: C major comes first.
    assert_eq!(score_keys(&["C", "F", "G"]), 0);
    // A lone C# first fits C# major.
    assert_eq!(score_keys(&["C#"]), 1);
    // A lone Eb first fits C minor.
    assert_eq!(score_keys(&["Eb"]), 12);
    // C and Eb together fit C minor better than C major.
    assert_eq!(score_keys(&["C", "Eb", "N"]), 12);
}

#[test]
fn key_hues_follow_circle_of_fifths() {
    assert_eq!(key_index_to_hue(0), 0);
    assert_eq!(key_index_to_hue(7), 12);
    assert_eq!(key_index_to_hue(2), 24);
    assert_eq!(key_index_to_hue(1), 84);
    assert_eq!(key_index_to_hue(5), 132);
    assert_eq!(key_index_to_hue(12), 200);
    assert_eq!(key_index_to_hue(19), 212);
    assert_eq!(key_index_to_hue(17), 332);
    assert_eq!(key_index_to_hue(23), 260);
}

#[test]
fn key_hues_of_fifth_apart_keys_are_twelve_degrees_apart() {
    for root in 0u8..12 {
        let up = (root + 7) % 12;
        assert_eq!(key_index_to_hue(up), (key_index_to_hue(root) + 12) % 144);
        assert_eq!(key_index_to_hue(12 + up), 200 + (key_index_to_hue(12 + root) - 200 + 12) % 144);
    }
}

fn chord(has_start: bool, label: Option<&str>) -> TimedChord {
    TimedChord { has_start, label: label.map(|l| l.to_string()) }
}

#[test]
fn timeline_of_nothing_is_empty() {
    assert_eq!(estimate_key_timeline(&[]), Vec::<(usize, u16)>::new());
}

#[test]
fn timeline_of_a_single_key_has_one_entry() {
    let chords = vec![chord(true, Some("C")), chord(true, Some("F")), chord(true, Some("G"))];
    assert_eq!(estimate_key_timeline(&chords), vec![(0, 0)]);
}

#[test]
fn timeline_skips_chords_without_start() {
    let chords = vec![chord(false, Some("C")), chord(true, Some("C")), chord(true, None)];
    assert_eq!(estimate_key_timeline(&chords), vec![(1, 0)]);
}

#[test]
fn timeline_records_only_key_changes() {
    let mut chords = Vec::new();
    for _ in 0..10 {
        chords.push(chord(true, Some("C")));
    }
    for _ in 0..10 {
        chords.push(chord(true, Some("Eb")));
    }
    // From chord 2 on the window reaches an Eb, which makes C minor win.
    assert_eq!(estimate_key_timeline(&chords), vec![(0, 0), (2, 200)]);
}
