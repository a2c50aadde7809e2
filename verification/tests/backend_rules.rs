use music_analyzer::clock::now_timestamp;
use music_analyzer::overrides::{base_label, rebuild_overrides, HistoryEntry, SegmentLabel, SegmentOverrides};
use music_analyzer::stems::StemAvailability;
use music_analyzer::tracks::{
    audio_file_candidates, audio_file_stem, validate_stem_track, localized_json_file, overrides_file, sort_stems,
    track_json_file,
};

fn s(x: &str) -> String {
    x.to_string()
}

fn labels(o: &SegmentOverrides) -> Vec<(String, String)> {
    let mut v: Vec<(String, String)> =
        o.current_overrides.iter().map(|e| (e.key.clone(), e.label.clone())).collect();
    v.sort();
    v
}

#[test]
fn audio_stems_of_file_names() {
    assert_eq!(audio_file_stem("song.mp3"), Some(s("song")));
    assert_eq!(audio_file_stem("Song.MP3"), Some(s("Song")));
    assert_eq!(audio_file_stem("a.b.flac"), Some(s("a.b")));
    assert_eq!(audio_file_stem("take.Wav"), Some(s("take")));
    assert_eq!(audio_file_stem("x.ogg"), Some(s("x")));
    assert_eq!(audio_file_stem("track.M4A"), Some(s("track")));
    assert_eq!(audio_file_stem("ユカリ戦.mp3"), Some(s("ユカリ戦")));
    assert_eq!(audio_file_stem(".mp3"), Some(s("")));
}

#[test]
fn non_audio_file_names_have_no_stem() {
    assert_eq!(audio_file_stem("notes.txt"), None);
    assert_eq!(audio_file_stem("ユカリ戦 copy.json"), None);
    assert_eq!(audio_file_stem("mp3"), None);
    assert_eq!(audio_file_stem(""), None);
}

#[test]
fn candidate_file_names() {
    assert_eq!(
        audio_file_candidates("vocals"),
        vec![s("vocals.mp3"), s("vocals.flac"), s("vocals.wav"), s("vocals.ogg"), s("vocals.m4a")]
    );
    assert_eq!(track_json_file("song"), "song.json");
    assert_eq!(localized_json_file("song"), "song_ja.json");
    assert_eq!(overrides_file("song"), "song_overrides.json");
}

#[test]
fn stem_track_names_are_validated() {
    assert_eq!(validate_stem_track("vocals"), Ok(()));
    assert_eq!(validate_stem_track("drums"), Ok(()));
    assert_eq!(validate_stem_track("bass"), Ok(()));
    assert_eq!(validate_stem_track("other"), Ok(()));
    assert_eq!(
        validate_stem_track("guitar"),
        Err(s("Invalid track: guitar. Must be one of [\"vocals\", \"drums\", \"bass\", \"other\"]"))
    );
    assert!(validate_stem_track("Vocals").is_err());
}

#[test]
fn stems_are_sorted_by_bytes() {
    let stems = vec![s("b"), s("ユカリ戦 copy"), s("a"), s("ユカリ戦"), s("B"), s("a")];
    assert_eq!(sort_stems(stems), vec![s("B"), s("a"), s("a"), s("b"), s("ユカリ戦"), s("ユカリ戦 copy")]);
    assert_eq!(sort_stems(vec![]), Vec::<String>::new());
}

#[test]
fn stem_availability_flags() {
    let none = StemAvailability { vocals: false, drums: false, bass: false, other: false };
    let some = StemAvailability { vocals: false, drums: true, bass: false, other: false };
    let all = StemAvailability { vocals: true, drums: true, bass: true, other: true };
    assert!(!none.any_available() && !none.all_available());
    assert!(some.any_available() && !some.all_available());
    assert!(all.any_available() && all.all_available());
}

#[test]
fn fresh_overrides_are_empty() {
    let o = SegmentOverrides::new(s("song"));
    assert_eq!(o.stem, "song");
    assert_eq!(o.updated_at, "");
    assert!(o.history.is_empty());
    assert!(o.current_overrides.is_empty());
    assert_eq!(o.override_label(0), None);
}

#[test]
fn recording_changes_puts_labels_in_force() {
    let mut o = SegmentOverrides::new(s("song"));
    o.record_label_change(s("song"), 2, s("verse"), s("chorus"), s("100"), s("101"));
    o.record_label_change(s("song"), -3, s("intro"), s("solo"), s("102"), s("103"));
    o.record_label_change(s("song"), 2, s("chorus"), s("bridge"), s("104"), s("105"));
    assert_eq!(o.updated_at, "104");
    assert_eq!(o.history.len(), 3);
    assert_eq!(o.history[2].timestamp, "105");
    assert_eq!(o.history[2].old_label, "chorus");
    assert_eq!(o.override_label(2), Some(s("bridge")));
    assert_eq!(o.override_label(-3), Some(s("solo")));
    assert_eq!(o.override_label(3), None);
    assert_eq!(labels(&o), vec![(s("-3"), s("solo")), (s("2"), s("bridge"))]);
}

#[test]
fn undo_after_record_restores_labels() {
    let mut o = SegmentOverrides::new(s("song"));
    o.record_label_change(s("song"), 1, s("verse"), s("chorus"), s("10"), s("10"));
    let before = labels(&o);
    o.record_label_change(s("song"), 1, s("chorus"), s("bridge"), s("11"), s("11"));
    assert!(o.undo_last_change(s("12")));
    assert_eq!(labels(&o), before);
    assert_eq!(o.history.len(), 1);
    assert_eq!(o.updated_at, "12");
    assert!(o.undo_last_change(s("13")));
    assert!(o.current_overrides.is_empty());
}

#[test]
fn undo_without_history_changes_nothing() {
    let mut o = SegmentOverrides::new(s("song"));
    assert!(!o.undo_last_change(s("99")));
    assert_eq!(o.updated_at, "");
    assert!(o.history.is_empty());
}

#[test]
fn replaying_history_keeps_last_edit() {
    let h = vec![
        HistoryEntry { timestamp: s("1"), segment_index: 4, old_label: s("a"), new_label: s("b") },
        HistoryEntry { timestamp: s("2"), segment_index: 5, old_label: s("x"), new_label: s("y") },
        HistoryEntry { timestamp: s("3"), segment_index: 4, old_label: s("b"), new_label: s("c") },
    ];
    let mut got: Vec<(String, String)> =
        rebuild_overrides(&h).iter().map(|e| (e.key.clone(), e.label.clone())).collect();
    got.sort();
    assert_eq!(got, vec![(s("4"), s("c")), (s("5"), s("y"))]);
}

#[test]
fn overrides_are_applied_to_segments() {
    let mut o = SegmentOverrides::new(s("song"));
    o.record_label_change(s("song"), 1, s("verse"), s("chorus"), s("1"), s("1"));
    let mut segs = vec![
        SegmentLabel { index: 0, label: s("intro") },
        SegmentLabel { index: 1, label: s("verse") },
        SegmentLabel { index: 2, label: s("outro") },
    ];
    o.apply_to_segments(&mut segs);
    let got: Vec<(i64, String)> = segs.iter().map(|g| (g.index, g.label.clone())).collect();
    assert_eq!(got, vec![(0, s("intro")), (1, s("chorus")), (2, s("outro"))]);
}

#[test]
fn base_label_of_first_matching_segment() {
    let segs = vec![
        SegmentLabel { index: 0, label: s("intro") },
        SegmentLabel { index: 1, label: s("verse") },
        SegmentLabel { index: 1, label: s("chorus") },
    ];
    assert_eq!(base_label(&segs, 1), "verse");
    assert_eq!(base_label(&segs, 7), "");
}

#[test]
fn timestamps_are_decimal_seconds() {
    let t = now_timestamp();
    assert!(!t.is_empty());
    assert!(t.chars().all(|c| c.is_ascii_digit()));
    assert!(t.parse::<u64>().unwrap() > 1_600_000_000);
}
