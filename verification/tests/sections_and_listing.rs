use music_analyzer::listing::{
    analysis_date, context_menu_position, order_by_text, section_rows, sort_field_from_value, stagger_delay_ms, SortDirection,
    SortField,
};
use music_analyzer::sections::{
    is_bridge_label, is_chorus_label, is_finale_label, is_listed_section, is_verse_label, section_energy,
    segment_color, text_contains, toggle_selection,
};

#[test]
fn segment_colors_by_label() {
    assert_eq!(segment_color("intro"), "bg-gray-500");
    assert_eq!(segment_color("Outro"), "bg-gray-400");
    assert_eq!(segment_color("VERSE"), "bg-blue-600");
    assert_eq!(segment_color("Chorus"), "bg-orange-500");
    assert_eq!(segment_color("refrain"), "bg-orange-500");
    assert_eq!(segment_color("bridge"), "bg-purple-600");
    assert_eq!(segment_color("break"), "bg-teal-500");
    assert_eq!(segment_color("Solo"), "bg-yellow-500");
    assert_eq!(segment_color("Pre-Chorus"), "bg-amber-500");
    assert_eq!(segment_color("prechorus"), "bg-amber-500");
    assert_eq!(segment_color("inst"), "bg-indigo-500");
    assert_eq!(segment_color(""), "bg-indigo-500");
}

#[test]
fn section_energy_in_tenths() {
    assert_eq!(section_energy("Intro"), (2, 2));
    assert_eq!(section_energy("verse"), (6, 5));
    assert_eq!(section_energy("CHORUS"), (12, 10));
    assert_eq!(section_energy("refrain"), (12, 10));
    assert_eq!(section_energy("bridge"), (7, 4));
    assert_eq!(section_energy("outro"), (3, 2));
    assert_eq!(section_energy("break"), (5, 3));
    assert_eq!(section_energy("solo"), (9, 7));
    assert_eq!(section_energy("pre-chorus"), (8, 6));
    assert_eq!(section_energy("something"), (8, 6));
}

#[test]
fn start_and_end_markers_are_not_listed() {
    assert!(!is_listed_section("start"));
    assert!(!is_listed_section("Start"));
    assert!(!is_listed_section("END"));
    assert!(is_listed_section("verse"));
    assert!(is_listed_section("ending"));
}

#[test]
fn text_search() {
    assert!(text_contains("instrumental", "inst"));
    assert!(text_contains("abc", ""));
    assert!(text_contains("abc", "abc"));
    assert!(!text_contains("ab", "abc"));
    assert!(!text_contains("outr", "outro"));
    assert!(text_contains("big outro", "outro"));
}

#[test]
fn section_roles() {
    assert!(is_chorus_label("chorus"));
    assert!(is_chorus_label("refrain"));
    assert!(!is_chorus_label("pre-chorus"));
    assert!(is_bridge_label("bridge"));
    assert!(is_bridge_label("inst break"));
    assert!(!is_bridge_label("verse"));
    assert!(is_verse_label("verse"));
    assert!(is_verse_label("pre-chorus"));
    assert!(is_verse_label("prechorus"));
    assert!(!is_verse_label("chorus"));
    assert!(is_finale_label(""));
    assert!(is_finale_label("outro"));
    assert!(is_finale_label("the end"));
    assert!(is_finale_label("coda"));
    assert!(!is_finale_label("verse"));
}

#[test]
fn toggling_a_selected_section_removes_it() {
    let mut ids = vec![1, 2, 3];
    toggle_selection(&mut ids, 2);
    assert_eq!(ids, vec![1, 3]);
}

#[test]
fn toggling_an_unselected_section_appends_it() {
    let mut ids = vec![1, 2, 3];
    toggle_selection(&mut ids, 4);
    assert_eq!(ids, vec![1, 2, 3, 4]);
}

#[test]
fn toggling_twice_keeps_the_selected_set() {
    let mut ids = vec![5, 7, 9];
    toggle_selection(&mut ids, 7);
    toggle_selection(&mut ids, 7);
    let mut sorted = ids.clone();
    sorted.sort();
    assert_eq!(sorted, vec![5, 7, 9]);
    assert_eq!(ids, vec![5, 9, 7]);
    let mut ids = vec![5];
    toggle_selection(&mut ids, 6);
    toggle_selection(&mut ids, 6);
    assert_eq!(ids, vec![5]);
}

#[test]
fn ordering_by_name_ascending_is_stable() {
    let names: Vec<String> = ["b", "a", "b", "c"].iter().map(|s| s.to_string()).collect();
    assert_eq!(order_by_text(&names, SortDirection::Ascending), vec![1, 0, 2, 3]);
}

#[test]
fn ordering_by_name_descending_is_stable() {
    let names: Vec<String> = ["b", "a", "b", "c"].iter().map(|s| s.to_string()).collect();
    assert_eq!(order_by_text(&names, SortDirection::Descending), vec![3, 0, 2, 1]);
}

#[test]
fn ordering_by_name_uses_byte_order() {
    let names: Vec<String> = ["Zeta", "alpha", "Beta"].iter().map(|s| s.to_string()).collect();
    assert_eq!(order_by_text(&names, SortDirection::Ascending), vec![2, 0, 1]);
    assert_eq!(order_by_text(&[], SortDirection::Ascending), Vec::<usize>::new());
}

#[test]
fn analysis_date_is_the_first_ten_bytes() {
    assert_eq!(analysis_date("2024-05-01T12:00:00"), "2024-05-01");
    assert_eq!(analysis_date("2024-05-01"), "2024-05-01");
    assert_eq!(analysis_date("short"), "");
    assert_eq!(analysis_date("2024年05月01日"), "");
}

#[test]
fn sort_controls() {
    assert_eq!(SortDirection::Ascending.reversed(), SortDirection::Descending);
    assert_eq!(SortDirection::Descending.reversed(), SortDirection::Ascending);
    assert_eq!(sort_field_from_value("bpm"), SortField::Bpm);
    assert_eq!(sort_field_from_value("filename"), SortField::Filename);
    assert_eq!(sort_field_from_value(""), SortField::Filename);
}

#[test]
fn section_entrance_delays() {
    assert_eq!(stagger_delay_ms(0), 0);
    assert_eq!(stagger_delay_ms(3), 180);
    assert_eq!(stagger_delay_ms(6), 360);
    assert_eq!(stagger_delay_ms(7), 400);
    assert_eq!(stagger_delay_ms(100), 400);
}

#[test]
fn context_menu_stays_in_the_window() {
    assert_eq!(context_menu_position(100, 100, 1920, 1080), (100, 100));
    assert_eq!(context_menu_position(1800, 900, 1920, 1080), (1748, 786));
    assert_eq!(context_menu_position(1752, 790, 1920, 1080), (1752, 790));
    assert_eq!(context_menu_position(1753, 791, 1920, 1080), (1748, 786));
}

#[test]
fn section_rows_skip_markers_and_stagger() {
    let labels: Vec<String> = ["Start", "intro", "verse", "END", "chorus", "start", "verse", "bridge", "chorus", "solo",
        "verse", "outro", "end"]
    .iter()
    .map(|s| s.to_string())
    .collect();
    let rows = section_rows(&labels);
    let sources: Vec<usize> = rows.iter().map(|r| r.source).collect();
    assert_eq!(sources, vec![1, 2, 4, 6, 7, 8, 9, 10, 11]);
    let delays: Vec<usize> = rows.iter().map(|r| r.delay_ms).collect();
    assert_eq!(delays, vec![0, 60, 120, 180, 240, 300, 360, 400, 400]);
    assert_eq!(rows[0].color, "bg-gray-500");
    assert_eq!(rows[2].color, "bg-orange-500");
    assert_eq!(rows[4].color, "bg-purple-600");
    assert_eq!(rows[8].color, "bg-gray-400");
}

#[test]
fn section_rows_of_markers_only_is_empty() {
    let labels: Vec<String> = vec!["start".to_string(), "End".to_string()];
    assert!(section_rows(&labels).is_empty());
    assert!(section_rows(&[]).is_empty());
}
