use music_analyzer::song_state::{LoopSelection, SongCache};

#[derive(Clone, Copy, Debug, PartialEq)]
struct Volumes {
    master: f64,
    vocals: f64,
}

const DEFAULTS: Volumes = Volumes { master: 1.0, vocals: 1.0 };

#[test]
fn first_song_gets_defaults() {
    let mut cache: SongCache<Volumes> = SongCache::new();
    let got = cache.switch_song("", "song_a", Volumes { master: 0.3, vocals: 0.2 }, DEFAULTS);
    assert_eq!(got, DEFAULTS);
    // Nothing was loaded before, so nothing was remembered.
    assert!(cache.entries.is_empty());
    assert_eq!(cache.get(""), None);
}

#[test]
fn switching_back_restores_the_saved_volumes() {
    let mut cache: SongCache<Volumes> = SongCache::new();
    let a_vols = Volumes { master: 0.4, vocals: 0.0 };
    let b_vols = Volumes { master: 0.9, vocals: 0.5 };
    let got_b = cache.switch_song("song_a", "song_b", a_vols, DEFAULTS);
    assert_eq!(got_b, DEFAULTS);
    let got_a = cache.switch_song("song_b", "song_a", b_vols, DEFAULTS);
    assert_eq!(got_a, a_vols);
    let got_b_again = cache.switch_song("song_a", "song_b", a_vols, DEFAULTS);
    assert_eq!(got_b_again, b_vols);
    assert_eq!(cache.entries.len(), 2);
}

#[test]
fn leaving_a_song_again_replaces_its_saved_volumes() {
    let mut cache: SongCache<Volumes> = SongCache::new();
    cache.switch_song("song_a", "song_b", Volumes { master: 0.1, vocals: 0.1 }, DEFAULTS);
    cache.switch_song("song_b", "song_a", DEFAULTS, DEFAULTS);
    let newer = Volumes { master: 0.7, vocals: 0.3 };
    cache.switch_song("song_a", "song_b", newer, DEFAULTS);
    assert_eq!(cache.get("song_a"), Some(newer));
    assert_eq!(cache.entries.len(), 2);
}

#[test]
fn reloading_the_same_song_keeps_current_volumes() {
    let mut cache: SongCache<Volumes> = SongCache::new();
    let vols = Volumes { master: 0.25, vocals: 0.75 };
    assert_eq!(cache.switch_song("song_a", "song_a", vols, DEFAULTS), vols);
}

#[test]
fn remember_and_get() {
    let mut cache: SongCache<u32> = SongCache::new();
    assert_eq!(cache.get("x"), None);
    cache.remember("x", 3);
    cache.remember("y", 4);
    cache.remember("x", 5);
    assert_eq!(cache.get("x"), Some(5));
    assert_eq!(cache.get("y"), Some(4));
    assert_eq!(cache.get("z"), None);
}

#[test]
fn reset_loop_clears_zone_and_selection() {
    let mut sel: LoopSelection<f64> = LoopSelection::new();
    assert!(sel.loop_start.is_none() && sel.loop_end.is_none() && !sel.loop_active);
    sel.loop_start = Some(12.5);
    sel.loop_end = Some(30.0);
    sel.loop_active = true;
    sel.selected = vec![2, 3];
    sel.reset_loop();
    assert_eq!(sel.loop_start, None);
    assert_eq!(sel.loop_end, None);
    assert!(!sel.loop_active);
    assert!(sel.selected.is_empty());
}
