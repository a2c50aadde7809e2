use music_analyzer::config::{default_base_url, effective_mode, http_url, BackendConfig, BackendMode, ConfigStore};
use music_analyzer::clock::timestamp_text;
use music_analyzer::text::{format_time, i64_to_decimal, same_text, trim, u64_to_decimal};
use music_analyzer::visual::{next_random_state, random_bits};

fn cfg(mode: BackendMode, url: &str) -> BackendConfig {
    BackendConfig { mode, http_base_url: url.to_string() }
}

#[test]
fn default_config_is_auto_with_relative_urls() {
    let c = BackendConfig::default();
    assert_eq!(c.mode, BackendMode::Auto);
    assert_eq!(c.http_base_url, "");
    assert_eq!(default_base_url(), "");
    assert_eq!(BackendMode::default(), BackendMode::Auto);
}

#[test]
fn auto_mode_follows_detection() {
    assert_eq!(effective_mode(&cfg(BackendMode::Auto, ""), true), BackendMode::Tauri);
    assert_eq!(effective_mode(&cfg(BackendMode::Auto, ""), false), BackendMode::Http);
    assert_eq!(effective_mode(&cfg(BackendMode::Http, ""), true), BackendMode::Http);
    assert_eq!(effective_mode(&cfg(BackendMode::Tauri, ""), false), BackendMode::Tauri);
}

#[test]
fn api_urls() {
    assert_eq!(http_url(&cfg(BackendMode::Http, ""), "/tracks"), "/api/tracks");
    assert_eq!(
        http_url(&cfg(BackendMode::Http, "http://localhost:7777"), "/tracks"),
        "http://localhost:7777/api/tracks"
    );
    assert_eq!(
        http_url(&cfg(BackendMode::Http, "http://192.168.1.10:7777//"), "/stems/a"),
        "http://192.168.1.10:7777/api/stems/a"
    );
    assert_eq!(http_url(&cfg(BackendMode::Http, "/"), "/x"), "/api/x");
}

#[test]
fn clock_times() {
    assert_eq!(format_time(0), "0:00");
    assert_eq!(format_time(5), "0:05");
    assert_eq!(format_time(59), "0:59");
    assert_eq!(format_time(75), "1:15");
    assert_eq!(format_time(3600), "60:00");
    assert_eq!(format_time(3725), "62:05");
}

#[test]
fn decimal_text() {
    assert_eq!(u64_to_decimal(0), "0");
    assert_eq!(u64_to_decimal(1234), "1234");
    assert_eq!(u64_to_decimal(u64::MAX), "18446744073709551615");
    assert_eq!(i64_to_decimal(-5), "-5");
    assert_eq!(i64_to_decimal(0), "0");
    assert_eq!(i64_to_decimal(i64::MIN), "-9223372036854775808");
    assert_eq!(i64_to_decimal(i64::MAX), "9223372036854775807");
}

#[test]
fn text_equality() {
    assert!(same_text("a", "a"));
    assert!(!same_text("a", "A"));
    assert!(same_text("", ""));
}

#[test]
fn random_generator_steps() {
    assert_eq!(next_random_state(12345), 2021368500568277588);
    assert_eq!(next_random_state(0), 1442695040888963407);
    assert_eq!(random_bits(2021368500568277588), 235318264);
    assert_eq!(random_bits(u64::MAX), 0x7fff_ffff);
}

#[test]
fn trimming_white_space() {
    assert_eq!(trim(" \tab c\n"), "ab c");
    assert_eq!(trim("\u{3000}x\u{a0}"), "x");
    assert_eq!(trim("   "), "");
    assert_eq!(trim(""), "");
    assert_eq!(trim("a"), "a");
}

#[test]
fn timestamps_of_clock_readings() {
    assert_eq!(timestamp_text(Some(1712345678)), "1712345678");
    assert_eq!(timestamp_text(Some(0)), "0");
    assert_eq!(timestamp_text(None), "0");
}

#[test]
fn config_store_gives_back_last_settings() {
    let mut store = ConfigStore::new();
    let first = store.get_config();
    assert_eq!(first.mode, BackendMode::Auto);
    assert_eq!(first.http_base_url, "");
    store.set_config(BackendConfig { mode: BackendMode::Http, http_base_url: "http://localhost:7777".to_string() });
    store.set_config(BackendConfig { mode: BackendMode::Tauri, http_base_url: "http://x/".to_string() });
    let got = store.get_config();
    assert_eq!(got.mode, BackendMode::Tauri);
    assert_eq!(got.http_base_url, "http://x/");
    let copy = got.duplicate();
    assert_eq!(copy.mode, got.mode);
    assert_eq!(copy.http_base_url, got.http_base_url);
}
