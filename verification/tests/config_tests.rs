use lol_auto_accept_rs::config::{choose_template_path, AppConfig, TemplateLookupError};
use lol_auto_accept_rs::textfmt::format_duration;

#[test]
fn default_configuration_values() {
    let cfg = AppConfig::default();
    assert_eq!(cfg.threshold_micro, 880_000);
    assert_eq!(cfg.interval_ms, 120);
    assert_eq!(cfg.cooldown_ms, 4_000);
    assert_eq!(cfg.monitor_index, 0);
    assert_eq!(cfg.click_offset_x, 0);
    assert_eq!(cfg.click_offset_y, 0);
    assert!(cfg.template_path.is_none());
}

#[test]
fn blank_template_path_clears_configuration() {
    let mut cfg = AppConfig::default();
    cfg.set_template_path_from_str("marker.png");
    assert_eq!(cfg.template_path.as_deref(), Some("marker.png"));
    // Whitespace-only input clears the path; if trimming did nothing, the
    // non-empty string would be kept instead.
    cfg.set_template_path_from_str("   ");
    assert!(cfg.template_path.is_none());
}

#[test]
fn template_path_is_stored_untrimmed() {
    let mut cfg = AppConfig::default();
    cfg.set_template_path_from_str("  marker.png ");
    assert_eq!(cfg.template_path.as_deref(), Some("  marker.png "));
}

#[test]
fn configured_path_wins_when_it_exists() {
    let configured = Some(String::from("mine.png"));
    let candidates = vec![String::from("a.png"), String::from("b.png")];
    let exists = vec![true, true];
    let r = choose_template_path(&configured, true, &candidates, &exists);
    assert_eq!(r.as_deref(), Ok("mine.png"));
}

#[test]
fn missing_configured_path_is_an_error() {
    let configured = Some(String::from("mine.png"));
    let r = choose_template_path(&configured, false, &vec![], &vec![]);
    assert_eq!(r, Err(TemplateLookupError::ConfiguredMissing));
}

#[test]
fn first_existing_candidate_is_chosen() {
    let candidates =
        vec![String::from("a.png"), String::from("b.png"), String::from("c.png")];
    let exists = vec![false, true, true];
    let r = choose_template_path(&None, false, &candidates, &exists);
    assert_eq!(r.as_deref(), Ok("b.png"));
}

#[test]
fn no_candidate_is_an_error() {
    let candidates = vec![String::from("a.png"), String::from("b.png")];
    let exists = vec![false, false];
    let r = choose_template_path(&None, false, &candidates, &exists);
    assert_eq!(r, Err(TemplateLookupError::NotFound));
}

#[test]
fn durations_format_like_the_status_line() {
    assert_eq!(format_duration(0), "0ms");
    assert_eq!(format_duration(999), "999ms");
    assert_eq!(format_duration(1_000), "1s");
    assert_eq!(format_duration(59_999), "59s");
    assert_eq!(format_duration(60_000), "60s");
    assert_eq!(format_duration(61_000), "1m 01s");
    assert_eq!(format_duration(3_723_000), "62m 03s");
}
