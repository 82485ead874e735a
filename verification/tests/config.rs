use xauusd_engine::config::{env_bool, env_switch, env_u64, execution_venue, port_from, ExecutionVenue};

#[test]
fn chelsea_wins_over_deriv_and_neither_means_signal_only() {
    let url = Some("http://chelsea".to_string());
    let tok = Some("tok".to_string());
    assert_eq!(execution_venue(&url, &tok), ExecutionVenue::ChelseaLive);
    assert_eq!(execution_venue(&None, &tok), ExecutionVenue::DerivDemo);
    assert_eq!(execution_venue(&None, &None), ExecutionVenue::Unconfigured);
}

#[test]
fn boolean_settings_accept_the_usual_spellings() {
    assert!(env_bool(Some(" YES "), false));
    assert!(env_bool(Some("1"), false));
    assert!(env_bool(Some("On"), false));
    assert!(!env_bool(Some("nope"), true));
    assert!(!env_bool(Some(""), true));
    assert!(env_bool(None, true));
    assert!(!env_bool(None, false));
}

#[test]
fn feed_switches_are_on_off_or_auto() {
    assert!(env_switch("ON", false));
    assert!(!env_switch("off", true));
    assert!(!env_switch("No", true));
    assert!(env_switch("", true));
    assert!(!env_switch("auto", false));
    // Not trimmed: a padded value is "auto".
    assert!(!env_switch(" on", false));
}

#[test]
fn unsigned_settings_fall_back_when_unparsable() {
    assert_eq!(env_u64(Some("900"), 5), 900);
    assert_eq!(env_u64(Some("+7"), 5), 7);
    assert_eq!(env_u64(Some(" 7"), 5), 5);
    assert_eq!(env_u64(Some("-1"), 5), 5);
    assert_eq!(env_u64(Some("18446744073709551616"), 5), 5);
    assert_eq!(env_u64(Some("18446744073709551615"), 5), u64::MAX);
    assert_eq!(env_u64(None, 5), 5);
}

#[test]
fn the_port_defaults_to_3000() {
    assert_eq!(port_from(Some("8080")), 8080);
    assert_eq!(port_from(Some("65536")), 3000);
    assert_eq!(port_from(Some("")), 3000);
    assert_eq!(port_from(None), 3000);
}
