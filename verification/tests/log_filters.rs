use amd::commands::set_log_level::{
    build_filter_string, plan_log_level_change, reload_reply, validate_level, LogLevelChange,
    INVALID_LEVEL_REPLY,
};
use amd::trace;
use amd::CRATE_NAME;

#[test]
fn startup_filter_for_each_switch_pair() {
    assert_eq!(trace::build_filter_string(true, true), "info");
    assert_eq!(trace::build_filter_string(true, false), "amd=info");
    assert_eq!(trace::build_filter_string(false, true), "trace");
    assert_eq!(trace::build_filter_string(false, false), "amd=trace");
    assert_eq!(CRATE_NAME, "amd");
}

#[test]
fn validate_level_accepts_exactly_the_five_levels() {
    for level in ["trace", "debug", "info", "warn", "error"] {
        assert!(validate_level(&level.to_string()), "{level}");
    }
    for level in ["", "TRACE", "Info", "warning", "off", " info", "info ", "err"] {
        assert!(!validate_level(&level.to_string()), "{level}");
    }
}

#[test]
fn command_filter_names_crate_unless_libraries_enabled() {
    assert_eq!(build_filter_string("debug".to_string(), true), "debug");
    assert_eq!(build_filter_string("debug".to_string(), false), "amd=debug");
    assert_eq!(build_filter_string("warn".to_string(), false), format!("{}={}", CRATE_NAME, "warn"));
}

#[test]
fn plan_rejects_invalid_level_with_the_level_list() {
    match plan_log_level_change("verbose".to_string(), Some(true)) {
        LogLevelChange::Reject { reply } => {
            assert_eq!(reply, "Invalid log level! Use: trace, debug, info, warn, error");
            assert_eq!(reply, INVALID_LEVEL_REPLY);
        }
        LogLevelChange::Reload { .. } => panic!("an invalid level must not reload"),
    }
}

#[test]
fn plan_reloads_valid_level() {
    match plan_log_level_change("info".to_string(), None) {
        LogLevelChange::Reload { filter, .. } => assert_eq!(filter, "amd=info"),
        LogLevelChange::Reject { .. } => panic!("a valid level must reload"),
    }
    match plan_log_level_change("error".to_string(), Some(false)) {
        LogLevelChange::Reload { filter, .. } => assert_eq!(filter, "amd=error"),
        LogLevelChange::Reject { .. } => panic!("a valid level must reload"),
    }
    match plan_log_level_change("trace".to_string(), Some(true)) {
        LogLevelChange::Reload { filter, .. } => assert_eq!(filter, "trace"),
        LogLevelChange::Reject { .. } => panic!("a valid level must reload"),
    }
}

#[test]
fn reload_replies() {
    assert_eq!(reload_reply("amd=info", true), "Log level changed to **amd=info**");
    assert_eq!(reload_reply("trace", true), format!("Log level changed to **{}**", "trace"));
    assert_eq!(reload_reply("amd=info", false), "Failed to update log level.");
}

#[test]
fn startup_env_filter_is_built_from_the_startup_directives() {
    let (filter, directives) = trace::startup_env_filter(true, false);
    assert_eq!(directives, "amd=info");
    assert_eq!(filter.to_string(), "amd=info");
    let (filter, directives) = trace::startup_env_filter(false, true);
    assert_eq!(directives, "trace");
    assert_eq!(filter.to_string(), "trace");
}

#[test]
fn reload_carries_filter_of_the_directives() {
    match plan_log_level_change("warn".to_string(), Some(false)) {
        LogLevelChange::Reload { filter, env_filter } => {
            assert_eq!(filter, "amd=warn");
            assert_eq!(env_filter.to_string(), "amd=warn");
        }
        LogLevelChange::Reject { .. } => panic!("a valid level must reload"),
    }
}
