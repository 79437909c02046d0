use cf_dns_sync::config::{
    default_dns_config, default_display_config, default_log_config, default_show_config, default_stwpr,
    should_save_config, startup_action, AuthenticationConfig, Config, ConfigError, StartupAction, DisplayConfig, IncompleteConfig, LogConfig, ShowConfig,
};

fn auth(email: &str) -> AuthenticationConfig {
    AuthenticationConfig { email: email.to_string(), api_key: "k".to_string(), zone_id: "z".to_string() }
}

fn stored(authentication: Option<AuthenticationConfig>) -> IncompleteConfig {
    IncompleteConfig {
        seconds_to_wait_per_restart: 60,
        authentication,
        log_config: LogConfig::with_folder("/var/log/x".to_string()),
        dns_config: default_dns_config(),
    }
}

#[test]
fn stored_credentials_complete_the_config() {
    let s = stored(Some(auth("a@b")));
    assert!(s.is_complete());
    let c = s.complete(Some(auth("other@b"))).unwrap();
    assert_eq!(c.authentication.email, "a@b");
    assert_eq!(c.seconds_to_wait_per_restart, 60);
}

#[test]
fn supplied_credentials_complete_a_partial_config() {
    let s = stored(None);
    assert!(!s.is_complete());
    let c = s.complete(Some(auth("new@b"))).unwrap();
    assert_eq!(c.authentication.email, "new@b");
    assert_eq!(c.log_config.log_folder_path, "/var/log/x");
}

#[test]
fn without_credentials_the_config_is_incomplete() {
    assert!(matches!(stored(None).complete(None), Err(ConfigError::Incomplete)));
}

#[test]
fn defaults() {
    assert_eq!(default_stwpr(), 300);
    assert!(default_dns_config().is_empty());
    assert_eq!(default_display_config(), DisplayConfig { date: true, time: true, log_type: true });
    assert_eq!(default_show_config(), ShowConfig { logs: true, warnings: true, errors: true });
    assert_eq!(DisplayConfig::default(), default_display_config());
    assert_eq!(ShowConfig::default(), default_show_config());
    let l = default_log_config("/logs".to_string());
    assert!(l.separate_logs_by_session);
    assert_eq!(l.session_number, Some(1));
    let c = Config::new(auth("a@b"), l);
    assert_eq!(c.seconds_to_wait_per_restart, 300);
    assert!(c.dns_config.is_empty());
    let back = c.to_incomplete();
    assert!(back.is_complete());
}

#[test]
fn startup_stops_without_credentials_and_terminal() {
    assert_eq!(startup_action(true, false), StartupAction::Proceed);
    assert_eq!(startup_action(true, true), StartupAction::Proceed);
    assert_eq!(startup_action(false, true), StartupAction::AskCredentials);
    assert_eq!(startup_action(false, false), StartupAction::Stop);
}

#[test]
fn config_is_saved_only_when_needed() {
    assert!(should_save_config(false, Some("{}"), "{}"));
    assert!(should_save_config(true, None, "{}"));
    assert!(should_save_config(true, Some("{\"a\":1}"), "{}"));
    assert!(!should_save_config(true, Some("{}"), "{}"));
}
