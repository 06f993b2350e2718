use meshbbs::config::{Config, IdentBeaconConfig, AdminDashboardConfig, RoleDefinition};

#[test]
fn test_ident_beacon_config_default() {
    let config = IdentBeaconConfig::default();
    assert_eq!(config.enabled, true);
    assert_eq!(config.frequency, "15min");
}

#[test]
fn test_ident_beacon_frequency_minutes_valid() {
    let test_cases = vec![
        ("5min", 5),
        ("15min", 15),
        ("30min", 30),
        ("1hour", 60),
        ("2hours", 120),
        ("4hours", 240),
    ];
    for (frequency, expected_minutes) in test_cases {
        let config = IdentBeaconConfig { enabled: true, frequency: frequency.to_string() };
        assert_eq!(
            config.frequency_minutes(),
            expected_minutes,
            "Expected {} to convert to {} minutes",
            frequency,
            expected_minutes
        );
    }
}

#[test]
fn test_ident_beacon_frequency_minutes_invalid() {
    let invalid_frequencies = vec!["invalid", "10hours", "", "60min", "30mins", "1hr"];
    for invalid_freq in invalid_frequencies {
        let config = IdentBeaconConfig { enabled: true, frequency: invalid_freq.to_string() };
        assert_eq!(
            config.frequency_minutes(),
            15,
            "Expected invalid frequency '{}' to default to 15 minutes",
            invalid_freq
        );
    }
}

#[test]
fn test_ident_beacon_disabled() {
    let config = IdentBeaconConfig { enabled: false, frequency: "30min".to_string() };
    assert_eq!(config.enabled, false);
    assert_eq!(config.frequency_minutes(), 30);
}

#[test]
fn test_config_includes_ident_beacon() {
    let config = Config::default();
    assert_eq!(config.ident_beacon.enabled, true);
    assert_eq!(config.ident_beacon.frequency, "15min");
}

#[test]
fn test_ident_beacon_config_clone() {
    let config = IdentBeaconConfig { enabled: false, frequency: "4hours".to_string() };
    let cloned = config.clone();
    assert_eq!(cloned.enabled, config.enabled);
    assert_eq!(cloned.frequency, config.frequency);
    assert_eq!(cloned.frequency_minutes(), 240);
}

#[test]
fn default_dashboard_config_is_valid() {
    let cfg = AdminDashboardConfig::default();
    assert!(cfg.validate().is_ok());
    assert_eq!(cfg.roles.len(), 4);
}

#[test]
fn dashboard_rejects_unknown_tls_mode() {
    let mut cfg = AdminDashboardConfig::default();
    cfg.tls_mode = "ftp".to_string();
    assert_eq!(
        cfg.validate().unwrap_err(),
        "Invalid tls_mode: must be 'self_signed', 'letsencrypt', 'custom', or 'disabled'"
    );
}

#[test]
fn dashboard_custom_tls_needs_paths() {
    let mut cfg = AdminDashboardConfig::default();
    cfg.tls_mode = "custom".to_string();
    assert_eq!(cfg.validate().unwrap_err(), "Custom TLS mode requires tls_cert and tls_key paths");
    cfg.tls_cert = Some("c.pem".to_string());
    cfg.tls_key = Some("k.pem".to_string());
    assert!(cfg.validate().is_ok());
}

#[test]
fn dashboard_letsencrypt_needs_domain() {
    let mut cfg = AdminDashboardConfig::default();
    cfg.tls_mode = "letsencrypt".to_string();
    assert_eq!(
        cfg.validate().unwrap_err(),
        "Let's Encrypt mode requires letsencrypt_domain and letsencrypt_email"
    );
}

#[test]
fn dashboard_needs_bind_address() {
    let mut cfg = AdminDashboardConfig::default();
    cfg.bind_addresses.clear();
    assert_eq!(cfg.validate().unwrap_err(), "At least one bind address required");
}

#[test]
fn dashboard_rejects_bad_audit_settings() {
    let mut cfg = AdminDashboardConfig::default();
    cfg.audit_log_level = "trace".to_string();
    assert_eq!(
        cfg.validate().unwrap_err(),
        "Invalid audit_log_level: must be 'debug', 'info', 'warn', or 'error'"
    );
    let mut cfg = AdminDashboardConfig::default();
    cfg.audit_log_rotation = "hourly".to_string();
    assert_eq!(
        cfg.validate().unwrap_err(),
        "Invalid audit_log_rotation: must be 'daily', 'weekly', or 'size'"
    );
}

#[test]
fn dashboard_rejects_zero_limits() {
    let mut cfg = AdminDashboardConfig::default();
    cfg.session_timeout = 0;
    assert_eq!(cfg.validate().unwrap_err(), "session_timeout must be greater than 0");
    let mut cfg = AdminDashboardConfig::default();
    cfg.login_attempts_per_ip = 0;
    assert_eq!(cfg.validate().unwrap_err(), "login_attempts_per_ip must be greater than 0");
    cfg.rate_limit_enabled = false;
    assert!(cfg.validate().is_ok());
    let mut cfg = AdminDashboardConfig::default();
    cfg.login_attempt_window = 0;
    assert_eq!(cfg.validate().unwrap_err(), "login_attempt_window must be greater than 0");
    let mut cfg = AdminDashboardConfig::default();
    cfg.api_requests_per_session = 0;
    assert_eq!(cfg.validate().unwrap_err(), "api_requests_per_session must be greater than 0");
    let mut cfg = AdminDashboardConfig::default();
    cfg.api_request_window = 0;
    assert_eq!(cfg.validate().unwrap_err(), "api_request_window must be greater than 0");
}

fn role(name: &str, min: u8, max: u8) -> RoleDefinition {
    RoleDefinition { name: name.to_string(), min_level: min, max_level: max, color: None, icon: None, description: None }
}

#[test]
fn dashboard_role_rules() {
    let mut cfg = AdminDashboardConfig::default();
    cfg.roles.clear();
    assert_eq!(cfg.validate().unwrap_err(), "At least one role definition required");
    cfg.roles = vec![role("Odd", 5, 3)];
    assert_eq!(cfg.validate().unwrap_err(), "Role 'Odd' has min_level > max_level");
    cfg.roles = vec![role("A", 1, 5), role("B", 6, 7), role("C", 4, 6)];
    assert_eq!(
        cfg.validate().unwrap_err(),
        "Role 'A' (levels 1-5) overlaps with role 'C' (levels 4-6)"
    );
}

#[test]
fn dashboard_level_to_role() {
    let cfg = AdminDashboardConfig::default();
    assert_eq!(cfg.level_to_role(10), "Sysop");
    assert_eq!(cfg.level_to_role(7), "Admin");
    assert_eq!(cfg.level_to_role(3), "Moderator");
    assert_eq!(cfg.level_to_role(1), "User");
    assert_eq!(cfg.level_to_role(0), "Unknown");
    assert_eq!(cfg.get_role_definition(9).unwrap().name, "Admin");
    assert!(cfg.get_role_definition(11).is_none());
}

#[test]
fn default_config_topics_and_mesh_settings() {
    let c = Config::default();
    assert_eq!(c.message_topics.len(), 3);
    assert_eq!(c.message_topics[0].0, "general");
    assert_eq!(c.meshtastic.dm_resend_backoff_seconds, Some(vec![4, 8, 16]));
    assert_eq!(c.storage.max_message_size, 200);
    assert_eq!(c.bbs.help_command, "HELP");
    assert!(c.apps.fortune.enabled);
    assert!(!c.apps.tinymush.enabled);
}
