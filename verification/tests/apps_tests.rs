use meshbbs::apps::{augment_runtime_metrics, build_apps_from_config, set_app_enabled, AppDescriptor};
use meshbbs::config::AppsConfig;
use meshbbs::fortune::{initialize, FortuneData, FortuneStore};

fn stub_app(id: &str) -> AppDescriptor {
    AppDescriptor {
        id: id.to_string(),
        name: "Stub".to_string(),
        category: "App".to_string(),
        description: "Stub".to_string(),
        summary: None,
        status: "online".to_string(),
        status_detail: None,
        enabled: true,
        planned: false,
        tags: Vec::new(),
        commands: Vec::new(),
        data_paths: Vec::new(),
        metrics: None,
        config_keys: Vec::new(),
        actions: Vec::new(),
        notes: None,
    }
}

#[test]
fn build_apps_from_config_returns_all_eight_apps() {
    let apps_config = AppsConfig::default();
    let apps = build_apps_from_config(&apps_config);

    assert_eq!(apps.len(), 8, "Should return all 8 apps");

    let ids: Vec<&str> = apps.iter().map(|a| a.id.as_str()).collect();
    assert!(ids.contains(&"fortune"));
    assert!(ids.contains(&"tinyhack"));
    assert!(ids.contains(&"tinymush"));
    assert!(ids.contains(&"eightball"));
    assert!(ids.contains(&"slotmachine"));
    assert!(ids.contains(&"weather"));
    assert!(ids.contains(&"ident_beacon"));
    assert!(ids.contains(&"welcome"));
}

#[test]
fn build_apps_from_config_respects_enabled_flags() {
    let mut apps_config = AppsConfig::default();
    apps_config.tinyhack.enabled = false;
    apps_config.weather.enabled = true;

    let apps = build_apps_from_config(&apps_config);

    let tinyhack = apps.iter().find(|a| a.id == "tinyhack").expect("tinyhack");
    assert!(!tinyhack.enabled, "TinyHack should be disabled");
    assert_eq!(tinyhack.status, "offline");

    let weather = apps.iter().find(|a| a.id == "weather").expect("weather");
    assert!(weather.enabled, "Weather should be enabled");
    assert_eq!(weather.status, "online");
}

#[test]
fn augment_runtime_metrics_populates_fortune() {
    let mut apps = vec![stub_app("fortune")];
    let fortunes = FortuneStore::new();
    augment_runtime_metrics(&mut apps, &fortunes);

    let fortune = apps.iter().find(|entry| entry.id == "fortune").expect("fortune present");
    assert!(fortune.metrics.is_some());
    let metrics = fortune.metrics.as_ref().unwrap();
    assert!(metrics.sessions_total.is_some());
    assert!(metrics.sessions_7d.is_some());
    assert!(metrics.last_activity.is_some());
}

#[test]
fn augment_runtime_metrics_counts_loaded_fortunes() {
    let mut apps = vec![stub_app("weather"), stub_app("fortune")];
    let mut fortunes = FortuneStore::new();
    initialize(&mut fortunes, "fortunes.json", Ok(FortuneData { fortunes: vec!["a".to_string(), "b".to_string(), "c".to_string()] }));
    augment_runtime_metrics(&mut apps, &fortunes);
    assert!(apps[0].metrics.is_none());
    let m = apps[1].metrics.as_ref().unwrap();
    assert_eq!(m.sessions_total, Some(3));
    assert_eq!(m.sessions_7d, Some(0));
    assert_eq!(m.last_activity.as_deref(), Some("Always available (local dataset)"));
}

#[test]
fn app_summaries_follow_settings() {
    let mut cfg = AppsConfig::default();
    cfg.weather.default_location = "Boston".to_string();
    cfg.ident_beacon.frequency = "1hour".to_string();
    let apps = build_apps_from_config(&cfg);
    assert_eq!(apps[5].summary.as_deref(), Some("Location: Boston"));
    assert_eq!(apps[6].summary.as_deref(), Some("Broadcasts every 1hour seconds"));
    assert_eq!(apps[0].status_detail.as_deref(), Some("Toggle via apps.fortune.enabled"));
    assert_eq!(apps[0].actions[0].target.as_deref(), Some("apps.fortune.enabled"));
}

#[test]
fn toggling_apps_by_setting() {
    let mut cfg = AppsConfig::default();
    assert!(set_app_enabled(&mut cfg, "apps.tinymush.enabled", true));
    assert!(cfg.tinymush.enabled);
    assert!(set_app_enabled(&mut cfg, "apps.weather.enabled", true));
    assert!(cfg.weather.enabled);
    assert!(!set_app_enabled(&mut cfg, "apps.unknown.enabled", true));
    assert!(set_app_enabled(&mut cfg, "apps.fortune.enabled", false));
    assert!(!cfg.fortune.enabled);
}
