use feedrv3::config::{
    config_candidates, pick_config_path, validate_semantic, AppConfig, AppMode, CategoryConfig,
    ConfigError,
};

fn category(name: &str, domains: &[&str]) -> CategoryConfig {
    CategoryConfig { name: name.to_string(), domains: domains.iter().map(|d| d.to_string()).collect() }
}

fn app(domains: &[&str]) -> AppConfig {
    let mut c = AppConfig::with_defaults("agent".to_string(), "UTC".to_string());
    c.domains = domains.iter().map(|d| d.to_string()).collect();
    c
}

#[test]
fn defaults_match_documented_values() {
    let c = AppConfig::with_defaults("ua".to_string(), "Europe/Paris".to_string());
    assert_eq!(c.global_max_concurrent_requests, Some(64));
    assert_eq!(c.per_host_max_concurrent, 4);
    assert_eq!(c.history_sample_rate_ppm, 100_000);
    assert_eq!(c.default_poll_seconds, 900);
    assert_eq!(c.max_poll_seconds, 86_400);
    assert_eq!(c.jitter_ppm, 200_000);
    assert_eq!(c.tick_interval_seconds, 5);
    assert_eq!(c.due_batch_size, 1000);
    assert_eq!(c.mode, AppMode::Prod);
    assert!(c.check_ranges().is_ok());
    assert_eq!(c.parallelism(), 64);
}

#[test]
fn parallelism_defaults_when_unset() {
    let mut c = app(&[]);
    c.global_max_concurrent_requests = None;
    assert_eq!(c.parallelism(), 64);
    c.global_max_concurrent_requests = Some(8);
    assert_eq!(c.parallelism(), 8);
}

#[test]
fn out_of_range_settings_are_invalid() {
    let mut c = app(&[]);
    c.jitter_ppm = 1_000_001;
    assert!(matches!(c.check_ranges(), Err(ConfigError::Invalid(_))));
    let mut d = app(&[]);
    d.default_poll_seconds = 100_000;
    assert!(matches!(d.check_ranges(), Err(ConfigError::Invalid(_))));
    let mut e = app(&[]);
    e.per_host_max_concurrent = 0;
    assert!(e.check_ranges().is_err());
    let mut f = app(&[]);
    f.history_sample_rate_ppm = 2_000_000;
    assert!(f.check_ranges().is_err());
}

#[test]
fn every_domain_in_a_category_is_valid() {
    let cats = vec![category("news", &["a.com", "b.com"]), category("tech", &["c.com"])];
    assert!(validate_semantic(&app(&["a.com", "c.com"]), &cats).is_ok());
    assert!(validate_semantic(&app(&[]), &[]).is_ok());
}

#[test]
fn missing_domain_is_reported() {
    let cats = vec![category("news", &["a.com"])];
    match validate_semantic(&app(&["a.com", "x.org", "y.org"]), &cats) {
        Err(ConfigError::Invalid(msg)) => {
            assert_eq!(msg, "domain 'x.org' missing from categories.toml")
        }
        other => panic!("unexpected {:?}", other),
    }
}

#[test]
fn named_config_path_wins() {
    let c = config_candidates();
    assert_eq!(c, vec!["res/config.toml".to_string(), "src/main/resources/config/config.toml".to_string()]);
    assert_eq!(pick_config_path(Some("my.toml".to_string()), &c, &[true, true]), "my.toml");
    assert_eq!(pick_config_path(None, &c, &[false, true]), "src/main/resources/config/config.toml");
    assert_eq!(pick_config_path(None, &c, &[true, true]), "res/config.toml");
    assert_eq!(pick_config_path(None, &c, &[false, false]), "res/config.toml");
}
