use battery_monitor::{Config, FileConfigManager};
use std::time::Duration;

#[test]
fn test_default_config() {
    let config = Config::default();
    assert_eq!(config.monitoring.polling_interval_seconds, 30);
    assert_eq!(config.notifications.low_battery_threshold, 20);
    assert!(config.notifications.enabled);
    assert!(config.ui.show_disconnected_devices);
}

#[test]
fn test_config_validation() {
    let mut config = Config::default();

    config.monitoring.polling_interval_seconds = 2;
    assert!(FileConfigManager::validate_config(&config).is_err());

    config.monitoring.polling_interval_seconds = 400;
    assert!(FileConfigManager::validate_config(&config).is_err());

    config = Config::default();
    config.notifications.low_battery_threshold = 0;
    assert!(FileConfigManager::validate_config(&config).is_err());

    config.notifications.low_battery_threshold = 100;
    assert!(FileConfigManager::validate_config(&config).is_err());

    config = Config::default();
    assert!(FileConfigManager::validate_config(&config).is_ok());
}

#[test]
fn test_duration_conversion() {
    let config = Config::default();
    assert_eq!(config.polling_interval(), Duration::from_secs(30));
    assert_eq!(config.suppression_duration(), Duration::from_secs(300));
}

#[test]
fn test_config_setters() {
    let mut config = Config::default();

    assert!(config.set_polling_interval(60).is_ok());
    assert_eq!(config.monitoring.polling_interval_seconds, 60);

    assert!(config.set_low_battery_threshold(15).is_ok());
    assert_eq!(config.notifications.low_battery_threshold, 15);

    assert!(config.set_suppression_minutes(10).is_ok());
    assert_eq!(config.notifications.suppression_minutes, 10);

    assert!(config.set_polling_interval(2).is_err());
    assert!(config.set_low_battery_threshold(0).is_err());
    assert!(config.set_suppression_minutes(70).is_err());
}

#[test]
fn config_range_edges() {
    let mut config = Config::default();
    assert!(config.set_polling_interval(5).is_ok());
    assert!(config.set_polling_interval(300).is_ok());
    assert!(config.set_polling_interval(301).is_err());
    assert_eq!(config.monitoring.polling_interval_seconds, 300);
    assert!(config.set_low_battery_threshold(99).is_ok());
    assert!(config.set_low_battery_threshold(1).is_ok());
    assert!(config.set_suppression_minutes(60).is_ok());
    assert!(config.set_suppression_minutes(0).is_err());
    assert_eq!(config.notifications.suppression_minutes, 60);
}

#[test]
fn suppression_window_of_config() {
    let mut config = Config::default();
    config.notifications.suppression_minutes = 10;
    assert_eq!(config.suppression_duration(), Duration::from_secs(600));
    assert_eq!(config.suppression_millis(), 600_000);
    config.monitoring.polling_interval_seconds = 45;
    assert_eq!(config.polling_interval(), Duration::from_secs(45));
}

#[test]
fn validation_names_the_failing_setting() {
    let mut config = Config::default();
    config.notifications.suppression_minutes = 61;
    match FileConfigManager::validate_config(&config) {
        Err(battery_monitor::ConfigError::ValidationError(m)) => {
            assert_eq!(m, "Notification suppression must be between 1 and 60 minutes")
        }
        _ => panic!("expected a validation error"),
    }
}
