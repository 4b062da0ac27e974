//! The monitoring and notification settings, their defaults and the ranges
//! they must stay in.
use core::time::Duration;
use vstd::prelude::*;

verus! {

/// Periodic scanning settings.
#[derive(Debug, Clone, Copy, PartialEq, Eq, Structural)]
pub struct MonitoringConfig {
    pub polling_interval_seconds: u64,
    pub auto_start: bool,
}

/// Notification settings.
#[derive(Debug, Clone, Copy, PartialEq, Eq, Structural)]
pub struct NotificationConfig {
    pub enabled: bool,
    pub low_battery_threshold: u8,
    pub show_connect_disconnect: bool,
    pub suppression_minutes: u64,
}

/// Presentation settings.
#[derive(Debug, Clone, Copy, PartialEq, Eq, Structural)]
pub struct UiConfig {
    pub show_disconnected_devices: bool,
}

/// All settings.
#[derive(Debug, Clone, Copy, PartialEq, Eq, Structural)]
pub struct Config {
    pub monitoring: MonitoringConfig,
    pub notifications: NotificationConfig,
    pub ui: UiConfig,
}

/// What can go wrong with the settings.
#[derive(Debug, Clone)]
pub enum ConfigError {
    /// Reading or writing the settings file failed; the text is the reason.
    IoError(String),
    /// The settings could not be encoded; the text is the reason.
    TomlSerError(String),
    /// The settings file could not be decoded; the text is the reason.
    TomlDeError(String),
    /// A setting is out of range; the text names the range.
    ValidationError(String),
    /// There is no directory to keep the settings in.
    DirectoryCreationFailed,
}

/// Shortest polling interval, in seconds.
pub const MIN_POLLING_SECONDS: u64 = 5;

/// Longest polling interval, in seconds.
pub const MAX_POLLING_SECONDS: u64 = 300;

/// Lowest low-battery threshold, in percent.
pub const MIN_THRESHOLD: u8 = 1;

/// Highest low-battery threshold, in percent.
pub const MAX_THRESHOLD: u8 = 99;

/// Shortest suppression window, in minutes.
pub const MIN_SUPPRESSION_MINUTES: u64 = 1;

/// Longest suppression window, in minutes.
pub const MAX_SUPPRESSION_MINUTES: u64 = 60;

pub open spec fn polling_ok(seconds: u64) -> bool {
    MIN_POLLING_SECONDS <= seconds <= MAX_POLLING_SECONDS
}

pub open spec fn threshold_ok(threshold: u8) -> bool {
    MIN_THRESHOLD <= threshold <= MAX_THRESHOLD
}

pub open spec fn suppression_ok(minutes: u64) -> bool {
    MIN_SUPPRESSION_MINUTES <= minutes <= MAX_SUPPRESSION_MINUTES
}

/// Every setting is in its range.
pub open spec fn config_valid(c: Config) -> bool {
    polling_ok(c.monitoring.polling_interval_seconds) && threshold_ok(
        c.notifications.low_battery_threshold,
    ) && suppression_ok(c.notifications.suppression_minutes)
}

impl Default for MonitoringConfig {
    fn default() -> (r: Self)
        ensures
            r == (MonitoringConfig { polling_interval_seconds: 30, auto_start: false }),
    {
        MonitoringConfig { polling_interval_seconds: 30, auto_start: false }
    }
}

impl Default for NotificationConfig {
    fn default() -> (r: Self)
        ensures
            r == (NotificationConfig {
                enabled: true,
                low_battery_threshold: 20,
                show_connect_disconnect: true,
                suppression_minutes: 5,
            }),
    {
        NotificationConfig {
            enabled: true,
            low_battery_threshold: 20,
            show_connect_disconnect: true,
            suppression_minutes: 5,
        }
    }
}

impl Default for UiConfig {
    fn default() -> (r: Self)
        ensures
            r == (UiConfig { show_disconnected_devices: true }),
    {
        UiConfig { show_disconnected_devices: true }
    }
}

impl Default for Config {
    fn default() -> (r: Self)
        ensures
            r.monitoring == (MonitoringConfig { polling_interval_seconds: 30, auto_start: false }),
            r.notifications == (NotificationConfig {
                enabled: true,
                low_battery_threshold: 20,
                show_connect_disconnect: true,
                suppression_minutes: 5,
            }),
            r.ui == (UiConfig { show_disconnected_devices: true }),
            config_valid(r),
    {
        Config {
            monitoring: MonitoringConfig::default(),
            notifications: NotificationConfig::default(),
            ui: UiConfig::default(),
        }
    }
}

/// A span of whole seconds, as the standard library builds it.
pub uninterp spec fn span_of_secs(secs: u64) -> Duration;

/// Relies on `std::time::Duration::from_secs`: the span of the given whole
/// number of seconds, which depends on that number alone.
#[verifier::external_body]
pub(crate) fn seconds(secs: u64) -> (r: Duration)
    ensures
        r == span_of_secs(secs),
{
    Duration::from_secs(secs)
}

/// Checks the settings that are kept in files.
pub struct FileConfigManager;

impl FileConfigManager {
    /// Accepts settings whose polling interval, low-battery threshold and
    /// suppression window are all in range; otherwise names the first one
    /// out of range.
    pub fn validate_config(config: &Config) -> (r: Result<(), ConfigError>)
        ensures
            r is Ok <==> config_valid(*config),
            r is Err ==> r->Err_0 is ValidationError,
    {
        if config.monitoring.polling_interval_seconds < MIN_POLLING_SECONDS
            || config.monitoring.polling_interval_seconds > MAX_POLLING_SECONDS {
            return Err(
                ConfigError::ValidationError(
                    "Polling interval must be between 5 and 300 seconds".to_owned(),
                ),
            );
        }
        if config.notifications.low_battery_threshold < MIN_THRESHOLD
            || config.notifications.low_battery_threshold > MAX_THRESHOLD {
            return Err(
                ConfigError::ValidationError(
                    "Low battery threshold must be between 1 and 99 percent".to_owned(),
                ),
            );
        }
        if config.notifications.suppression_minutes < MIN_SUPPRESSION_MINUTES
            || config.notifications.suppression_minutes > MAX_SUPPRESSION_MINUTES {
            return Err(
                ConfigError::ValidationError(
                    "Notification suppression must be between 1 and 60 minutes".to_owned(),
                ),
            );
        }
        Ok(())
    }
}

impl Config {
    /// The polling interval as a span of time.
    pub fn polling_interval(&self) -> (r: Duration)
        ensures
            r == span_of_secs(self.monitoring.polling_interval_seconds),
    {
        seconds(self.monitoring.polling_interval_seconds)
    }

    /// The suppression window as a span of time.
    pub fn suppression_duration(&self) -> (r: Duration)
        requires
            self.notifications.suppression_minutes <= u64::MAX / 60,
        ensures
            r == span_of_secs((self.notifications.suppression_minutes * 60) as u64),
    {
        seconds(self.notifications.suppression_minutes * 60)
    }

    /// The suppression window in milliseconds.
    pub fn suppression_millis(&self) -> (r: u64)
        requires
            self.notifications.suppression_minutes <= u64::MAX / 60000,
        ensures
            r == self.notifications.suppression_minutes * 60000,
    {
        self.notifications.suppression_minutes * 60000
    }

    /// Sets the polling interval; refuses a value outside 5 to 300 seconds
    /// and then changes nothing.
    pub fn set_polling_interval(&mut self, seconds: u64) -> (r: Result<(), ConfigError>)
        ensures
            r is Ok <==> polling_ok(seconds),
            r is Ok ==> *final(self) == (Config {
                monitoring: MonitoringConfig {
                    polling_interval_seconds: seconds,
                    ..old(self).monitoring
                },
                ..*old(self)
            }),
            r is Err ==> (r->Err_0 is ValidationError && *final(self) == *old(self)),
    {
        if seconds < MIN_POLLING_SECONDS || seconds > MAX_POLLING_SECONDS {
            return Err(
                ConfigError::ValidationError(
                    "Polling interval must be between 5 and 300 seconds".to_owned(),
                ),
            );
        }
        self.monitoring.polling_interval_seconds = seconds;
        Ok(())
    }

    /// Sets the low-battery threshold; refuses a value outside 1 to 99
    /// percent and then changes nothing.
    pub fn set_low_battery_threshold(&mut self, threshold: u8) -> (r: Result<(), ConfigError>)
        ensures
            r is Ok <==> threshold_ok(threshold),
            r is Ok ==> *final(self) == (Config {
                notifications: NotificationConfig {
                    low_battery_threshold: threshold,
                    ..old(self).notifications
                },
                ..*old(self)
            }),
            r is Err ==> (r->Err_0 is ValidationError && *final(self) == *old(self)),
    {
        if threshold < MIN_THRESHOLD || threshold > MAX_THRESHOLD {
            return Err(
                ConfigError::ValidationError(
                    "Low battery threshold must be between 1 and 99 percent".to_owned(),
                ),
            );
        }
        self.notifications.low_battery_threshold = threshold;
        Ok(())
    }

    /// Sets the suppression window; refuses a value outside 1 to 60 minutes
    /// and then changes nothing.
    pub fn set_suppression_minutes(&mut self, minutes: u64) -> (r: Result<(), ConfigError>)
        ensures
            r is Ok <==> suppression_ok(minutes),
            r is Ok ==> *final(self) == (Config {
                notifications: NotificationConfig {
                    suppression_minutes: minutes,
                    ..old(self).notifications
                },
                ..*old(self)
            }),
            r is Err ==> (r->Err_0 is ValidationError && *final(self) == *old(self)),
    {
        if minutes < MIN_SUPPRESSION_MINUTES || minutes > MAX_SUPPRESSION_MINUTES {
            return Err(
                ConfigError::ValidationError(
                    "Notification suppression must be between 1 and 60 minutes".to_owned(),
                ),
            );
        }
        self.notifications.suppression_minutes = minutes;
        Ok(())
    }
}

} // verus!
