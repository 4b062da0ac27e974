//! Device discovery and battery telemetry: a canonical device registry with
//! id-keyed diffing, the rules that turn raw source readings into device
//! records, a monitoring scheduler, and a notification gate with per-device
//! suppression windows.
pub mod bluetooth;
pub mod config;
pub mod device;
pub mod display;
pub mod keyboard;
pub mod monitor;
pub mod notify;
pub mod policy;
pub mod registry;
pub mod sources;
pub mod text;

pub use bluetooth::BluetoothDeviceType;
pub use config::{
    Config, ConfigError, FileConfigManager, MonitoringConfig, NotificationConfig, UiConfig,
};
pub use device::{
    detect_device_type, ConnectionStatus, ConnectionType, CoreError, Device, DeviceEvent,
    DeviceType,
};
pub use keyboard::{Keyboard, KeyboardType};
pub use monitor::{LinuxDeviceMonitor, MonitorState};
pub use notify::{DesktopNotificationManager, NotificationError, NotificationRecord, NotificationType};
pub use registry::DeviceRegistry;
pub use sources::UsbScanner;
