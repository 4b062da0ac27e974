use battery_monitor::device::{ConnectionStatus, ConnectionType, Device, DeviceType};
use battery_monitor::notify::{DesktopNotificationManager, NotificationError, NotificationType};
use std::time::Duration;

fn create_test_device() -> Device {
    Device {
        id: "test-device".to_string(),
        name: "Test Mouse".to_string(),
        device_type: DeviceType::Mouse,
        connection_type: ConnectionType::Bluetooth,
        battery_level: Some(15),
        connection_status: ConnectionStatus::Connected,
        last_seen: 0,
    }
}

fn low(device: Device) -> NotificationType {
    NotificationType::LowBattery { device, threshold: 20 }
}

#[test]
fn test_notification_manager_creation() {
    let manager = DesktopNotificationManager::new();
    assert!(manager.is_enabled());
    assert_eq!(manager.get_notification_log().len(), 0);
}

#[test]
fn test_enable_disable_notifications() {
    let mut manager = DesktopNotificationManager::new();
    assert!(manager.is_enabled());

    manager.set_enabled(false);
    assert!(!manager.is_enabled());

    manager.set_enabled(true);
    assert!(manager.is_enabled());
}

#[test]
fn test_suppression_duration() {
    let mut manager = DesktopNotificationManager::new();
    let new_duration = Duration::from_secs(600);

    manager.set_suppression_duration(new_duration);
    assert_eq!(manager.suppression_duration(), new_duration);
}

#[test]
fn test_notification_log() {
    let mut manager = DesktopNotificationManager::new();
    let device = create_test_device();

    let notification = NotificationType::LowBattery {
        device: device.clone(),
        threshold: 20,
    };

    manager.add_to_log(notification, true);

    let log = manager.get_notification_log();
    assert_eq!(log.len(), 1);
    assert!(log[0].sent);

    manager.clear_log();
    assert_eq!(manager.get_notification_log().len(), 0);
}

#[test]
fn test_device_icon_mapping() {
    let manager = DesktopNotificationManager::new();

    assert_eq!(manager.get_device_icon(&DeviceType::Mouse), "input-mouse");
    assert_eq!(
        manager.get_device_icon(&DeviceType::Keyboard),
        "input-keyboard"
    );
    assert_eq!(manager.get_device_icon(&DeviceType::Mobile), "phone");
    assert_eq!(
        manager.get_device_icon(&DeviceType::Headphones),
        "audio-headphones"
    );
    assert_eq!(manager.get_device_icon(&DeviceType::Unknown), "battery");
}

#[test]
fn second_send_inside_window_is_suppressed() {
    let mut gate = DesktopNotificationManager::new();
    gate.set_suppression_duration(Duration::from_secs(300));
    let mut delivered = 0;
    // First send at t = 1000 ms.
    let n = low(create_test_device());
    assert!(gate.begin_send(&n, 1_000).is_ok());
    delivered += 1;
    assert!(gate.finish_send(n.clone(), 1_000, Ok(())).is_ok());
    // Second send 299.999 s later.
    let second = gate.begin_send(&n, 300_999);
    assert!(matches!(second, Err(NotificationError::Suppressed)));
    assert_eq!(delivered, 1);
    let log = gate.get_notification_log();
    assert_eq!(log.len(), 2);
    assert!(log[0].sent);
    assert!(!log[1].sent);
    // Exactly one window later it goes through again.
    assert!(gate.begin_send(&n, 301_000).is_ok());
}

#[test]
fn windows_are_per_device_and_classification() {
    let mut gate = DesktopNotificationManager::new();
    let n = low(create_test_device());
    gate.begin_send(&n, 10).unwrap();
    gate.finish_send(n.clone(), 10, Ok(())).unwrap();
    let connected = NotificationType::DeviceConnected(create_test_device());
    assert!(gate.begin_send(&connected, 20).is_ok());
    let mut other = create_test_device();
    other.id = "other".to_string();
    assert!(gate.begin_send(&low(other), 20).is_ok());
    assert!(gate.is_suppressed(&n, 20));
    // A clock that went back suppresses nothing.
    assert!(!gate.is_suppressed(&n, 5));
}

#[test]
fn disabled_gate_refuses_and_logs() {
    let mut gate = DesktopNotificationManager::new();
    gate.set_enabled(false);
    let n = low(create_test_device());
    assert!(matches!(gate.begin_send(&n, 0), Err(NotificationError::Disabled)));
    let log = gate.get_notification_log();
    assert_eq!(log.len(), 1);
    assert!(!log[0].sent);
}

#[test]
fn failed_delivery_is_logged_and_does_not_suppress() {
    let mut gate = DesktopNotificationManager::new();
    let n = low(create_test_device());
    gate.begin_send(&n, 0).unwrap();
    match gate.finish_send(n.clone(), 0, Err("no bus".to_string())) {
        Err(NotificationError::SystemError(m)) => assert_eq!(m, "no bus"),
        other => panic!("unexpected {:?}", other),
    }
    assert!(gate.begin_send(&n, 1).is_ok());
    assert!(!gate.get_notification_log()[0].sent);
}

#[test]
fn log_keeps_the_newest_thousand() {
    let mut gate = DesktopNotificationManager::new();
    gate.set_enabled(false);
    let n = low(create_test_device());
    for t in 0..1005u64 {
        let _ = gate.begin_send(&n, t);
    }
    let log = gate.get_notification_log();
    assert_eq!(log.len(), 1000);
    assert_eq!(log[0].timestamp, 5);
    assert_eq!(log[999].timestamp, 1004);
}

#[test]
fn notification_texts() {
    let gate = DesktopNotificationManager::new();
    let c = gate.notification_content(&low(create_test_device()));
    assert_eq!(c.summary, "Low Battery: Test Mouse");
    assert_eq!(c.body, "Battery level is 15% (below 20% threshold)");
    assert_eq!(c.icon, "input-mouse");
    assert!(c.urgent);
    let mut unknown = create_test_device();
    unknown.battery_level = None;
    let c = gate.notification_content(&low(unknown));
    assert_eq!(c.body, "Battery level is Unknown (below 20% threshold)");
    let c = gate.notification_content(&NotificationType::DeviceDisconnected(create_test_device()));
    assert_eq!(c.summary, "Device Disconnected");
    assert_eq!(c.body, "Test Mouse has been disconnected");
    assert!(!c.urgent);
    let c = gate.notification_content(&NotificationType::DeviceConnected(create_test_device()));
    assert_eq!(c.body, "Test Mouse is now connected");
}

#[test]
fn second_send_after_window_is_sent() {
    let mut gate = DesktopNotificationManager::new();
    let n = low(create_test_device());
    gate.begin_send(&n, 0).unwrap();
    gate.finish_send(n.clone(), 0, Ok(())).unwrap();
    assert!(gate.begin_send(&n, 300_000).is_ok());
    assert!(gate.finish_send(n.clone(), 300_000, Ok(())).is_ok());
    let log = gate.get_notification_log();
    assert_eq!(log.len(), 2);
    assert!(log[1].sent);
    assert_eq!(log[1].timestamp, 300_000);
    assert!(gate.is_suppressed(&n, 300_001));
}
