use battery_monitor::config::Config;
use battery_monitor::device::{ConnectionStatus, ConnectionType, Device, DeviceEvent, DeviceType};
use battery_monitor::monitor::{LinuxDeviceMonitor, MonitorState};
use battery_monitor::notify::NotificationType;
use battery_monitor::policy::handle_device_event;
use battery_monitor::registry::DeviceRegistry;
use battery_monitor::CoreError;
use std::time::Duration;

fn dev(id: &str, battery: Option<u8>) -> Device {
    Device {
        id: id.to_string(),
        name: format!("Device {}", id),
        device_type: DeviceType::Mouse,
        connection_type: ConnectionType::Bluetooth,
        battery_level: battery,
        connection_status: ConnectionStatus::Connected,
        last_seen: 1_000,
    }
}

fn ids(devices: &[Device]) -> Vec<String> {
    let mut v: Vec<String> = devices.iter().map(|d| d.id.clone()).collect();
    v.sort();
    v
}

#[test]
fn unseen_device_is_added_once() {
    let mut reg = DeviceRegistry::new();
    let events = reg.diff(vec![dev("A", Some(50))]);
    assert_eq!(events, vec![DeviceEvent::DeviceAdded(dev("A", Some(50)))]);
    assert_eq!(reg.len(), 1);
}

#[test]
fn identical_device_is_silent() {
    let mut reg = DeviceRegistry::new();
    reg.diff(vec![dev("A", Some(50)), dev("B", None)]);
    let events = reg.diff(vec![dev("A", Some(50)), dev("B", None)]);
    assert!(events.is_empty());
    assert_eq!(reg.len(), 2);
}

#[test]
fn battery_drop_gives_change_then_update() {
    let mut reg = DeviceRegistry::new();
    reg.diff(vec![dev("A", Some(30))]);
    let events = reg.diff(vec![dev("A", Some(15))]);
    assert_eq!(
        events,
        vec![
            DeviceEvent::BatteryChanged("A".to_string(), 15),
            DeviceEvent::DeviceUpdated(dev("A", Some(15))),
        ]
    );
}

#[test]
fn battery_lost_gives_update_only() {
    let mut reg = DeviceRegistry::new();
    reg.diff(vec![dev("A", Some(30))]);
    let events = reg.diff(vec![dev("A", None)]);
    assert_eq!(events, vec![DeviceEvent::DeviceUpdated(dev("A", None))]);
}

#[test]
fn other_change_gives_update_only() {
    let mut reg = DeviceRegistry::new();
    reg.diff(vec![dev("A", Some(30))]);
    let mut moved = dev("A", Some(30));
    moved.connection_status = ConnectionStatus::Disconnected;
    let events = reg.diff(vec![moved.clone()]);
    assert_eq!(events, vec![DeviceEvent::DeviceUpdated(moved)]);
}

#[test]
fn absent_device_is_removed() {
    let mut reg = DeviceRegistry::new();
    reg.diff(vec![dev("A", Some(30)), dev("B", Some(40))]);
    let events = reg.diff(vec![dev("B", Some(40))]);
    assert_eq!(events, vec![DeviceEvent::DeviceRemoved("A".to_string())]);
    assert_eq!(ids(&reg.snapshot()), vec!["B".to_string()]);
    assert!(reg.get(&"A".to_string()).is_none());
}

#[test]
fn registry_ids_follow_each_pass() {
    let mut reg = DeviceRegistry::new();
    let passes = vec![
        vec![dev("A", None), dev("B", None)],
        vec![dev("B", Some(3)), dev("C", None)],
        vec![],
        vec![dev("D", Some(9))],
    ];
    for pass in passes {
        let expected = ids(&pass);
        reg.diff(pass);
        assert_eq!(ids(&reg.snapshot()), expected);
    }
}

#[test]
fn empty_pass_removes_everything() {
    let mut reg = DeviceRegistry::new();
    reg.diff(vec![dev("A", None), dev("B", None)]);
    let events = reg.diff(vec![]);
    assert_eq!(events.len(), 2);
    assert_eq!(reg.len(), 0);
}

#[test]
fn low_battery_scenario_notifies_once() {
    let mut reg = DeviceRegistry::new();
    reg.diff(vec![dev("A", Some(50))]);
    let mut known = DeviceRegistry::new();
    known.put(dev("A", Some(50)));
    let mut config = Config::default();
    config.notifications.low_battery_threshold = 20;

    let events = reg.diff(vec![dev("A", Some(18))]);
    assert_eq!(
        events,
        vec![
            DeviceEvent::BatteryChanged("A".to_string(), 18),
            DeviceEvent::DeviceUpdated(dev("A", Some(18))),
        ]
    );
    let mut alerts = Vec::new();
    for e in events {
        if let Some(n) = handle_device_event(e, &config, &mut known) {
            alerts.push(n);
        }
    }
    assert_eq!(alerts.len(), 1);
    match &alerts[0] {
        NotificationType::LowBattery { device, threshold } => {
            assert_eq!(device.id, "A");
            assert_eq!(*threshold, 20);
        }
        other => panic!("unexpected notification {:?}", other),
    }
    assert_eq!(known.get(&"A".to_string()).unwrap().battery_level, Some(18));
}

#[test]
fn policy_connection_notices() {
    let config = Config::default();
    let mut known = DeviceRegistry::new();
    let added = handle_device_event(DeviceEvent::DeviceAdded(dev("A", None)), &config, &mut known);
    assert!(matches!(added, Some(NotificationType::DeviceConnected(_))));
    let removed =
        handle_device_event(DeviceEvent::DeviceRemoved("A".to_string()), &config, &mut known);
    assert!(matches!(removed, Some(NotificationType::DeviceDisconnected(_))));
    let again =
        handle_device_event(DeviceEvent::DeviceRemoved("A".to_string()), &config, &mut known);
    assert!(again.is_none());
    let mut quiet = Config::default();
    quiet.notifications.show_connect_disconnect = false;
    let silent = handle_device_event(DeviceEvent::DeviceAdded(dev("B", None)), &quiet, &mut known);
    assert!(silent.is_none());
    let high = handle_device_event(DeviceEvent::BatteryChanged("B".to_string(), 21), &quiet, &mut known);
    assert!(high.is_none());
    let low = handle_device_event(DeviceEvent::BatteryChanged("B".to_string(), 20), &quiet, &mut known);
    assert!(matches!(low, Some(NotificationType::LowBattery { .. })));
}

#[test]
fn start_twice_is_refused() {
    let mut monitor = LinuxDeviceMonitor::new().unwrap();
    assert!(monitor.start_monitoring(Duration::from_secs(30)).is_ok());
    monitor.on_tick(vec![dev("A", Some(10))]);
    let before = monitor.get_current_devices();
    let second = monitor.start_monitoring(Duration::from_secs(5));
    assert!(matches!(second, Err(CoreError::MonitorAlreadyRunning)));
    assert!(monitor.is_running());
    assert_eq!(monitor.interval(), Some(Duration::from_secs(30)));
    assert_eq!(monitor.get_current_devices(), before);
}

#[test]
fn stop_is_final_and_idempotent() {
    let mut monitor = LinuxDeviceMonitor::new().unwrap();
    monitor.start_monitoring(Duration::from_secs(30)).unwrap();
    let events = monitor.on_tick(vec![dev("A", None)]);
    assert_eq!(events.len(), 1);
    monitor.stop_monitoring();
    monitor.stop_monitoring();
    assert!(!monitor.is_running());
    assert!(monitor.on_tick(vec![]).is_empty());
    assert_eq!(monitor.get_current_devices().len(), 1);
    assert!(matches!(
        monitor.start_monitoring(Duration::from_secs(30)),
        Err(CoreError::MonitorStopped)
    ));
    let mut next = monitor.successor();
    assert!(next.start_monitoring(Duration::from_secs(30)).is_ok());
    assert_eq!(next.get_current_devices().len(), 1);
}

#[test]
fn idle_monitor_ignores_ticks_but_refreshes() {
    let mut monitor = LinuxDeviceMonitor::new().unwrap();
    assert!(monitor.on_tick(vec![dev("A", None)]).is_empty());
    assert_eq!(monitor.refresh_devices(vec![dev("A", None)]).len(), 1);
    assert_eq!(monitor.get_current_devices().len(), 1);
    let _ = MonitorState::Idle;
}

#[test]
fn stopping_an_idle_monitor_changes_nothing() {
    let mut monitor = LinuxDeviceMonitor::new().unwrap();
    monitor.stop_monitoring();
    assert!(!monitor.is_running());
    assert!(monitor.start_monitoring(Duration::from_secs(30)).is_ok());
    assert!(monitor.is_running());
}
