use battery_monitor::device::{ConnectionStatus, ConnectionType, Device, DeviceType};
use battery_monitor::display::{
    format_device_display_text, format_last_seen, get_connection_status_text,
    get_connection_type_text, get_device_icon_name,
};

fn create_test_device() -> Device {
    Device {
        id: "test-device".to_string(),
        name: "Test Mouse".to_string(),
        device_type: DeviceType::Mouse,
        connection_type: ConnectionType::Bluetooth,
        battery_level: Some(75),
        connection_status: ConnectionStatus::Connected,
        last_seen: 0,
    }
}

#[test]
fn test_device_display_formatting() {
    let device = create_test_device();
    let display_text = format_device_display_text(&device);
    assert_eq!(display_text, "Test Mouse: 75%");

    let mut device_no_battery = device;
    device_no_battery.battery_level = None;
    let display_text_no_battery = format_device_display_text(&device_no_battery);
    assert_eq!(display_text_no_battery, "Test Mouse: --");
}

#[test]
fn test_icon_name_mapping() {
    assert_eq!(
        get_device_icon_name(&DeviceType::Mouse),
        "input-mouse-symbolic"
    );
    assert_eq!(
        get_device_icon_name(&DeviceType::Keyboard),
        "input-keyboard-symbolic"
    );
    assert_eq!(get_device_icon_name(&DeviceType::Mobile), "phone-symbolic");
    assert_eq!(
        get_device_icon_name(&DeviceType::Headphones),
        "audio-headphones-symbolic"
    );
    assert_eq!(
        get_device_icon_name(&DeviceType::Unknown),
        "battery-symbolic"
    );
}

#[test]
fn test_connection_status_text() {
    let mut device = create_test_device();

    device.connection_status = ConnectionStatus::Connected;
    assert_eq!(get_connection_status_text(&device), "Connected");

    device.connection_status = ConnectionStatus::Disconnected;
    assert_eq!(get_connection_status_text(&device), "Disconnected");
}

#[test]
fn test_connection_type_text() {
    let mut device = create_test_device();

    device.connection_type = ConnectionType::Bluetooth;
    assert_eq!(get_connection_type_text(&device), "Bluetooth");

    device.connection_type = ConnectionType::USB;
    assert_eq!(get_connection_type_text(&device), "USB");

    device.connection_type = ConnectionType::Wireless2_4G;
    assert_eq!(get_connection_type_text(&device), "Wireless 2.4G");
}

#[test]
fn last_seen_texts() {
    assert_eq!(format_last_seen(100_000, 130_000), "Just now");
    assert_eq!(format_last_seen(0, 150_000), "2 minutes ago");
    assert_eq!(format_last_seen(0, 7_300_000), "2 hours ago");
    assert_eq!(format_last_seen(0, 3 * 86_400_000), "3 days ago");
    assert_eq!(format_last_seen(10_000, 0), "Just now");
}
