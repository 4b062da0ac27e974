use battery_monitor::bluetooth::{
    bluetooth_device_type, bluetooth_icon, BluetoothDevice, BluetoothDeviceType, BluetoothManager,
};
use battery_monitor::keyboard::{
    ajazz_battery_report, detect_keyboard_type, get_status_text, feature_battery_report, input_battery_report,
    is_keyboard_power_supply, is_likely_keyboard, standard_battery_report,
    validate_battery_value, wireless_input_report, wireless_query_response, Keyboard,
    KeyboardType,
};

fn keyboard(name: &str, battery: Option<u8>, kind: KeyboardType) -> Keyboard {
    Keyboard {
        name: name.to_string(),
        vendor_id: 0x05ac,
        product_id: 0x024f,
        battery_percentage: battery,
        keyboard_type: kind,
        path: "/dev/hidraw0".to_string(),
        serial_number: None,
    }
}

#[test]
fn keyboard_status_and_ids() {
    let k = keyboard("AK870", Some(80), KeyboardType::AjazzAK870);
    assert_eq!(k.device_id(), "05ac:024f");
    assert_eq!(k.get_icon(), "⌨️");
    assert_eq!(k.format_for_status(), "⌨️ AK870: 80%");
    let long = keyboard("Mechanical Keyboard Pro", None, KeyboardType::Mechanical);
    assert_eq!(long.get_icon(), "🔧");
    assert_eq!(long.format_for_status(), "🔧 Mechanica...");
    let mut small = keyboard("x", None, KeyboardType::Unknown);
    small.vendor_id = 0x1;
    small.product_id = 0xabcd;
    assert_eq!(small.device_id(), "0001:abcd");
}

#[test]
fn keyboard_families() {
    assert_eq!(detect_keyboard_type("AJAZZ AK870", 0, 0), KeyboardType::AjazzAK870);
    assert_eq!(detect_keyboard_type("whatever", 0x05ac, 0x024f), KeyboardType::AjazzAK870);
    assert_eq!(detect_keyboard_type("whatever", 0x1ea7, 1), KeyboardType::AjazzAK870);
    assert_eq!(detect_keyboard_type("Magic Keyboard", 0x05ac, 1), KeyboardType::AjazzAK870);
    assert_eq!(detect_keyboard_type("Trackpad", 0x05ac, 1), KeyboardType::Unknown);
    assert_eq!(detect_keyboard_type("Mechanical One", 0x046d, 1), KeyboardType::Mechanical);
    assert_eq!(detect_keyboard_type("Membrane One", 0x046d, 1), KeyboardType::Membrane);
    assert_eq!(detect_keyboard_type("Mouse", 0x046d, 1), KeyboardType::Unknown);
}

#[test]
fn keyboard_recognition() {
    assert!(is_likely_keyboard(1, 6, None, 0, 0));
    assert!(is_likely_keyboard(0, 0, Some("USB KEYBOARD"), 0, 0));
    assert!(!is_likely_keyboard(0, 0, Some("USB Mouse"), 0, 0));
    assert!(is_likely_keyboard(0, 0, None, 0x0483, 7));
    assert!(!is_likely_keyboard(1, 2, None, 0x05ac, 7));
    assert!(is_keyboard_power_supply("hid-aa:bb-battery", "", ""));
    assert!(is_keyboard_power_supply("BAT0", "AK870 Pro", ""));
    assert!(is_keyboard_power_supply("BAT0", "", "Ajazz"));
    assert!(!is_keyboard_power_supply("BAT0", "Laptop", "Lenovo"));
}

#[test]
fn battery_report_parsing() {
    assert!(validate_battery_value(50, &[1, 50, 50]));
    assert!(!validate_battery_value(50, &[50, 50, 50]));
    assert!(!validate_battery_value(9, &[1, 9]));
    assert!(!validate_battery_value(101, &[1, 2]));
    let mut buf = [0u8; 65];
    buf[0] = 0x01;
    buf[1] = 77;
    assert_eq!(standard_battery_report(&buf, 2), Some(77));
    assert_eq!(standard_battery_report(&buf, 1), None);
    buf[1] = 0;
    assert_eq!(standard_battery_report(&buf, 2), Some(0));
    let mut buf = [0u8; 65];
    buf[0] = 0x02;
    buf[3] = 200;
    buf[4] = 42;
    assert_eq!(ajazz_battery_report(&buf, 5), Some(42));
    assert_eq!(ajazz_battery_report(&buf, 4), None);
    let mut buf = [0u8; 65];
    buf[0] = 0x03;
    buf[1] = 5;
    buf[2] = 66;
    assert_eq!(feature_battery_report(&buf, 4, 8), Some(66));
    assert_eq!(feature_battery_report(&buf, 1, 8), None);
    let buf = [30u8, 30, 30, 30];
    assert_eq!(input_battery_report(&buf, 4), None);
    let buf = [2u8, 30, 40, 0];
    assert_eq!(input_battery_report(&buf, 4), Some(30));
    let buf = [0x10u8, 0xff, 0x8f, 0x20, 55, 0];
    assert_eq!(wireless_query_response(&buf, 6), Some(55));
    assert_eq!(wireless_query_response(&buf, 4), None);
    let buf = [0u8, 0, 0, 7, 45, 0];
    assert_eq!(wireless_input_report(&buf, 6), Some(45));
    let buf = [0x11u8, 3, 95, 1, 2, 3, 0, 0];
    assert_eq!(wireless_input_report(&buf, 8), Some(95));
    let buf = [0x12u8, 3, 95, 1, 2, 3, 0, 0];
    assert_eq!(wireless_input_report(&buf, 8), None);
    assert_eq!(wireless_input_report(&buf, 3), None);
}

#[test]
fn wireless_categories() {
    assert_eq!(bluetooth_device_type("Galaxy Buds2"), BluetoothDeviceType::Headphones);
    assert_eq!(bluetooth_device_type("MX Mouse"), BluetoothDeviceType::Mouse);
    assert_eq!(bluetooth_device_type("Pixel 7"), BluetoothDeviceType::Phone);
    assert_eq!(bluetooth_device_type("iPad Air"), BluetoothDeviceType::Tablet);
    assert_eq!(bluetooth_device_type("JBL Speaker"), BluetoothDeviceType::Speaker);
    assert_eq!(bluetooth_device_type("Car"), BluetoothDeviceType::Unknown);
    assert_eq!(bluetooth_icon(BluetoothDeviceType::Mouse), "🖱️");
}

#[test]
fn keyboard_list_status() {
    assert_eq!(get_status_text(&vec![]), "No keyboards");
    let ks = vec![
        keyboard("AK870", Some(80), KeyboardType::AjazzAK870),
        keyboard("Mechanical Keyboard Pro", None, KeyboardType::Mechanical),
    ];
    assert_eq!(get_status_text(&ks), "⌨️ AK870: 80% | 🔧 Mechanica...");
}

fn bt(name: &str, last: u8, battery: Option<u8>, kind: BluetoothDeviceType) -> BluetoothDevice {
    BluetoothDevice {
        name: name.to_string(),
        address: [0xaa, 0xbb, 0xcc, 0xdd, 0xee, last],
        battery_percentage: battery,
        device_type: kind,
    }
}

#[test]
fn wireless_manager() {
    let mut m = BluetoothManager::new();
    assert_eq!(m.get_status_text(), "No Bluetooth devices");
    m.add_device(bt("Car Kit", 1, None, BluetoothDeviceType::Unknown));
    assert_eq!(m.get_status_text(), "1 connected Bluetooth device(s)");
    m.add_device(bt("WH-1000XM4 Headphones", 2, Some(70), BluetoothDeviceType::Headphones));
    m.add_device(bt("MX Mouse", 3, Some(35), BluetoothDeviceType::Mouse));
    assert_eq!(m.get_status_text(), "🎧 WH-1000XM...: 70% | 🖱️ MX Mouse: 35%");
    assert!(!m.update_device([0xaa, 0xbb, 0xcc, 0xdd, 0xee, 3], bt("MX Mouse", 3, Some(35), BluetoothDeviceType::Mouse)));
    assert!(m.update_device([0xaa, 0xbb, 0xcc, 0xdd, 0xee, 3], bt("MX Mouse", 3, Some(30), BluetoothDeviceType::Mouse)));
    assert!(!m.update_device([0, 0, 0, 0, 0, 9], bt("X", 9, Some(30), BluetoothDeviceType::Mouse)));
    assert!(m.remove_device([0xaa, 0xbb, 0xcc, 0xdd, 0xee, 2]));
    assert!(!m.remove_device([0xaa, 0xbb, 0xcc, 0xdd, 0xee, 2]));
    assert_eq!(m.get_status_text(), "🖱️ MX Mouse: 30%");
    m.add_device(bt("MX Mouse 2", 3, None, BluetoothDeviceType::Mouse));
    assert_eq!(m.connected_devices.len(), 2);
    assert_eq!(m.get_status_text(), "2 connected Bluetooth device(s)");
    assert_eq!(bt("Pad", 4, Some(5), BluetoothDeviceType::Tablet).format_for_status(), "📟 Pad: 5%");
}
