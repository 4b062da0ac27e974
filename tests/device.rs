use battery_monitor::device::{ConnectionStatus, ConnectionType, Device, DeviceType};
use battery_monitor::detect_device_type;
use battery_monitor::text::{decimal, parse_unsigned_numeral, str_contains, text_eq, trimmed};

#[test]
fn test_device_type_detection() {
    assert_eq!(
        detect_device_type("Logitech Mouse", Some(0x002580)),
        DeviceType::Mouse
    );
    assert_eq!(
        detect_device_type("Apple Magic Keyboard", Some(0x002540)),
        DeviceType::Keyboard
    );
    assert_eq!(
        detect_device_type("Sony WH-1000XM4", Some(0x240404)),
        DeviceType::Headphones
    );
    assert_eq!(detect_device_type("AirPods Pro", None), DeviceType::Buds);
    assert_eq!(detect_device_type("iPhone 13", None), DeviceType::Mobile);
    assert_eq!(
        detect_device_type("Unknown Device", None),
        DeviceType::Unknown
    );
}

#[test]
fn detection_by_name_fragments() {
    assert_eq!(detect_device_type("MX MOUSE", None), DeviceType::Mouse);
    assert_eq!(detect_device_type("Gaming Headset", None), DeviceType::Headphones);
    assert_eq!(detect_device_type("Galaxy Buds", None), DeviceType::Buds);
    assert_eq!(detect_device_type("My iPad", None), DeviceType::Tablet);
    assert_eq!(detect_device_type("Mobile thing", None), DeviceType::Mobile);
    // The class code wins over the name.
    assert_eq!(detect_device_type("Some Keyboard", Some(0x002580)), DeviceType::Mouse);
    // An unknown class code falls back to the name.
    assert_eq!(detect_device_type("Some Keyboard", Some(0x1f00)), DeviceType::Keyboard);
}

#[test]
fn new_device_has_random_id() {
    let a = Device::new("A".to_string(), DeviceType::Mouse, ConnectionType::USB);
    let b = Device::new("A".to_string(), DeviceType::Mouse, ConnectionType::USB);
    assert_eq!(a.id.len(), 36);
    assert_ne!(a.id, b.id);
    assert_eq!(a.battery_level, None);
    assert_eq!(a.connection_status, ConnectionStatus::Disconnected);
}

#[test]
fn device_mutators() {
    let mut d = Device::with_id(
        "x".to_string(),
        "Pad".to_string(),
        DeviceType::Tablet,
        ConnectionType::Bluetooth,
    );
    assert_eq!(d.id, "x");
    assert_eq!(d.connection_status, ConnectionStatus::Disconnected);
    d.update_battery(Some(42));
    assert_eq!(d.battery_level, Some(42));
    d.set_connected(true);
    assert_eq!(d.connection_status, ConnectionStatus::Connected);
    assert!(d.last_seen > 0);
    let c = d.clone();
    assert_eq!(c, d);
}

#[test]
fn text_helpers() {
    assert!(str_contains("wireless receiver", "less re"));
    assert!(!str_contains("abc", "abcd"));
    assert!(str_contains("abc", ""));
    assert!(text_eq("Full", "Full"));
    assert!(!text_eq("Full", "Full "));
    assert_eq!(decimal(0), "0");
    assert_eq!(decimal(255), "255");
    assert_eq!(decimal(1000), "1000");
}

#[test]
fn numeral_parsing_follows_std() {
    for s in ["0", "7", "255", "+42", "256", "", "+", "-1", "-0", "12a", " 1", "0099"] {
        let std_value = s.parse::<u8>().ok().map(|v| v as u32);
        assert_eq!(parse_unsigned_numeral(s, 10, 255), std_value, "decimal {:?}", s);
    }
    for s in ["03", "3", "ff", "FF", "e0", "+a", "ffffffff", "100000000", "g", ""] {
        let std_value = u32::from_str_radix(s, 16).ok();
        assert_eq!(parse_unsigned_numeral(s, 16, 0xffff_ffff), std_value, "hex {:?}", s);
    }
}

#[test]
fn trimming_follows_std() {
    for s in ["", "  ", "Charging\n", "\t Full \r\n", "\u{3000}x\u{2009}", "a b", "\u{85}Bat\u{a0}", "\u{200b}z"] {
        assert_eq!(trimmed(s), s.trim(), "{:?}", s);
    }
}
