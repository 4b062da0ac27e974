use battery_monitor::device::{ConnectionStatus, ConnectionType, CoreError, Device, DeviceType};
use battery_monitor::sources::{
    bluetooth_devices, combine_scans, create_device_from_bt_info, BluetoothDeviceInfo, FileRead,
    PowerSupplyEntry, SupplyEntry, UsbDeviceEntry, UsbScanner,
};

fn text(s: &str) -> FileRead {
    FileRead::Text(s.to_string())
}

fn battery_entry(name: &str, capacity: FileRead, status: FileRead, model: FileRead) -> PowerSupplyEntry {
    PowerSupplyEntry {
        name: name.to_string(),
        kind: Ok("Battery\n".to_string()),
        capacity,
        status,
        model_name: model,
    }
}

fn dev(id: &str) -> Device {
    Device {
        id: id.to_string(),
        name: id.to_string(),
        device_type: DeviceType::Unknown,
        connection_type: ConnectionType::USB,
        battery_level: None,
        connection_status: ConnectionStatus::Connected,
        last_seen: 0,
    }
}

#[test]
fn test_usb_scanner_creation() {
    let scanner = UsbScanner::new();
    let devices = scanner.scan_devices(&Ok(vec![]), &Ok(vec![]));
    assert!(devices.is_empty());
}

#[test]
fn failing_source_contributes_nothing() {
    let bluetooth: Result<Vec<Device>, CoreError> =
        Err(CoreError::DBusError("bus unavailable".to_string()));
    let peripherals = Ok(vec![dev("p1"), dev("p2")]);
    let all = combine_scans(bluetooth, peripherals);
    assert_eq!(all, vec![dev("p1"), dev("p2")]);
    let none = combine_scans(Ok(vec![]), Ok(vec![]));
    assert!(none.is_empty());
}

#[test]
fn power_supply_battery_record() {
    let scanner = UsbScanner::new();
    let e = battery_entry("hid-00:11-battery", text(" 87\n"), text("Discharging\n"), text("MX Master Mouse\n"));
    let d = scanner.create_power_supply_device(&e).unwrap();
    assert_eq!(d.id, "power_supply_hid-00:11-battery");
    assert_eq!(d.name, "MX Master Mouse");
    assert_eq!(d.device_type, DeviceType::Mouse);
    assert_eq!(d.connection_type, ConnectionType::USB);
    assert_eq!(d.battery_level, Some(87));
    assert_eq!(d.connection_status, ConnectionStatus::Connected);
}

#[test]
fn power_supply_defaults_and_mediums() {
    let scanner = UsbScanner::new();
    let e = battery_entry("wireless_kbd", text("abc"), FileRead::Missing, FileRead::Missing);
    let d = scanner.create_power_supply_device(&e).unwrap();
    assert_eq!(d.name, "wireless_kbd");
    assert_eq!(d.battery_level, None);
    assert_eq!(d.connection_type, ConnectionType::Wireless2_4G);
    assert_eq!(d.connection_status, ConnectionStatus::Disconnected);
    let e = battery_entry("BAT0", text("300"), text("Not charging"), FileRead::Unreadable("denied".to_string()));
    let d = scanner.create_power_supply_device(&e).unwrap();
    assert_eq!(d.name, "BAT0");
    assert_eq!(d.battery_level, None);
    assert_eq!(d.connection_type, ConnectionType::USB);
    let e = battery_entry("BAT1", text("100"), text("Full"), text("   "));
    let d = scanner.create_power_supply_device(&e).unwrap();
    assert_eq!(d.name, "BAT1");
    assert_eq!(d.connection_status, ConnectionStatus::Connected);
}

#[test]
fn power_supply_refusals() {
    let scanner = UsbScanner::new();
    let mut e = battery_entry("AC", text("1"), text("Charging"), FileRead::Missing);
    e.kind = Ok("Mains\n".to_string());
    assert!(matches!(scanner.create_power_supply_device(&e), Err(CoreError::DeviceDetectionFailed(_))));
    e.kind = Err("gone".to_string());
    assert!(matches!(scanner.create_power_supply_device(&e), Err(CoreError::SystemApiError(_))));
    let e = battery_entry("BAT0", FileRead::Unreadable("io".to_string()), text("Full"), FileRead::Missing);
    assert!(matches!(scanner.create_power_supply_device(&e), Err(CoreError::SystemApiError(_))));
}

#[test]
fn power_supply_listing_keeps_batteries_with_levels() {
    let scanner = UsbScanner::new();
    let mut ac = battery_entry("AC", FileRead::Missing, FileRead::Missing, FileRead::Missing);
    ac.kind = Ok("Mains".to_string());
    let listing = Ok(vec![
        Ok(battery_entry("BAT0", text("55"), text("Charging"), FileRead::Missing)),
        Ok(ac),
        Ok(battery_entry("BAT1", FileRead::Missing, text("Full"), FileRead::Missing)),
        Ok(battery_entry("BAT2", text("9"), text("Full"), FileRead::Missing)),
    ]);
    let devices = scanner.scan_power_supply_devices(&listing).unwrap();
    let ids: Vec<&str> = devices.iter().map(|d| d.id.as_str()).collect();
    assert_eq!(ids, vec!["power_supply_BAT0", "power_supply_BAT2"]);
    let broken = Ok(vec![
        Ok(battery_entry("BAT0", text("55"), text("Charging"), FileRead::Missing)),
        Err("entry vanished".to_string()),
    ]);
    let kept = scanner.scan_power_supply_devices(&broken).unwrap();
    assert_eq!(kept.len(), 1);
    assert_eq!(kept[0].id, "power_supply_BAT0");
    assert!(scanner.scan_power_supply_devices(&Err("no dir".to_string())).is_err());
}

fn hid_entry(name: &str, power: Option<Result<Vec<Result<SupplyEntry, String>>, String>>) -> UsbDeviceEntry {
    UsbDeviceEntry {
        name: name.to_string(),
        product: text("Wireless Keyboard\n"),
        manufacturer: text("Logitech\n"),
        device_class: text("03\n"),
        power,
    }
}

fn supply(name: &str, capacity: FileRead) -> Result<SupplyEntry, String> {
    Ok(SupplyEntry { name: name.to_string(), capacity })
}

#[test]
fn usb_hid_record() {
    let scanner = UsbScanner::new();
    let power = Some(Ok(vec![
        supply("control", text("12")),
        supply("supply_a", text("x")),
        supply("supply_b", text("64\n")),
        supply("supply_c", text("10")),
    ]));
    let d = scanner.create_usb_hid_device(&hid_entry("1-2", power)).unwrap();
    assert_eq!(d.id, "usb_1-2");
    assert_eq!(d.name, "Logitech Wireless Keyboard");
    assert_eq!(d.device_type, DeviceType::Keyboard);
    assert_eq!(d.connection_type, ConnectionType::USB);
    assert_eq!(d.connection_status, ConnectionStatus::Connected);
    assert_eq!(d.battery_level, Some(64));
}

#[test]
fn usb_hid_without_manufacturer_or_power() {
    let scanner = UsbScanner::new();
    let mut e = hid_entry("3-1", None);
    e.manufacturer = FileRead::Missing;
    let d = scanner.create_usb_hid_device(&e).unwrap();
    assert_eq!(d.name, "Wireless Keyboard");
    assert_eq!(d.battery_level, None);
    let blocked = Some(Ok(vec![supply("supply_a", FileRead::Unreadable("io".to_string())), supply("supply_b", text("50"))]));
    assert!(scanner.get_usb_battery_level(&blocked).is_err());
    assert!(scanner.get_usb_battery_level(&None).is_err());
}

#[test]
fn usb_refusals() {
    let scanner = UsbScanner::new();
    let mut e = hid_entry("1-1", None);
    e.device_class = text("09");
    assert!(matches!(scanner.create_usb_hid_device(&e), Err(CoreError::DeviceDetectionFailed(_))));
    e.device_class = FileRead::Missing;
    assert!(scanner.create_usb_hid_device(&e).is_err());
    let mut e = hid_entry("1-1", None);
    e.product = FileRead::Missing;
    assert!(matches!(scanner.create_usb_hid_device(&e), Err(CoreError::DeviceDetectionFailed(_))));
    let listing = Ok(vec![Ok(hid_entry("a", None)), Ok(e), Ok(hid_entry("b", None))]);
    let devices = scanner.scan_usb_hid_devices(&listing).unwrap();
    assert_eq!(devices.len(), 2);
    assert_eq!(devices[1].id, "usb_b");
}

#[test]
fn combined_peripheral_scan() {
    let scanner = UsbScanner::new();
    let power = Ok(vec![Ok(battery_entry("BAT0", text("55"), text("Charging"), FileRead::Missing))]);
    let bus = Err("no bus".to_string());
    let devices = scanner.scan_devices(&power, &bus);
    assert_eq!(devices.len(), 1);
    assert_eq!(devices[0].battery_level, Some(55));
}

fn info(name: &str, connected: bool, class: Option<u32>, battery: Option<u8>) -> BluetoothDeviceInfo {
    BluetoothDeviceInfo {
        name: name.to_string(),
        connected,
        device_class: class,
        uuids: vec![],
        battery_level: battery,
    }
}

#[test]
fn bluetooth_records() {
    let d = create_device_from_bt_info(
        "/org/bluez/hci0/dev_AA".to_string(),
        info("WH-1000XM4", true, Some(0x240404), Some(80)),
    );
    assert_eq!(d.id, "/org/bluez/hci0/dev_AA");
    assert_eq!(d.device_type, DeviceType::Headphones);
    assert_eq!(d.connection_type, ConnectionType::Bluetooth);
    assert_eq!(d.battery_level, Some(80));
    assert_eq!(d.connection_status, ConnectionStatus::Connected);
    let found = vec![
        ("a".to_string(), info("Mouse", false, None, None)),
        ("b".to_string(), info("", true, None, Some(3))),
        ("c".to_string(), info("Pixel phone", true, None, Some(40))),
    ];
    let devices = bluetooth_devices(found);
    let ids: Vec<&str> = devices.iter().map(|d| d.id.as_str()).collect();
    assert_eq!(ids, vec!["a", "c"]);
    assert_eq!(devices[1].device_type, DeviceType::Mobile);
}

#[test]
fn levels_above_a_hundred_are_dropped() {
    let scanner = UsbScanner::new();
    let e = battery_entry("BAT0", text("150\n"), text("Charging\n"), FileRead::Missing);
    let d = scanner.create_power_supply_device(&e).unwrap();
    assert_eq!(d.battery_level, None);
    assert_eq!(d.connection_status, ConnectionStatus::Connected);
    let e = battery_entry("BAT0", text("100"), text("Full"), FileRead::Missing);
    assert_eq!(scanner.create_power_supply_device(&e).unwrap().battery_level, Some(100));
    let listing = Ok(vec![Ok(battery_entry("BAT1", text("101"), text("Full"), FileRead::Missing))]);
    assert!(scanner.scan_power_supply_devices(&listing).unwrap().is_empty());
    let power = Some(Ok(vec![supply("supply_a", text("180")), supply("supply_b", text("60"))]));
    assert_eq!(scanner.get_usb_battery_level(&power).unwrap(), 60);
    let d = create_device_from_bt_info("x".to_string(), info("Buds", true, None, Some(150)));
    assert_eq!(d.battery_level, None);
    let d = create_device_from_bt_info("x".to_string(), info("Buds", true, None, Some(100)));
    assert_eq!(d.battery_level, Some(100));
}

#[test]
fn unreadable_bus_entry_is_skipped() {
    let scanner = UsbScanner::new();
    let listing = Ok(vec![Ok(hid_entry("a", None)), Err("vanished".to_string()), Ok(hid_entry("b", None))]);
    let devices = scanner.scan_usb_hid_devices(&listing).unwrap();
    assert_eq!(devices.len(), 2);
}
