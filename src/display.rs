//! Short human-readable renderings of device records.
use crate::device::{ConnectionStatus, ConnectionType, Device, DeviceType};
use crate::text::{decimal, decimal_of, join};
use vstd::prelude::*;

verus! {

/// `name: level%`, or `name: --` without a reading.
pub open spec fn display_text_of(name: Seq<char>, level: Option<u8>) -> Seq<char> {
    match level {
        Some(l) => name + ": "@ + decimal_of(l as nat) + "%"@,
        None => name + ": --"@,
    }
}

/// The one-line summary of a device.
pub fn format_device_display_text(device: &Device) -> (r: String)
    ensures
        r@ == display_text_of(device.name@, device.battery_level),
{
    match device.battery_level {
        Some(level) => {
            let head = join(device.name.as_str(), ": ");
            let digits = decimal(level as u64);
            let with_level = join(head.as_str(), digits.as_str());
            let r = join(with_level.as_str(), "%");
            assert(r@ =~= display_text_of(device.name@, device.battery_level));
            r
        },
        None => join(device.name.as_str(), ": --"),
    }
}

/// The symbolic icon name of a device category.
pub open spec fn symbolic_icon_of(t: DeviceType) -> Seq<char> {
    match t {
        DeviceType::Mouse => "input-mouse-symbolic"@,
        DeviceType::Keyboard => "input-keyboard-symbolic"@,
        DeviceType::Mobile => "phone-symbolic"@,
        DeviceType::Buds => "audio-headphones-symbolic"@,
        DeviceType::Headphones => "audio-headphones-symbolic"@,
        DeviceType::Tablet => "computer-tablet-symbolic"@,
        DeviceType::Unknown => "battery-symbolic"@,
    }
}

/// The symbolic icon name of a device category.
pub fn get_device_icon_name(device_type: &DeviceType) -> (r: &'static str)
    ensures
        r@ == symbolic_icon_of(*device_type),
{
    match device_type {
        DeviceType::Mouse => "input-mouse-symbolic",
        DeviceType::Keyboard => "input-keyboard-symbolic",
        DeviceType::Mobile => "phone-symbolic",
        DeviceType::Buds => "audio-headphones-symbolic",
        DeviceType::Headphones => "audio-headphones-symbolic",
        DeviceType::Tablet => "computer-tablet-symbolic",
        DeviceType::Unknown => "battery-symbolic",
    }
}

/// `Connected` or `Disconnected`.
pub fn get_connection_status_text(device: &Device) -> (r: String)
    ensures
        r@ == match device.connection_status {
            ConnectionStatus::Connected => "Connected"@,
            ConnectionStatus::Disconnected => "Disconnected"@,
        },
{
    match device.connection_status {
        ConnectionStatus::Connected => "Connected".to_owned(),
        ConnectionStatus::Disconnected => "Disconnected".to_owned(),
    }
}

/// How the device is attached, in words.
pub fn get_connection_type_text(device: &Device) -> (r: &'static str)
    ensures
        r@ == match device.connection_type {
            ConnectionType::Bluetooth => "Bluetooth"@,
            ConnectionType::USB => "USB"@,
            ConnectionType::Wireless2_4G => "Wireless 2.4G"@,
        },
{
    match device.connection_type {
        ConnectionType::Bluetooth => "Bluetooth",
        ConnectionType::USB => "USB",
        ConnectionType::Wireless2_4G => "Wireless 2.4G",
    }
}

/// Seconds in a minute, an hour and a day.
pub const MINUTE: u64 = 60;

pub const HOUR: u64 = 3600;

pub const DAY: u64 = 86400;

/// How long ago a time stamp was, both in milliseconds since the Unix epoch:
/// `Just now` under a minute, then whole minutes, hours or days (a stamp in
/// the future counts as now).
pub open spec fn last_seen_text(last_seen_ms: u64, now_ms: u64) -> Seq<char> {
    let ago: nat = if now_ms / 1000 >= last_seen_ms / 1000 {
        (now_ms / 1000 - last_seen_ms / 1000) as nat
    } else {
        0
    };
    if ago < MINUTE {
        "Just now"@
    } else if ago < HOUR {
        decimal_of(ago / MINUTE as nat) + " minutes ago"@
    } else if ago < DAY {
        decimal_of(ago / HOUR as nat) + " hours ago"@
    } else {
        decimal_of(ago / DAY as nat) + " days ago"@
    }
}

/// How long ago a device was last seen, relative to `now_ms`.
pub fn format_last_seen(last_seen_ms: u64, now_ms: u64) -> (r: String)
    ensures
        r@ == last_seen_text(last_seen_ms, now_ms),
{
    let last = last_seen_ms / 1000;
    let now = now_ms / 1000;
    let ago: u64 = if now >= last {
        now - last
    } else {
        0
    };
    if ago < MINUTE {
        "Just now".to_owned()
    } else if ago < HOUR {
        join(decimal(ago / MINUTE).as_str(), " minutes ago")
    } else if ago < DAY {
        join(decimal(ago / HOUR).as_str(), " hours ago")
    } else {
        join(decimal(ago / DAY).as_str(), " days ago")
    }
}

} // verus!
