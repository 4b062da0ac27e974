//! The tracked device record, its classification enums, the events the
//! registry emits about it, and the name/class heuristic that picks a
//! category.
use crate::config::span_of_secs;
use crate::text::{has_infix, lower_of, lowercase, str_contains};
use core::time::Duration;
use vstd::prelude::*;

verus! {

/// What kind of peripheral a device is.
#[derive(Debug, Clone, Copy, PartialEq, Eq, Structural)]
pub enum DeviceType {
    Mouse,
    Keyboard,
    Mobile,
    Buds,
    Headphones,
    Tablet,
    Unknown,
}

/// How a device reaches the host.
#[derive(Debug, Clone, Copy, PartialEq, Eq, Structural)]
pub enum ConnectionType {
    Bluetooth,
    USB,
    Wireless2_4G,
}

/// Whether a device is currently connected.
#[derive(Debug, Clone, Copy, PartialEq, Eq, Structural)]
pub enum ConnectionStatus {
    Connected,
    Disconnected,
}

/// A tracked peripheral. `last_seen` is a wall-clock reading in
/// milliseconds since the Unix epoch.
#[derive(Debug)]
pub struct Device {
    pub id: String,
    pub name: String,
    pub device_type: DeviceType,
    pub connection_type: ConnectionType,
    pub battery_level: Option<u8>,
    pub connection_status: ConnectionStatus,
    pub last_seen: u64,
}

/// The mathematical value of a [`Device`].
pub struct DeviceView {
    pub id: Seq<char>,
    pub name: Seq<char>,
    pub device_type: DeviceType,
    pub connection_type: ConnectionType,
    pub battery_level: Option<u8>,
    pub connection_status: ConnectionStatus,
    pub last_seen: u64,
}

impl View for Device {
    type V = DeviceView;

    open spec fn view(&self) -> DeviceView {
        DeviceView {
            id: self.id@,
            name: self.name@,
            device_type: self.device_type,
            connection_type: self.connection_type,
            battery_level: self.battery_level,
            connection_status: self.connection_status,
            last_seen: self.last_seen,
        }
    }
}

/// The views of a list of devices, in order.
pub open spec fn device_views(s: Seq<Device>) -> Seq<DeviceView> {
    s.map_values(|d: Device| d@)
}

impl Clone for Device {
    fn clone(&self) -> (r: Self)
        ensures
            r@ == self@,
    {
        Device {
            id: self.id.clone(),
            name: self.name.clone(),
            device_type: self.device_type,
            connection_type: self.connection_type,
            battery_level: self.battery_level,
            connection_status: self.connection_status,
            last_seen: self.last_seen,
        }
    }
}

impl PartialEq for Device {
    fn eq(&self, other: &Device) -> (r: bool)
        ensures
            r == (self@ == other@),
    {
        self.id == other.id && self.name == other.name && self.device_type == other.device_type
            && self.connection_type == other.connection_type && self.battery_level
            == other.battery_level && self.connection_status == other.connection_status
            && self.last_seen == other.last_seen
    }
}

impl vstd::std_specs::cmp::PartialEqSpecImpl for Device {
    open spec fn obeys_eq_spec() -> bool {
        true
    }

    open spec fn eq_spec(&self, other: &Device) -> bool {
        self@ == other@
    }
}

/// A change the registry observed during one scan pass.
#[derive(Debug)]
pub enum DeviceEvent {
    DeviceAdded(Device),
    DeviceUpdated(Device),
    DeviceRemoved(String),
    BatteryChanged(String, u8),
}

/// The mathematical value of a [`DeviceEvent`].
pub enum EventView {
    Added(DeviceView),
    Updated(DeviceView),
    Removed(Seq<char>),
    BatteryChanged(Seq<char>, u8),
}

impl EventView {
    /// The id of the device the event is about.
    pub open spec fn subject(self) -> Seq<char> {
        match self {
            EventView::Added(d) => d.id,
            EventView::Updated(d) => d.id,
            EventView::Removed(id) => id,
            EventView::BatteryChanged(id, _) => id,
        }
    }
}

impl View for DeviceEvent {
    type V = EventView;

    open spec fn view(&self) -> EventView {
        match self {
            DeviceEvent::DeviceAdded(d) => EventView::Added(d@),
            DeviceEvent::DeviceUpdated(d) => EventView::Updated(d@),
            DeviceEvent::DeviceRemoved(id) => EventView::Removed(id@),
            DeviceEvent::BatteryChanged(id, level) => EventView::BatteryChanged(id@, *level),
        }
    }
}

/// The views of a list of events, in order.
pub open spec fn event_views(s: Seq<DeviceEvent>) -> Seq<EventView> {
    s.map_values(|e: DeviceEvent| e@)
}

impl Clone for DeviceEvent {
    fn clone(&self) -> (r: Self)
        ensures
            r@ == self@,
    {
        match self {
            DeviceEvent::DeviceAdded(d) => DeviceEvent::DeviceAdded(d.clone()),
            DeviceEvent::DeviceUpdated(d) => DeviceEvent::DeviceUpdated(d.clone()),
            DeviceEvent::DeviceRemoved(id) => DeviceEvent::DeviceRemoved(id.clone()),
            DeviceEvent::BatteryChanged(id, level) => DeviceEvent::BatteryChanged(
                id.clone(),
                *level,
            ),
        }
    }
}

impl PartialEq for DeviceEvent {
    fn eq(&self, other: &DeviceEvent) -> (r: bool)
        ensures
            r == (self@ == other@),
    {
        match self {
            DeviceEvent::DeviceAdded(a) => match other {
                DeviceEvent::DeviceAdded(b) => a.eq(b),
                _ => false,
            },
            DeviceEvent::DeviceUpdated(a) => match other {
                DeviceEvent::DeviceUpdated(b) => a.eq(b),
                _ => false,
            },
            DeviceEvent::DeviceRemoved(a) => match other {
                DeviceEvent::DeviceRemoved(b) => a.eq(b),
                _ => false,
            },
            DeviceEvent::BatteryChanged(a, x) => match other {
                DeviceEvent::BatteryChanged(b, y) => a.eq(b) && *x == *y,
                _ => false,
            },
        }
    }
}

impl vstd::std_specs::cmp::PartialEqSpecImpl for DeviceEvent {
    open spec fn obeys_eq_spec() -> bool {
        true
    }

    open spec fn eq_spec(&self, other: &DeviceEvent) -> bool {
        self@ == other@
    }
}

/// What can go wrong in device discovery and monitoring.
#[derive(Debug, Clone)]
pub enum CoreError {
    /// A device could not be recognised; the text says why.
    DeviceDetectionFailed(String),
    /// The platform refused access to a device.
    PermissionDenied { device_id: String },
    /// A platform call failed; the text is its message.
    SystemApiError(String),
    /// The system bus failed; the text is its message.
    DBusError(String),
    /// `start_monitoring` on a monitor that is already running.
    MonitorAlreadyRunning,
    /// The monitor is not running.
    MonitorNotRunning,
    /// `start_monitoring` on a monitor that was stopped: a stopped monitor
    /// does not start again.
    MonitorStopped,
}

/// The largest battery level, in percent.
pub const MAX_LEVEL: u8 = 100;

/// A battery level, when present, is a percentage.
pub open spec fn level_in_range(level: Option<u8>) -> bool {
    level is Some ==> level->0 <= MAX_LEVEL
}

/// The record's battery level, when present, is a percentage.
pub open spec fn battery_in_range(d: DeviceView) -> bool {
    level_in_range(d.battery_level)
}

/// Every record's battery level, when present, is a percentage.
pub open spec fn all_in_range(s: Seq<DeviceView>) -> bool {
    forall|k: int| 0 <= k < s.len() ==> battery_in_range(#[trigger] s[k])
}

/// Two records agree in every field but the time stamp.
pub open spec fn agrees_except_time(expected: DeviceView, actual: DeviceView) -> bool {
    DeviceView { last_seen: actual.last_seen, ..expected } == actual
}

/// Relies on `std::time::SystemTime::now`, read against the Unix epoch: the
/// time since the epoch, or nothing for a clock set before it.
#[verifier::external_body]
fn time_since_epoch() -> (r: Option<Duration>) {
    std::time::SystemTime::now().duration_since(std::time::UNIX_EPOCH).ok()
}

/// Relies on `std::time::Duration::as_millis`: the whole milliseconds of a
/// span, a thousand per second for a span of whole seconds.
#[verifier::external_body]
fn span_millis(d: Duration) -> (r: u128)
    ensures
        forall|s: u64| d == span_of_secs(s) ==> r == s * 1000,
{
    d.as_millis()
}

/// The whole milliseconds of a span, saturated at the largest `u64`.
pub fn millis_in(d: Duration) -> (r: u64)
    ensures
        forall|s: u64| d == span_of_secs(s) && s <= u64::MAX / 1000 ==> r == s * 1000,
{
    let ms = span_millis(d);
    if ms > u64::MAX as u128 {
        u64::MAX
    } else {
        ms as u64
    }
}

/// The wall clock in whole milliseconds since the Unix epoch; 0 for a clock
/// set before it.
pub fn clock_millis() -> (r: u64) {
    match time_since_epoch() {
        Some(d) => millis_in(d),
        None => 0,
    }
}

/// Relies on `uuid::Uuid::new_v4` and its `Display`: a fresh random id in the
/// 36-character hyphenated form.
#[verifier::external_body]
fn random_id() -> (r: String)
    ensures
        r@.len() == 36,
{
    uuid::Uuid::new_v4().to_string()
}

impl Device {
    /// A disconnected device with no battery reading under a fresh random id.
    pub fn new(name: String, device_type: DeviceType, connection_type: ConnectionType) -> (r:
        Device)
        ensures
            r@.id.len() == 36,
            r@.name == name@,
            r@.device_type == device_type,
            r@.connection_type == connection_type,
            r@.battery_level is None,
            r@.connection_status == ConnectionStatus::Disconnected,
    {
        Device {
            id: random_id(),
            name,
            device_type,
            connection_type,
            battery_level: None,
            connection_status: ConnectionStatus::Disconnected,
            last_seen: clock_millis(),
        }
    }

    /// A disconnected device with no battery reading under the given id,
    /// stamped with the current time.
    pub fn with_id(
        id: String,
        name: String,
        device_type: DeviceType,
        connection_type: ConnectionType,
    ) -> (r: Device)
        ensures
            r@.id == id@,
            r@.name == name@,
            r@.device_type == device_type,
            r@.connection_type == connection_type,
            r@.battery_level is None,
            r@.connection_status == ConnectionStatus::Disconnected,
    {
        Device {
            id,
            name,
            device_type,
            connection_type,
            battery_level: None,
            connection_status: ConnectionStatus::Disconnected,
            last_seen: clock_millis(),
        }
    }

    /// Records a battery reading and refreshes `last_seen`.
    pub fn update_battery(&mut self, level: Option<u8>)
        ensures
            final(self)@ == (DeviceView {
                battery_level: level,
                last_seen: final(self)@.last_seen,
                ..old(self)@
            }),
    {
        self.battery_level = level;
        self.last_seen = clock_millis();
    }

    /// Records the connection state and refreshes `last_seen`.
    pub fn set_connected(&mut self, connected: bool)
        ensures
            final(self)@ == (DeviceView {
                connection_status: if connected {
                    ConnectionStatus::Connected
                } else {
                    ConnectionStatus::Disconnected
                },
                last_seen: final(self)@.last_seen,
                ..old(self)@
            }),
    {
        self.connection_status = if connected {
            ConnectionStatus::Connected
        } else {
            ConnectionStatus::Disconnected
        };
        self.last_seen = clock_millis();
    }
}

/// Bluetooth class-of-device code of a pointing device (mouse).
pub const CLASS_MOUSE: u32 = 0x002580;

/// Bluetooth class-of-device code of a keyboard.
pub const CLASS_KEYBOARD: u32 = 0x002540;

/// Bluetooth class-of-device code of a headset or headphones.
pub const CLASS_HEADPHONES: u32 = 0x240404;

/// The category of a device whose lowercased name is `lowered`: an exact
/// class code wins, otherwise the first matching name fragment decides.
pub open spec fn category_of(lowered: Seq<char>, class: Option<u32>) -> DeviceType {
    if class == Some(CLASS_MOUSE) {
        DeviceType::Mouse
    } else if class == Some(CLASS_KEYBOARD) {
        DeviceType::Keyboard
    } else if class == Some(CLASS_HEADPHONES) {
        DeviceType::Headphones
    } else if has_infix(lowered, "mouse"@) {
        DeviceType::Mouse
    } else if has_infix(lowered, "keyboard"@) {
        DeviceType::Keyboard
    } else if has_infix(lowered, "headphone"@) || has_infix(lowered, "headset"@) {
        DeviceType::Headphones
    } else if has_infix(lowered, "buds"@) || has_infix(lowered, "airpods"@) {
        DeviceType::Buds
    } else if has_infix(lowered, "phone"@) || has_infix(lowered, "mobile"@) {
        DeviceType::Mobile
    } else if has_infix(lowered, "tablet"@) || has_infix(lowered, "ipad"@) {
        DeviceType::Tablet
    } else {
        DeviceType::Unknown
    }
}

/// The category of a device from its already-lowercased name and optional
/// class code.
pub fn classify_lowered(lowered: &str, device_class: Option<u32>) -> (r: DeviceType)
    ensures
        r == category_of(lowered@, device_class),
{
    match device_class {
        Some(CLASS_MOUSE) => return DeviceType::Mouse,
        Some(CLASS_KEYBOARD) => return DeviceType::Keyboard,
        Some(CLASS_HEADPHONES) => return DeviceType::Headphones,
        _ => {},
    }
    if str_contains(lowered, "mouse") {
        DeviceType::Mouse
    } else if str_contains(lowered, "keyboard") {
        DeviceType::Keyboard
    } else if str_contains(lowered, "headphone") || str_contains(lowered, "headset") {
        DeviceType::Headphones
    } else if str_contains(lowered, "buds") || str_contains(lowered, "airpods") {
        DeviceType::Buds
    } else if str_contains(lowered, "phone") || str_contains(lowered, "mobile") {
        DeviceType::Mobile
    } else if str_contains(lowered, "tablet") || str_contains(lowered, "ipad") {
        DeviceType::Tablet
    } else {
        DeviceType::Unknown
    }
}

/// The category of a device from its name and optional class code.
pub fn detect_device_type(device_name: &str, device_class: Option<u32>) -> (r: DeviceType)
    ensures
        r == category_of(lower_of(device_name@), device_class),
{
    let lowered = lowercase(device_name);
    classify_lowered(lowered.as_str(), device_class)
}

} // verus!
