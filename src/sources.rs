//! The rules that turn raw readings of the two device sources into device
//! records, and the merge of their contributions.
//!
//! The wireless pairing stack is read as a list of per-object records
//! ([`BluetoothDeviceInfo`]). The bus/power-supply enumeration is read as
//! directory listings whose attribute files are handed over as
//! [`FileRead`] values; a listing that failed, or an entry the listing could
//! not produce, is an `Err` carrying the platform's message.
use crate::device::{
    agrees_except_time, all_in_range, battery_in_range, category_of, detect_device_type,
    device_views, level_in_range, ConnectionStatus, MAX_LEVEL,
    ConnectionType, CoreError, Device, DeviceView,
};
use crate::text::{
    has_infix, has_prefix, join, lower_of, parse_unsigned, parse_unsigned_numeral, str_contains,
    str_starts_with, text_eq, trim_of, trimmed,
};
use vstd::prelude::*;

verus! {

/// One optional attribute file of a device entry.
pub enum FileRead {
    /// The file does not exist.
    Missing,
    /// The file exists but could not be read; the text is the reason.
    Unreadable(String),
    /// The file's contents.
    Text(String),
}

/// The contribution of a source: its devices, or nothing when it failed.
pub open spec fn contribution(r: Result<Vec<Device>, CoreError>) -> Seq<DeviceView> {
    match r {
        Ok(v) => device_views(v@),
        Err(_) => Seq::empty(),
    }
}

/// `actual` holds the `expected` records in order, each stamped with some
/// time.
pub open spec fn records_match(expected: Seq<DeviceView>, actual: Seq<DeviceView>) -> bool {
    expected.len() == actual.len() && forall|k: int|
        0 <= k < expected.len() ==> agrees_except_time(#[trigger] expected[k], actual[k])
}

/// Concatenates the contributions of two sources; a failed source
/// contributes nothing and does not affect the other.
pub fn combine_scans(
    first: Result<Vec<Device>, CoreError>,
    second: Result<Vec<Device>, CoreError>,
) -> (r: Vec<Device>)
    ensures
        device_views(r@) == contribution(first) + contribution(second),
{
    let mut all: Vec<Device> = Vec::new();
    match first {
        Ok(mut v) => {
            all.append(&mut v);
        },
        Err(_) => {},
    }
    match second {
        Ok(mut v) => {
            all.append(&mut v);
        },
        Err(_) => {},
    }
    assert(device_views(all@) =~= contribution(first) + contribution(second));
    all
}

/// The battery level a capacity text spells: the trimmed text read as a
/// decimal number from 0 to 100; anything else, larger numbers included,
/// gives no level.
pub open spec fn level_of_text(t: Seq<char>) -> Option<u8> {
    match parse_unsigned(trim_of(t), 10, MAX_LEVEL as int) {
        Some(v) => Some(v as u8),
        None => None,
    }
}

/// A reported level kept only when it is a percentage.
pub open spec fn percent(level: Option<u8>) -> Option<u8> {
    match level {
        Some(l) => if l <= MAX_LEVEL {
            Some(l)
        } else {
            None
        },
        None => None,
    }
}

/// Keeps a reported level only when it is a percentage.
pub fn checked_percent(level: Option<u8>) -> (r: Option<u8>)
    ensures
        r == percent(level),
        level_in_range(r),
{
    match level {
        Some(l) => if l <= MAX_LEVEL {
            Some(l)
        } else {
            None
        },
        None => None,
    }
}

/// Reads a capacity text leniently: anything but a number yields nothing.
pub fn read_level(text: &String) -> (r: Option<u8>)
    ensures
        r == level_of_text(text@),
        level_in_range(r),
{
    let t = trimmed(text.as_str());
    match parse_unsigned_numeral(t.as_str(), 10, MAX_LEVEL as u32) {
        Some(v) => Some(v as u8),
        None => None,
    }
}

// ---------------------------------------------------------------------
// Wireless pairing stack
// ---------------------------------------------------------------------

/// What the pairing stack reports of one remote device.
pub struct BluetoothDeviceInfo {
    pub name: String,
    pub connected: bool,
    pub device_class: Option<u32>,
    pub uuids: Vec<String>,
    pub battery_level: Option<u8>,
}

/// The record made from a pairing-stack report.
pub open spec fn bluetooth_record(id: Seq<char>, info: BluetoothDeviceInfo) -> DeviceView {
    DeviceView {
        id,
        name: info.name@,
        device_type: category_of(lower_of(info.name@), info.device_class),
        connection_type: ConnectionType::Bluetooth,
        battery_level: percent(info.battery_level),
        connection_status: if info.connected {
            ConnectionStatus::Connected
        } else {
            ConnectionStatus::Disconnected
        },
        last_seen: 0,
    }
}

/// Makes the record of one device reported by the pairing stack.
pub fn create_device_from_bt_info(device_id: String, info: BluetoothDeviceInfo) -> (r: Device)
    ensures
        agrees_except_time(bluetooth_record(device_id@, info), r@),
        battery_in_range(r@),
{
    let device_type = detect_device_type(info.name.as_str(), info.device_class);
    let mut device = Device::with_id(
        device_id,
        info.name,
        device_type,
        ConnectionType::Bluetooth,
    );
    device.set_connected(info.connected);
    device.update_battery(checked_percent(info.battery_level));
    device
}

/// The records of the reported devices that have a name, in order.
pub open spec fn bluetooth_records(found: Seq<(String, BluetoothDeviceInfo)>) -> Seq<DeviceView>
    decreases found.len(),
{
    if found.len() == 0 {
        Seq::empty()
    } else if found.last().1.name@.len() == 0 {
        bluetooth_records(found.drop_last())
    } else {
        bluetooth_records(found.drop_last()).push(
            bluetooth_record(found.last().0@, found.last().1),
        )
    }
}

proof fn lemma_bluetooth_records_in_range(found: Seq<(String, BluetoothDeviceInfo)>)
    ensures
        all_in_range(bluetooth_records(found)),
    decreases found.len(),
{
    if found.len() > 0 {
        lemma_bluetooth_records_in_range(found.drop_last());
    }
}

/// Makes the records of everything the pairing stack reported, skipping
/// devices without a name.
pub fn bluetooth_devices(found: Vec<(String, BluetoothDeviceInfo)>) -> (r: Vec<Device>)
    ensures
        records_match(bluetooth_records(found@), device_views(r@)),
        all_in_range(device_views(r@)),
{
    proof {
        lemma_bluetooth_records_in_range(found@);
    }
    let ghost all = found@;
    let mut rest = found;
    let mut rev: Vec<Device> = Vec::new();
    // Taken from the back, so the records come out reversed.
    while rest.len() > 0
        invariant
            rest@ == all.subrange(0, rest@.len() as int),
            rest@.len() <= all.len(),
            records_match(
                bluetooth_records(all).subrange(
                    bluetooth_records(rest@).len() as int,
                    bluetooth_records(all).len() as int,
                ).reverse(),
                device_views(rev@),
            ),
            bluetooth_records(all).subrange(0, bluetooth_records(rest@).len() as int)
                == bluetooth_records(rest@),
            bluetooth_records(rest@).len() <= bluetooth_records(all).len(),
        decreases rest@.len(),
    {
        let ghost before = rest@;
        let (id, info) = rest.pop().unwrap();
        assert(before.drop_last() =~= rest@);
        if info.name.unicode_len() > 0 {
            let d = create_device_from_bt_info(id, info);
            let ghost recs = bluetooth_records(all);
            let ghost lo = bluetooth_records(rest@).len() as int;
            let ghost hi = bluetooth_records(before).len() as int;
            assert(recs[lo] == bluetooth_records(before)[lo]);
            assert(recs.subrange(lo, recs.len() as int).reverse() =~= recs.subrange(
                hi,
                recs.len() as int,
            ).reverse().push(recs[lo]));
            assert(recs.subrange(0, lo) =~= recs.subrange(0, hi).subrange(0, lo));
            rev.push(d);
        }
    }
    let ghost recs = bluetooth_records(all);
    assert(all.subrange(0, 0) =~= Seq::<(String, BluetoothDeviceInfo)>::empty());
    assert(recs.subrange(0, recs.len() as int) =~= recs);
    let mut out: Vec<Device> = Vec::new();
    while rev.len() > 0
        invariant
            records_match(recs.subrange(0, out@.len() as int), device_views(out@)),
            records_match(recs.subrange(out@.len() as int, recs.len() as int).reverse(), device_views(rev@)),
            out@.len() <= recs.len(),
        decreases rev@.len(),
    {
        let d = rev.pop().unwrap();
        let ghost k = out@.len() as int;
        assert(recs.subrange(k, recs.len() as int).reverse()[rev@.len() as int] == recs[k]);
        assert(recs.subrange(k + 1, recs.len() as int).reverse() =~= recs.subrange(
            k,
            recs.len() as int,
        ).reverse().drop_last());
        out.push(d);
    }
    assert(recs.subrange(0, out@.len() as int) =~= recs);
    proof {
        lemma_bluetooth_records_in_range(all);
        assert forall|k: int| 0 <= k < out@.len() implies battery_in_range(
            #[trigger] device_views(out@)[k],
        ) by {
            assert(agrees_except_time(recs[k], device_views(out@)[k]));
            assert(battery_in_range(recs[k]));
        }
    }
    out
}

// ---------------------------------------------------------------------
// Power-supply and bus-attached peripherals
// ---------------------------------------------------------------------

/// One entry of the power-supply enumeration: its name and its `type`,
/// `capacity`, `status` and `model_name` files (`type` as read, or the
/// reason it could not be).
pub struct PowerSupplyEntry {
    pub name: String,
    pub kind: Result<String, String>,
    pub capacity: FileRead,
    pub status: FileRead,
    pub model_name: FileRead,
}

/// One `supply*`-style sub-entry of a bus device's power directory.
pub struct SupplyEntry {
    pub name: String,
    pub capacity: FileRead,
}

/// One entry of the bus-device enumeration: its name, its `product`,
/// `manufacturer` and `bDeviceClass` files, and its power directory
/// (`None` when there is none; otherwise its listing).
pub struct UsbDeviceEntry {
    pub name: String,
    pub product: FileRead,
    pub manufacturer: FileRead,
    pub device_class: FileRead,
    pub power: Option<Result<Vec<Result<SupplyEntry, String>>, String>>,
}

/// The battery level of a power-supply entry.
pub open spec fn capacity_reading(f: FileRead) -> Option<u8> {
    match f {
        FileRead::Text(t) => level_of_text(t@),
        _ => None,
    }
}

/// A power supply is connected when its trimmed status is `Discharging`,
/// `Charging` or `Full` (a missing status reads as `Unknown`).
pub open spec fn supply_connected(f: FileRead) -> bool {
    match f {
        FileRead::Text(t) => trim_of(t@) == "Discharging"@ || trim_of(t@) == "Charging"@ || trim_of(
            t@,
        ) == "Full"@,
        _ => false,
    }
}

/// The display name of a power supply: its trimmed model name, or the entry
/// name when that is missing, unreadable or blank.
pub open spec fn supply_display_name(e: PowerSupplyEntry) -> Seq<char> {
    match e.model_name {
        FileRead::Text(m) => if trim_of(m@).len() == 0 {
            e.name@
        } else {
            trim_of(m@)
        },
        _ => e.name@,
    }
}

/// How a power supply is attached, judged from its entry name.
pub open spec fn supply_medium(name: Seq<char>) -> ConnectionType {
    if has_infix(name, "hid"@) || has_infix(name, "usb"@) {
        ConnectionType::USB
    } else if has_infix(name, "wireless"@) || has_infix(name, "2.4g"@) {
        ConnectionType::Wireless2_4G
    } else {
        ConnectionType::USB
    }
}

/// The entry describes a battery and its capacity and status files could be
/// read when present.
pub open spec fn supply_is_battery(e: PowerSupplyEntry) -> bool {
    &&& e.kind is Ok
    &&& trim_of(e.kind->Ok_0@) == "Battery"@
    &&& !(e.capacity is Unreadable)
    &&& !(e.status is Unreadable)
}

/// The record made from a battery entry of the power-supply enumeration.
pub open spec fn supply_record(e: PowerSupplyEntry) -> DeviceView {
    DeviceView {
        id: "power_supply_"@ + e.name@,
        name: supply_display_name(e),
        device_type: category_of(lower_of(supply_display_name(e)), None),
        connection_type: supply_medium(e.name@),
        battery_level: capacity_reading(e.capacity),
        connection_status: if supply_connected(e.status) {
            ConnectionStatus::Connected
        } else {
            ConnectionStatus::Disconnected
        },
        last_seen: 0,
    }
}

/// The records of the battery entries that report a level, in order.
pub open spec fn supply_records(es: Seq<Result<PowerSupplyEntry, String>>) -> Seq<DeviceView>
    decreases es.len(),
{
    if es.len() == 0 {
        Seq::empty()
    } else {
        let r = supply_records(es.drop_last());
        match es.last() {
            Ok(e) => if supply_is_battery(e) && capacity_reading(e.capacity) is Some {
                r.push(supply_record(e))
            } else {
                r
            },
            Err(_) => r,
        }
    }
}

/// The bus-device class code of an entry, read as a hexadecimal number.
pub open spec fn usb_class(e: UsbDeviceEntry) -> Option<int> {
    match e.device_class {
        FileRead::Text(c) => parse_unsigned(trim_of(c@), 16, 0xffff_ffff),
        _ => None,
    }
}

/// The human-interface-device class code.
pub const HID_CLASS: u32 = 0x03;

/// The trimmed manufacturer of an entry; empty when missing or unreadable.
pub open spec fn usb_manufacturer(e: UsbDeviceEntry) -> Seq<char> {
    match e.manufacturer {
        FileRead::Text(m) => trim_of(m@),
        _ => Seq::empty(),
    }
}

/// The display name of a bus device: manufacturer and product separated by a
/// space, or the product alone when the manufacturer is empty.
pub open spec fn usb_display_name(e: UsbDeviceEntry) -> Seq<char> {
    let product = trim_of(e.product->Text_0@);
    if usb_manufacturer(e).len() == 0 {
        product
    } else {
        usb_manufacturer(e) + " "@ + product
    }
}

/// The first level found among the `supply*` sub-entries of a power
/// directory: a sub-entry whose capacity cannot be read, or a listing
/// fault, ends the search empty-handed; an unparsable capacity is skipped.
pub open spec fn first_supply_level(es: Seq<Result<SupplyEntry, String>>) -> Option<u8>
    decreases es.len(),
{
    if es.len() == 0 {
        None
    } else {
        let rest = es.subrange(1, es.len() as int);
        match es[0] {
            Err(_) => None,
            Ok(e) => if has_prefix(e.name@, "supply"@) {
                match e.capacity {
                    FileRead::Missing => first_supply_level(rest),
                    FileRead::Unreadable(_) => None,
                    FileRead::Text(t) => match level_of_text(t@) {
                        Some(v) => Some(v),
                        None => first_supply_level(rest),
                    },
                }
            } else {
                first_supply_level(rest)
            },
        }
    }
}

/// The battery level found in a bus device's power directory, if any.
pub open spec fn usb_level(power: Option<Result<Vec<Result<SupplyEntry, String>>, String>>) -> Option<
    u8,
> {
    match power {
        Some(Ok(es)) => first_supply_level(es@),
        _ => None,
    }
}

/// The entry is a readable human-interface device.
pub open spec fn usb_is_hid(e: UsbDeviceEntry) -> bool {
    e.product is Text && usb_class(e) == Some(HID_CLASS as int)
}

/// The record made from a human-interface entry of the bus enumeration.
pub open spec fn usb_record(e: UsbDeviceEntry) -> DeviceView {
    DeviceView {
        id: "usb_"@ + e.name@,
        name: usb_display_name(e),
        device_type: category_of(lower_of(usb_display_name(e)), Some(HID_CLASS)),
        connection_type: ConnectionType::USB,
        battery_level: usb_level(e.power),
        connection_status: ConnectionStatus::Connected,
        last_seen: 0,
    }
}

/// The records of the human-interface entries, in order.
pub open spec fn usb_records(es: Seq<Result<UsbDeviceEntry, String>>) -> Seq<DeviceView>
    decreases es.len(),
{
    if es.len() == 0 {
        Seq::empty()
    } else {
        let r = usb_records(es.drop_last());
        match es.last() {
            Ok(e) => if usb_is_hid(e) {
                r.push(usb_record(e))
            } else {
                r
            },
            Err(_) => r,
        }
    }
}

/// A text and a string literal are the same characters.
fn is_text(s: &String, lit: &str) -> (r: bool)
    ensures
        r == (s@ == lit@),
{
    text_eq(s.as_str(), lit)
}

/// The reader of the peripheral source: power-supply batteries and
/// bus-attached human-interface devices.
#[derive(Debug, Clone, Copy)]
pub struct UsbScanner;

impl UsbScanner {
    pub fn new() -> (r: UsbScanner) {
        UsbScanner
    }

    /// Makes the record of one power-supply entry; fails for an entry that is
    /// no battery or whose files cannot be read.
    pub fn create_power_supply_device(&self, entry: &PowerSupplyEntry) -> (r: Result<
        Device,
        CoreError,
    >)
        ensures
            r is Ok <==> supply_is_battery(*entry),
            r is Ok ==> agrees_except_time(supply_record(*entry), r->Ok_0@),
            r is Ok ==> battery_in_range(r->Ok_0@),
            entry.kind is Err ==> (r matches Err(CoreError::SystemApiError(m)) && m@
                == entry.kind->Err_0@),
            entry.kind is Ok && trim_of(entry.kind->Ok_0@) != "Battery"@ ==> r matches Err(
                CoreError::DeviceDetectionFailed(_),
            ),
    {
        let kind = match &entry.kind {
            Ok(t) => trimmed(t.as_str()),
            Err(m) => {
                return Err(CoreError::SystemApiError(m.clone()));
            },
        };
        if !is_text(&kind, "Battery") {
            return Err(CoreError::DeviceDetectionFailed("Not a battery device".to_owned()));
        }
        let capacity = match &entry.capacity {
            FileRead::Missing => None,
            FileRead::Unreadable(m) => {
                return Err(CoreError::SystemApiError(m.clone()));
            },
            FileRead::Text(t) => read_level(t),
        };
        let connected = match &entry.status {
            FileRead::Missing => false,
            FileRead::Unreadable(m) => {
                return Err(CoreError::SystemApiError(m.clone()));
            },
            FileRead::Text(t) => {
                let status = trimmed(t.as_str());
                is_text(&status, "Discharging") || is_text(&status, "Charging") || is_text(
                    &status,
                    "Full",
                )
            },
        };
        let display_name = match &entry.model_name {
            FileRead::Text(t) => {
                let model = trimmed(t.as_str());
                if model.unicode_len() == 0 {
                    entry.name.clone()
                } else {
                    model
                }
            },
            _ => entry.name.clone(),
        };
        let device_type = detect_device_type(display_name.as_str(), None);
        let name = entry.name.as_str();
        let connection_type = if str_contains(name, "hid") || str_contains(name, "usb") {
            ConnectionType::USB
        } else if str_contains(name, "wireless") || str_contains(name, "2.4g") {
            ConnectionType::Wireless2_4G
        } else {
            ConnectionType::USB
        };
        let mut device = Device::with_id(
            join("power_supply_", name),
            display_name,
            device_type,
            connection_type,
        );
        device.update_battery(capacity);
        device.set_connected(connected);
        Ok(device)
    }

    /// The records of the battery entries of a power-supply listing that
    /// report a level; an entry that could not be read is skipped, and only a
    /// listing that could not be read at all fails.
    pub fn scan_power_supply_devices(
        &self,
        listing: &Result<Vec<Result<PowerSupplyEntry, String>>, String>,
    ) -> (r: Result<Vec<Device>, CoreError>)
        ensures
            r is Ok <==> listing is Ok,
            r is Ok ==> records_match(supply_records(listing->Ok_0@), device_views(r->Ok_0@)),
            r is Ok ==> all_in_range(device_views(r->Ok_0@)),
            r is Err ==> r->Err_0 is SystemApiError,
    {
        let entries = match listing {
            Ok(es) => es,
            Err(m) => {
                return Err(CoreError::SystemApiError(m.clone()));
            },
        };
        let mut devices: Vec<Device> = Vec::new();
        let mut i: usize = 0;
        while i < entries.len()
            invariant
                listing is Ok && entries@ == listing->Ok_0@,
                i <= entries@.len(),
                records_match(
                    supply_records(entries@.subrange(0, i as int)),
                    device_views(devices@),
                ),
                all_in_range(device_views(devices@)),
            decreases entries@.len() - i,
        {
            let ghost pre = entries@.subrange(0, i as int);
            assert(entries@.subrange(0, i + 1).drop_last() =~= pre);
            match &entries[i] {
                Err(_) => {},
                Ok(e) => {
                    match self.create_power_supply_device(e) {
                        Ok(d) => {
                            if d.battery_level.is_some() {
                                let ghost before = device_views(devices@);
                                devices.push(d);
                                assert(device_views(devices@) =~= before.push(d@));
                            }
                        },
                        Err(_) => {},
                    }
                },
            }
            i = i + 1;
        }
        assert(entries@.subrange(0, i as int) =~= entries@);
        Ok(devices)
    }

    /// The first battery level found in a bus device's power directory.
    pub fn get_usb_battery_level(
        &self,
        power: &Option<Result<Vec<Result<SupplyEntry, String>>, String>>,
    ) -> (r: Result<u8, CoreError>)
        ensures
            match r {
                Ok(v) => usb_level(*power) == Some(v) && v <= MAX_LEVEL,
                Err(_) => usb_level(*power) is None,
            },
    {
        let entries = match power {
            None => {
                return Err(CoreError::DeviceDetectionFailed("No power info".to_owned()));
            },
            Some(Err(m)) => {
                return Err(CoreError::SystemApiError(m.clone()));
            },
            Some(Ok(es)) => es,
        };
        assert(entries@.subrange(0, entries@.len() as int) =~= entries@);
        let mut i: usize = 0;
        while i < entries.len()
            invariant
                power is Some && power->Some_0 is Ok && entries@ == power->Some_0->Ok_0@,
                i <= entries@.len(),
                first_supply_level(entries@) == first_supply_level(
                    entries@.subrange(i as int, entries@.len() as int),
                ),
            decreases entries@.len() - i,
        {
            let ghost rest = entries@.subrange(i as int, entries@.len() as int);
            assert(rest.subrange(1, rest.len() as int) =~= entries@.subrange(
                i + 1,
                entries@.len() as int,
            ));
            assert(rest[0] == entries@[i as int]);
            match &entries[i] {
                Err(m) => {
                    return Err(CoreError::SystemApiError(m.clone()));
                },
                Ok(e) => {
                    if str_starts_with(e.name.as_str(), "supply") {
                        match &e.capacity {
                            FileRead::Missing => {},
                            FileRead::Unreadable(m) => {
                                return Err(CoreError::SystemApiError(m.clone()));
                            },
                            FileRead::Text(t) => {
                                match read_level(t) {
                                    Some(v) => {
                                        return Ok(v);
                                    },
                                    None => {},
                                }
                            },
                        }
                    }
                },
            }
            i = i + 1;
        }
        Err(CoreError::DeviceDetectionFailed("No battery capacity found".to_owned()))
    }

    /// Makes the record of one bus-device entry; fails for an entry without
    /// a readable product or whose class is not human-interface.
    pub fn create_usb_hid_device(&self, entry: &UsbDeviceEntry) -> (r: Result<Device, CoreError>)
        ensures
            r is Ok <==> usb_is_hid(*entry),
            r is Ok ==> agrees_except_time(usb_record(*entry), r->Ok_0@),
            r is Ok ==> battery_in_range(r->Ok_0@),
            entry.product is Missing ==> r matches Err(CoreError::DeviceDetectionFailed(_)),
            entry.product is Unreadable ==> (r matches Err(CoreError::SystemApiError(m)) && m@
                == entry.product->Unreadable_0@),
    {
        let product = match &entry.product {
            FileRead::Missing => {
                return Err(CoreError::DeviceDetectionFailed("No product info".to_owned()));
            },
            FileRead::Unreadable(m) => {
                return Err(CoreError::SystemApiError(m.clone()));
            },
            FileRead::Text(t) => trimmed(t.as_str()),
        };
        let manufacturer = match &entry.manufacturer {
            FileRead::Text(t) => trimmed(t.as_str()),
            _ => String::new(),
        };
        let device_class = match &entry.device_class {
            FileRead::Text(t) => {
                let c = trimmed(t.as_str());
                parse_unsigned_numeral(c.as_str(), 16, 0xffff_ffff)
            },
            _ => None,
        };
        match device_class {
            Some(HID_CLASS) => {},
            _ => {
                return Err(CoreError::DeviceDetectionFailed("Not an HID device".to_owned()));
            },
        }
        let display_name = if manufacturer.unicode_len() == 0 {
            product
        } else {
            let with_space = join(manufacturer.as_str(), " ");
            join(with_space.as_str(), product.as_str())
        };
        let device_type = detect_device_type(display_name.as_str(), device_class);
        let mut device = Device::with_id(
            join("usb_", entry.name.as_str()),
            display_name,
            device_type,
            ConnectionType::USB,
        );
        device.set_connected(true);
        match self.get_usb_battery_level(&entry.power) {
            Ok(level) => device.update_battery(Some(level)),
            Err(_) => {},
        }
        Ok(device)
    }

    /// The records of the human-interface entries of a bus-device listing; an
    /// entry that could not be read is skipped, and only a listing that could
    /// not be read at all fails.
    pub fn scan_usb_hid_devices(
        &self,
        listing: &Result<Vec<Result<UsbDeviceEntry, String>>, String>,
    ) -> (r: Result<Vec<Device>, CoreError>)
        ensures
            r is Ok <==> listing is Ok,
            r is Ok ==> records_match(usb_records(listing->Ok_0@), device_views(r->Ok_0@)),
            r is Ok ==> all_in_range(device_views(r->Ok_0@)),
            r is Err ==> r->Err_0 is SystemApiError,
    {
        let entries = match listing {
            Ok(es) => es,
            Err(m) => {
                return Err(CoreError::SystemApiError(m.clone()));
            },
        };
        let mut devices: Vec<Device> = Vec::new();
        let mut i: usize = 0;
        while i < entries.len()
            invariant
                listing is Ok && entries@ == listing->Ok_0@,
                i <= entries@.len(),
                records_match(usb_records(entries@.subrange(0, i as int)), device_views(devices@)),
                all_in_range(device_views(devices@)),
            decreases entries@.len() - i,
        {
            let ghost pre = entries@.subrange(0, i as int);
            assert(entries@.subrange(0, i + 1).drop_last() =~= pre);
            match &entries[i] {
                Err(_) => {},
                Ok(e) => {
                    match self.create_usb_hid_device(e) {
                        Ok(d) => {
                            let ghost before = device_views(devices@);
                            devices.push(d);
                            assert(device_views(devices@) =~= before.push(d@));
                        },
                        Err(_) => {},
                    }
                },
            }
            i = i + 1;
        }
        assert(entries@.subrange(0, i as int) =~= entries@);
        Ok(devices)
    }

    /// Both sub-scans together; either failing contributes nothing and
    /// never aborts the other.
    pub fn scan_devices(
        &self,
        power_supplies: &Result<Vec<Result<PowerSupplyEntry, String>>, String>,
        bus_devices: &Result<Vec<Result<UsbDeviceEntry, String>>, String>,
    ) -> (r: Vec<Device>)
        ensures
            exists|a: Seq<DeviceView>, b: Seq<DeviceView>|
                {
                    &&& device_views(r@) == a + b
                    &&& power_supplies is Ok ==> records_match(
                        supply_records(power_supplies->Ok_0@),
                        a,
                    )
                    &&& power_supplies is Err ==> a == Seq::<DeviceView>::empty()
                    &&& bus_devices is Ok ==> records_match(usb_records(bus_devices->Ok_0@), b)
                    &&& bus_devices is Err ==> b == Seq::<DeviceView>::empty()
                },
            all_in_range(device_views(r@)),
    {
        let power = self.scan_power_supply_devices(power_supplies);
        let hid = self.scan_usb_hid_devices(bus_devices);
        let ghost a = contribution(power);
        let ghost b = contribution(hid);
        let r = combine_scans(power, hid);
        assert(device_views(r@) == a + b);
        r
    }
}

} // verus!
