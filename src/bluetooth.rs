//! The coarse categories of connected wireless devices shown on the status
//! line, and the name heuristic that picks one.
use crate::keyboard::{
    name_is_long, status_line, status_name, status_text, STATUS_PREFIX_BYTES,
};
use crate::text::{decimal, decimal_of, has_infix, join, lower_of, lowercase, str_contains};
use vstd::prelude::*;
use vstd::string::*;
use vstd::utf8::{encode_utf8, is_char_boundary};

verus! {

/// The status-line category of a wireless device.
#[derive(Debug, Clone, Copy, PartialEq, Eq, Structural)]
pub enum BluetoothDeviceType {
    Headphones,
    Mouse,
    Phone,
    Tablet,
    Speaker,
    Unknown,
}

/// The category of a device whose lowercased name is `lowered`: the first
/// matching group of name fragments decides.
pub open spec fn wireless_category(lowered: Seq<char>) -> BluetoothDeviceType {
    if has_infix(lowered, "headphone"@) || has_infix(lowered, "earbuds"@) || has_infix(
        lowered,
        "airpods"@,
    ) || has_infix(lowered, "buds"@) {
        BluetoothDeviceType::Headphones
    } else if has_infix(lowered, "mouse"@) {
        BluetoothDeviceType::Mouse
    } else if has_infix(lowered, "phone"@) || has_infix(lowered, "iphone"@) || has_infix(
        lowered,
        "samsung"@,
    ) || has_infix(lowered, "pixel"@) {
        BluetoothDeviceType::Phone
    } else if has_infix(lowered, "ipad"@) || has_infix(lowered, "tablet"@) {
        BluetoothDeviceType::Tablet
    } else if has_infix(lowered, "speaker"@) || has_infix(lowered, "soundbar"@) {
        BluetoothDeviceType::Speaker
    } else {
        BluetoothDeviceType::Unknown
    }
}

/// The status-line category of a wireless device from its name.
pub fn bluetooth_device_type(name: &str) -> (r: BluetoothDeviceType)
    ensures
        r == wireless_category(lower_of(name@)),
{
    let lowered = lowercase(name);
    let l = lowered.as_str();
    if str_contains(l, "headphone") || str_contains(l, "earbuds") || str_contains(l, "airpods")
        || str_contains(l, "buds") {
        BluetoothDeviceType::Headphones
    } else if str_contains(l, "mouse") {
        BluetoothDeviceType::Mouse
    } else if str_contains(l, "phone") || str_contains(l, "iphone") || str_contains(l, "samsung")
        || str_contains(l, "pixel") {
        BluetoothDeviceType::Phone
    } else if str_contains(l, "ipad") || str_contains(l, "tablet") {
        BluetoothDeviceType::Tablet
    } else if str_contains(l, "speaker") || str_contains(l, "soundbar") {
        BluetoothDeviceType::Speaker
    } else {
        BluetoothDeviceType::Unknown
    }
}

/// The status-line icon of a category.
pub open spec fn wireless_icon(t: BluetoothDeviceType) -> Seq<char> {
    match t {
        BluetoothDeviceType::Headphones => "🎧"@,
        BluetoothDeviceType::Mouse => "🖱️"@,
        BluetoothDeviceType::Phone => "📱"@,
        BluetoothDeviceType::Tablet => "📟"@,
        BluetoothDeviceType::Speaker => "🔊"@,
        BluetoothDeviceType::Unknown => "📻"@,
    }
}

/// The status-line icon of a category.
pub fn bluetooth_icon(t: BluetoothDeviceType) -> (r: &'static str)
    ensures
        r@ == wireless_icon(t),
{
    match t {
        BluetoothDeviceType::Headphones => "🎧",
        BluetoothDeviceType::Mouse => "🖱️",
        BluetoothDeviceType::Phone => "📱",
        BluetoothDeviceType::Tablet => "📟",
        BluetoothDeviceType::Speaker => "🔊",
        BluetoothDeviceType::Unknown => "📻",
    }
}

/// A connected wireless device on the status line; `address` is its six-byte
/// hardware address.
#[derive(Debug, Clone)]
pub struct BluetoothDevice {
    pub name: String,
    pub address: [u8; 6],
    pub battery_percentage: Option<u8>,
    pub device_type: BluetoothDeviceType,
}

/// The name can be shortened where the status line cuts it.
pub open spec fn bt_name_ok(d: BluetoothDevice) -> bool {
    name_is_long(d.name@) ==> is_char_boundary(encode_utf8(d.name@), STATUS_PREFIX_BYTES as int)
}

/// The status line of one wireless device.
pub open spec fn bluetooth_status(d: BluetoothDevice) -> Seq<char> {
    status_line(
        wireless_icon(d.device_type),
        status_name(d.name@),
        name_is_long(d.name@),
        d.battery_percentage,
    )
}

impl BluetoothDevice {
    /// The status-line icon of the device's category.
    pub fn get_icon(&self) -> (r: &'static str)
        ensures
            r@ == wireless_icon(self.device_type),
    {
        bluetooth_icon(self.device_type)
    }

    /// `icon name: level%`, or `icon name` without a level; a name longer
    /// than twelve bytes is cut to its first nine bytes and `...`.
    pub fn format_for_status(&self) -> (r: String)
        requires
            bt_name_ok(*self),
        ensures
            r@ == bluetooth_status(*self),
    {
        status_text(self.get_icon(), self.name.as_str(), self.battery_percentage)
    }
}

/// The index of the device with the given address, or -1.
pub open spec fn address_index(s: Seq<BluetoothDevice>, a: [u8; 6]) -> int
    decreases s.len(),
{
    if s.len() == 0 {
        -1
    } else if s.last().address@ == a@ {
        s.len() - 1
    } else {
        address_index(s.drop_last(), a)
    }
}

proof fn lemma_address_index(s: Seq<BluetoothDevice>, a: [u8; 6])
    ensures
        -1 <= address_index(s, a) < s.len(),
        address_index(s, a) >= 0 ==> s[address_index(s, a)].address@ == a@,
        address_index(s, a) == -1 ==> forall|k: int| 0 <= k < s.len() ==> s[k].address@ != a@,
    decreases s.len(),
{
    if s.len() > 0 {
        lemma_address_index(s.drop_last(), a);
        assert forall|k: int| 0 <= k < s.len() - 1 implies s.drop_last()[k] == s[k] by {}
    }
}

/// Whether two hardware addresses are equal.
fn same_address(a: &[u8; 6], b: &[u8; 6]) -> (r: bool)
    ensures
        r == (a@ == b@),
{
    let mut i: usize = 0;
    while i < 6
        invariant
            i <= 6,
            a@.len() == 6 && b@.len() == 6,
            forall|k: int| 0 <= k < i ==> a@[k] == b@[k],
        decreases 6 - i,
    {
        if a[i] != b[i] {
            return false;
        }
        i = i + 1;
    }
    assert(a@ =~= b@);
    true
}

/// The connected wireless devices, one per hardware address.
pub struct BluetoothManager {
    pub connected_devices: Vec<BluetoothDevice>,
}

/// The status lines of the devices that report a level, joined by ` | `.
pub open spec fn levels_status(ds: Seq<BluetoothDevice>) -> Seq<char>
    decreases ds.len(),
{
    if ds.len() == 0 {
        Seq::empty()
    } else {
        let head = levels_status(ds.drop_last());
        if ds.last().battery_percentage is None {
            head
        } else if head.len() == 0 {
            bluetooth_status(ds.last())
        } else {
            head + " | "@ + bluetooth_status(ds.last())
        }
    }
}

impl BluetoothManager {
    pub fn new() -> (r: BluetoothManager)
        ensures
            r.connected_devices@.len() == 0,
    {
        BluetoothManager { connected_devices: Vec::new() }
    }

    fn find(&self, address: &[u8; 6]) -> (r: Option<usize>)
        ensures
            match r {
                Some(i) => i == address_index(self.connected_devices@, *address),
                None => address_index(self.connected_devices@, *address) == -1,
            },
    {
        let ghost s = self.connected_devices@;
        let mut j: usize = self.connected_devices.len();
        assert(s.subrange(0, j as int) =~= s);
        while j > 0
            invariant
                s == self.connected_devices@,
                j <= s.len(),
                address_index(s, *address) == address_index(s.subrange(0, j as int), *address),
            decreases j,
        {
            assert(s.subrange(0, j as int).drop_last() =~= s.subrange(0, j - 1));
            if same_address(&self.connected_devices[j - 1].address, address) {
                return Some(j - 1);
            }
            j = j - 1;
        }
        None
    }

    /// Tracks a device, replacing the one with the same address.
    pub fn add_device(&mut self, device: BluetoothDevice)
        ensures
            ({
                let s = old(self).connected_devices@;
                let i = address_index(s, device.address);
                final(self).connected_devices@ == if i >= 0 {
                    s.update(i, device)
                } else {
                    s.push(device)
                }
            }),
    {
        match self.find(&device.address) {
            Some(i) => {
                proof {
                    lemma_address_index(self.connected_devices@, device.address);
                }
                self.connected_devices.set(i, device);
            },
            None => {
                self.connected_devices.push(device);
            },
        }
    }

    /// Stops tracking the device with the address; whether there was one.
    pub fn remove_device(&mut self, address: [u8; 6]) -> (r: bool)
        ensures
            ({
                let s = old(self).connected_devices@;
                let i = address_index(s, address);
                &&& r == (i >= 0)
                &&& final(self).connected_devices@ == if i >= 0 {
                    s.remove(i)
                } else {
                    s
                }
            }),
    {
        match self.find(&address) {
            Some(i) => {
                proof {
                    lemma_address_index(self.connected_devices@, address);
                }
                self.connected_devices.remove(i);
                true
            },
            None => false,
        }
    }

    /// Replaces a tracked device whose battery level changed; whether it did.
    pub fn update_device(&mut self, address: [u8; 6], updated: BluetoothDevice) -> (r: bool)
        ensures
            ({
                let s = old(self).connected_devices@;
                let i = address_index(s, address);
                &&& r == (i >= 0 && s[i].battery_percentage != updated.battery_percentage)
                &&& final(self).connected_devices@ == if r {
                    s.update(i, updated)
                } else {
                    s
                }
            }),
    {
        proof {
            lemma_address_index(self.connected_devices@, address);
        }
        match self.find(&address) {
            Some(i) => {
                let differs = match (self.connected_devices[i].battery_percentage, updated.battery_percentage) {
                    (Some(x), Some(y)) => x != y,
                    (None, None) => false,
                    _ => true,
                };
                if differs {
                    self.connected_devices.set(i, updated);
                }
                differs
            },
            None => false,
        }
    }

    /// `No Bluetooth devices`; else the status lines of the devices that
    /// report a level, joined by ` | `; else a count of connected devices.
    pub fn get_status_text(&self) -> (r: String)
        requires
            forall|i: int|
                0 <= i < self.connected_devices@.len() ==> bt_name_ok(
                    #[trigger] self.connected_devices@[i],
                ),
        ensures
            self.connected_devices@.len() == 0 ==> r@ == "No Bluetooth devices"@,
            self.connected_devices@.len() > 0 && levels_status(self.connected_devices@).len() > 0
                ==> r@ == levels_status(self.connected_devices@),
            self.connected_devices@.len() > 0 && levels_status(self.connected_devices@).len() == 0
                ==> r@ == decimal_of(self.connected_devices@.len() as nat)
                + " connected Bluetooth device(s)"@,
    {
        let n = self.connected_devices.len();
        if n == 0 {
            return "No Bluetooth devices".to_owned();
        }
        let ghost s = self.connected_devices@;
        let mut out = String::new();
        let mut i: usize = 0;
        while i < n
            invariant
                n == s.len(),
                s == self.connected_devices@,
                i <= n,
                forall|k: int| 0 <= k < s.len() ==> bt_name_ok(#[trigger] s[k]),
                out@ == levels_status(s.subrange(0, i as int)),
            decreases n - i,
        {
            assert(s.subrange(0, i + 1).drop_last() =~= s.subrange(0, i as int));
            let d = &self.connected_devices[i];
            if d.battery_percentage.is_some() {
                let line = d.format_for_status();
                if out.unicode_len() == 0 {
                    out = line;
                } else {
                    let with_sep = join(out.as_str(), " | ");
                    out = join(with_sep.as_str(), line.as_str());
                }
            }
            i = i + 1;
        }
        assert(s.subrange(0, n as int) =~= s);
        if out.unicode_len() == 0 {
            let count = decimal(n as u64);
            join(count.as_str(), " connected Bluetooth device(s)")
        } else {
            out
        }
    }
}

} // verus!
