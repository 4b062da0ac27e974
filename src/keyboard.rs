//! Keyboards found on the human-interface bus: how they are recognised,
//! which family they belong to, and how a battery level is picked out of the
//! reports they answer with. Reading the reports is done outside; these
//! functions take the bytes a report came back with and its length.
use crate::text::{has_infix, join, lower_of, lowercase, str_contains};
use vstd::prelude::*;
use vstd::string::*;
use vstd::utf8::{decode_utf8, encode_utf8, encode_utf8_decode_utf8, is_char_boundary};

verus! {

/// The keyboard families told apart.
#[derive(Debug, Clone, Copy, PartialEq, Eq, Structural)]
pub enum KeyboardType {
    AjazzAK870,
    Mechanical,
    Membrane,
    Unknown,
}

/// A keyboard found on the bus.
#[derive(Debug, Clone)]
pub struct Keyboard {
    pub name: String,
    pub vendor_id: u16,
    pub product_id: u16,
    pub battery_percentage: Option<u8>,
    pub keyboard_type: KeyboardType,
    pub path: String,
    pub serial_number: Option<String>,
}

/// The status-line icon of a keyboard family.
pub open spec fn keyboard_icon(t: KeyboardType) -> Seq<char> {
    match t {
        KeyboardType::Mechanical => "🔧"@,
        _ => "⌨️"@,
    }
}

/// The lowercase hexadecimal digit character for a value below sixteen.
pub open spec fn hex_digit(d: nat) -> char {
    seq!['0', '1', '2', '3', '4', '5', '6', '7', '8', '9', 'a', 'b', 'c', 'd', 'e', 'f'][d as int]
}

/// A 16-bit number as four lowercase hexadecimal digits.
pub open spec fn hex4(v: u16) -> Seq<char> {
    seq![
        hex_digit(((v as nat) / 4096) % 16),
        hex_digit(((v as nat) / 256) % 16),
        hex_digit(((v as nat) / 16) % 16),
        hex_digit((v as nat) % 16),
    ]
}

/// The one-character text of a hexadecimal digit.
fn hex_digit_text(d: u16) -> (r: &'static str)
    requires
        d < 16,
    ensures
        r@ == seq![hex_digit(d as nat)],
{
    proof {
        reveal_strlit("0");
        reveal_strlit("1");
        reveal_strlit("2");
        reveal_strlit("3");
        reveal_strlit("4");
        reveal_strlit("5");
        reveal_strlit("6");
        reveal_strlit("7");
        reveal_strlit("8");
        reveal_strlit("9");
        reveal_strlit("a");
        reveal_strlit("b");
        reveal_strlit("c");
        reveal_strlit("d");
        reveal_strlit("e");
        reveal_strlit("f");
    }
    let r = if d == 0 {
        "0"
    } else if d == 1 {
        "1"
    } else if d == 2 {
        "2"
    } else if d == 3 {
        "3"
    } else if d == 4 {
        "4"
    } else if d == 5 {
        "5"
    } else if d == 6 {
        "6"
    } else if d == 7 {
        "7"
    } else if d == 8 {
        "8"
    } else if d == 9 {
        "9"
    } else if d == 10 {
        "a"
    } else if d == 11 {
        "b"
    } else if d == 12 {
        "c"
    } else if d == 13 {
        "d"
    } else if d == 14 {
        "e"
    } else {
        "f"
    };
    assert(r@ =~= seq![hex_digit(d as nat)]);
    r
}

/// Writes a 16-bit number as four lowercase hexadecimal digits.
fn hex4_text(v: u16) -> (r: String)
    ensures
        r@ == hex4(v),
{
    let a = join(hex_digit_text((v / 4096) % 16), hex_digit_text((v / 256) % 16));
    let b = join(a.as_str(), hex_digit_text((v / 16) % 16));
    let r = join(b.as_str(), hex_digit_text(v % 16));
    assert(r@ =~= hex4(v));
    r
}

/// Bytes in a name beyond which the status line shortens it.
pub const STATUS_NAME_BYTES: usize = 12;

/// Bytes of the name kept when it is shortened.
pub const STATUS_PREFIX_BYTES: usize = 9;

impl Keyboard {
    /// The status-line icon of the keyboard's family.
    pub fn get_icon(&self) -> (r: &'static str)
        ensures
            r@ == keyboard_icon(self.keyboard_type),
    {
        match self.keyboard_type {
            KeyboardType::AjazzAK870 => "⌨️",
            KeyboardType::Mechanical => "🔧",
            KeyboardType::Membrane => "⌨️",
            KeyboardType::Unknown => "⌨️",
        }
    }

    /// `vvvv:pppp`: vendor and product id in lowercase hexadecimal.
    pub fn device_id(&self) -> (r: String)
        ensures
            r@ == hex4(self.vendor_id) + ":"@ + hex4(self.product_id),
    {
        let v = hex4_text(self.vendor_id);
        let with_colon = join(v.as_str(), ":");
        let p = hex4_text(self.product_id);
        join(with_colon.as_str(), p.as_str())
    }

    /// `icon name: level%`, or `icon name` without a level; a name longer
    /// than twelve bytes is cut to its first nine bytes and `...`.
    pub fn format_for_status(&self) -> (r: String)
        requires
            status_name_ok(*self),
        ensures
            r@ == keyboard_status(*self),
    {
        status_text(self.get_icon(), self.name.as_str(), self.battery_percentage)
    }
}

/// A status line for a device with the given icon, name and level.
pub fn status_text(icon: &str, name: &str, level: Option<u8>) -> (r: String)
    requires
        name_is_long(name@) ==> is_char_boundary(encode_utf8(name@), STATUS_PREFIX_BYTES as int),
    ensures
        r@ == status_line(icon@, status_name(name@), name_is_long(name@), level),
{
    let long = name.as_bytes().len() > STATUS_NAME_BYTES;
    let (short, _) = if long {
        name.split_at(STATUS_PREFIX_BYTES)
    } else {
        (name, "")
    };
    let head = join(icon, " ");
    let named = join(head.as_str(), short);
    let named = if long {
        join(named.as_str(), "...")
    } else {
        named
    };
    let r = match level {
        Some(b) => {
            let with_sep = join(named.as_str(), ": ");
            let digits = crate::text::decimal(b as u64);
            let with_level = join(with_sep.as_str(), digits.as_str());
            join(with_level.as_str(), "%")
        },
        None => named,
    };
    assert(long == name_is_long(name@));
    assert(long ==> encode_utf8(short@) == encode_utf8(name@).subrange(
        0,
        STATUS_PREFIX_BYTES as int,
    ));
    proof {
        encode_utf8_decode_utf8(short@);
    }
    assert(status_line(icon@, short@, long, level) =~= r@);
    r
}

/// The keyboard's name can be shortened where the status line cuts it.
pub open spec fn status_name_ok(k: Keyboard) -> bool {
    name_is_long(k.name@) ==> is_char_boundary(encode_utf8(k.name@), STATUS_PREFIX_BYTES as int)
}

/// The name as the status line shows it: a long name cut to its first nine
/// bytes.
pub open spec fn status_name(name: Seq<char>) -> Seq<char> {
    if name_is_long(name) {
        decode_utf8(encode_utf8(name).subrange(0, STATUS_PREFIX_BYTES as int))
    } else {
        name
    }
}

/// The status line of one keyboard.
pub open spec fn keyboard_status(k: Keyboard) -> Seq<char> {
    status_line(
        keyboard_icon(k.keyboard_type),
        status_name(k.name@),
        name_is_long(k.name@),
        k.battery_percentage,
    )
}

/// The status lines of keyboards joined by ` | `.
pub open spec fn joined_status(ks: Seq<Keyboard>) -> Seq<char>
    decreases ks.len(),
{
    if ks.len() == 0 {
        Seq::empty()
    } else if ks.len() == 1 {
        keyboard_status(ks[0])
    } else {
        joined_status(ks.drop_last()) + " | "@ + keyboard_status(ks.last())
    }
}

/// `No keyboards`, or the status lines of all keyboards joined by ` | `.
pub fn get_status_text(keyboards: &Vec<Keyboard>) -> (r: String)
    requires
        forall|i: int| 0 <= i < keyboards@.len() ==> status_name_ok(#[trigger] keyboards@[i]),
    ensures
        keyboards@.len() == 0 ==> r@ == "No keyboards"@,
        keyboards@.len() > 0 ==> r@ == joined_status(keyboards@),
{
    if keyboards.len() == 0 {
        return "No keyboards".to_owned();
    }
    let mut out = keyboards[0].format_for_status();
    assert(keyboards@.subrange(0, 1) =~= seq![keyboards@[0]]);
    let mut i: usize = 1;
    while i < keyboards.len()
        invariant
            1 <= i <= keyboards@.len(),
            forall|k: int| 0 <= k < keyboards@.len() ==> status_name_ok(#[trigger] keyboards@[k]),
            out@ == joined_status(keyboards@.subrange(0, i as int)),
        decreases keyboards@.len() - i,
    {
        let line = keyboards[i].format_for_status();
        let with_sep = join(out.as_str(), " | ");
        out = join(with_sep.as_str(), line.as_str());
        assert(keyboards@.subrange(0, i + 1).drop_last() =~= keyboards@.subrange(0, i as int));
        i = i + 1;
    }
    assert(keyboards@.subrange(0, i as int) =~= keyboards@);
    out
}

/// Vendor id used by the AK870 family (and by Apple).
pub const VENDOR_APPLE: u16 = 0x05ac;

/// Product id of the AK870 under the Apple vendor id.
pub const PRODUCT_AK870: u16 = 0x024f;

/// Vendor ids known to belong to Ajazz keyboards.
pub const VENDOR_AJAZZ_A: u16 = 0x0483;

pub const VENDOR_AJAZZ_B: u16 = 0x1ea7;

/// The family of a keyboard from its lowercased name and its ids.
pub open spec fn keyboard_family(lowered: Seq<char>, vendor_id: u16, product_id: u16) -> KeyboardType {
    if has_infix(lowered, "ak870"@) || has_infix(lowered, "ajazz"@) {
        KeyboardType::AjazzAK870
    } else if vendor_id == VENDOR_APPLE && product_id == PRODUCT_AK870 {
        KeyboardType::AjazzAK870
    } else if vendor_id == VENDOR_AJAZZ_A || vendor_id == VENDOR_AJAZZ_B {
        KeyboardType::AjazzAK870
    } else if vendor_id == VENDOR_APPLE {
        if has_infix(lowered, "keyboard"@) || has_infix(lowered, "ak"@) {
            KeyboardType::AjazzAK870
        } else {
            KeyboardType::Unknown
        }
    } else if has_infix(lowered, "mechanical"@) {
        KeyboardType::Mechanical
    } else if has_infix(lowered, "membrane"@) {
        KeyboardType::Membrane
    } else {
        KeyboardType::Unknown
    }
}

/// The family of a keyboard from its name and its vendor and product ids.
pub fn detect_keyboard_type(name: &str, vendor_id: u16, product_id: u16) -> (r: KeyboardType)
    ensures
        r == keyboard_family(lower_of(name@), vendor_id, product_id),
{
    let lowered = lowercase(name);
    let l = lowered.as_str();
    if str_contains(l, "ak870") || str_contains(l, "ajazz") {
        return KeyboardType::AjazzAK870;
    }
    if vendor_id == VENDOR_APPLE && product_id == PRODUCT_AK870 {
        KeyboardType::AjazzAK870
    } else if vendor_id == VENDOR_AJAZZ_A || vendor_id == VENDOR_AJAZZ_B {
        KeyboardType::AjazzAK870
    } else if vendor_id == VENDOR_APPLE {
        if str_contains(l, "keyboard") || str_contains(l, "ak") {
            KeyboardType::AjazzAK870
        } else {
            KeyboardType::Unknown
        }
    } else if str_contains(l, "mechanical") {
        KeyboardType::Mechanical
    } else if str_contains(l, "membrane") {
        KeyboardType::Membrane
    } else {
        KeyboardType::Unknown
    }
}

/// A lowercased product string that names a keyboard.
pub open spec fn keyboard_product(lowered: Seq<char>) -> bool {
    has_infix(lowered, "keyboard"@) || has_infix(lowered, "ak870"@) || has_infix(
        lowered,
        "ajazz"@,
    )
}

/// Whether a bus device is probably a keyboard: the generic-desktop keyboard
/// usage, a product string naming one, or a known vendor/product id.
pub open spec fn likely_keyboard(
    usage_page: u16,
    usage: u16,
    product: Option<Seq<char>>,
    vendor_id: u16,
    product_id: u16,
) -> bool {
    ||| usage_page == 1 && usage == 6
    ||| product is Some && keyboard_product(lower_of(product->0))
    ||| vendor_id == VENDOR_APPLE && product_id == PRODUCT_AK870
    ||| vendor_id == VENDOR_AJAZZ_A
    ||| vendor_id == VENDOR_AJAZZ_B
}

/// Whether a bus device is probably a keyboard.
pub fn is_likely_keyboard(
    usage_page: u16,
    usage: u16,
    product: Option<&str>,
    vendor_id: u16,
    product_id: u16,
) -> (r: bool)
    ensures
        r == likely_keyboard(
            usage_page,
            usage,
            match product {
                Some(p) => Some(p@),
                None => None,
            },
            vendor_id,
            product_id,
        ),
{
    if usage_page == 1 && usage == 6 {
        return true;
    }
    match product {
        Some(p) => {
            let lowered = lowercase(p);
            let l = lowered.as_str();
            if str_contains(l, "keyboard") || str_contains(l, "ak870") || str_contains(l, "ajazz") {
                return true;
            }
        },
        None => {},
    }
    if vendor_id == VENDOR_APPLE && product_id == PRODUCT_AK870 {
        return true;
    }
    vendor_id == VENDOR_AJAZZ_A || vendor_id == VENDOR_AJAZZ_B
}

/// A byte that reads as a battery level in a report whose payload is
/// `payload`: between 10 and 100, in a payload that is not one byte repeated.
pub open spec fn plausible_level(value: u8, payload: Seq<u8>) -> bool {
    10 <= value <= 100 && exists|i: int| 0 <= i < payload.len() && #[trigger] payload[i] != payload[0]
}

/// Whether `value` reads as a battery level in `payload`.
pub fn validate_battery_value(value: u8, payload: &[u8]) -> (r: bool)
    ensures
        r == plausible_level(value, payload@),
{
    if value == 0 || value > 100 {
        return false;
    }
    let mut varied = false;
    let mut i: usize = 1;
    while i < payload.len()
        invariant
            1 <= i,
            i <= payload@.len() || payload@.len() == 0,
            varied == exists|k: int| 0 <= k < i && k < payload@.len() && #[trigger] payload@[k]
                != payload@[0],
        decreases payload@.len() - i,
    {
        if payload[i] != payload[0] {
            varied = true;
        }
        i = i + 1;
    }
    varied && value >= 10
}

/// How a byte of a report is judged as a level.
pub enum LevelRule {
    /// Any value from 1 to 100.
    Percent,
    /// A value from `min` to 100 that is a multiple of five.
    FiveStep { min: u8 },
    /// A plausible level within `payload_from..payload_to` of the report.
    Plausible { payload_from: usize, payload_to: usize },
}

/// Whether the byte `v` of report `buf` passes the rule.
pub open spec fn rule_ok(rule: LevelRule, v: u8, buf: Seq<u8>) -> bool {
    match rule {
        LevelRule::Percent => 1 <= v <= 100,
        LevelRule::FiveStep { min } => min <= v <= 100 && v % 5 == 0,
        LevelRule::Plausible { payload_from, payload_to } => plausible_level(
            v,
            buf.subrange(payload_from as int, payload_to as int),
        ),
    }
}

/// The first byte of `buf` in `from..to` that passes the rule.
pub open spec fn first_level(buf: Seq<u8>, from: int, to: int, rule: LevelRule) -> Option<u8>
    decreases to - from,
{
    if from >= to {
        None
    } else if rule_ok(rule, buf[from], buf) {
        Some(buf[from])
    } else {
        first_level(buf, from + 1, to, rule)
    }
}

/// The rule's payload bounds lie within the report.
pub open spec fn rule_fits(rule: LevelRule, len: int) -> bool {
    match rule {
        LevelRule::Plausible { payload_from, payload_to } => payload_from <= payload_to <= len,
        _ => true,
    }
}

/// Scans `buf[from..to]` for the first byte that passes the rule.
pub fn scan_level(buf: &[u8], from: usize, to: usize, rule: &LevelRule) -> (r: Option<u8>)
    requires
        to <= buf@.len(),
        rule_fits(*rule, buf@.len() as int),
    ensures
        r == first_level(buf@, from as int, to as int, *rule),
{
    let mut i: usize = from;
    while i < to
        invariant
            from <= i || from >= to,
            to <= buf@.len(),
            rule_fits(*rule, buf@.len() as int),
            first_level(buf@, from as int, to as int, *rule) == first_level(
                buf@,
                i as int,
                to as int,
                *rule,
            ),
        decreases to - i,
    {
        let v = buf[i];
        let ok = match rule {
            LevelRule::Percent => 1 <= v && v <= 100,
            LevelRule::FiveStep { min } => *min <= v && v <= 100 && v % 5 == 0,
            LevelRule::Plausible { payload_from, payload_to } => {
                let payload = slice_subrange(buf, *payload_from, *payload_to);
                validate_battery_value(v, payload)
            },
        };
        if ok {
            return Some(v);
        }
        i = i + 1;
    }
    None
}

/// The sub-slice `s[from..to]`.
fn slice_subrange(s: &[u8], from: usize, to: usize) -> (r: &[u8])
    requires
        from <= to <= s@.len(),
    ensures
        r@ == s@.subrange(from as int, to as int),
{
    let (head, _) = s.split_at(to);
    let (_, tail) = head.split_at(from);
    tail
}

/// The smaller of two lengths.
fn min_len(a: usize, b: usize) -> (r: usize)
    ensures
        r == if a <= b {
            a
        } else {
            b
        },
{
    if a <= b {
        a
    } else {
        b
    }
}

/// Level in the standard battery feature report: its second byte, when the
/// report is longer than one byte and that byte is at most 100.
pub fn standard_battery_report(buf: &[u8], size: usize) -> (r: Option<u8>)
    requires
        size <= buf@.len(),
    ensures
        r == if size > 1 && buf@[1] <= 100 {
            Some(buf@[1])
        } else {
            None
        },
{
    if size > 1 && buf[1] <= 100 {
        Some(buf[1])
    } else {
        None
    }
}

/// Level in the vendor battery feature report: the first byte from 1 to 100
/// among bytes 1 to 9, when the report is longer than two bytes.
pub fn ajazz_battery_report(buf: &[u8], size: usize) -> (r: Option<u8>)
    requires
        size <= buf@.len(),
    ensures
        r == if size > 2 {
            first_level(buf@, 1, if size <= 10 { size as int } else { 10 }, LevelRule::Percent)
        } else {
            None
        },
{
    if size > 2 {
        scan_level(buf, 1, min_len(size, 10), &LevelRule::Percent)
    } else {
        None
    }
}

/// Level in another feature report: the first plausible byte among bytes 1
/// to `last - 1` (and below the report's length), judged against the
/// report's payload after its id byte.
pub fn feature_battery_report(buf: &[u8], size: usize, last: usize) -> (r: Option<u8>)
    requires
        size <= buf@.len(),
    ensures
        r == if size > 1 {
            first_level(
                buf@,
                1,
                if size <= last { size as int } else { last as int },
                LevelRule::Plausible { payload_from: 1, payload_to: size },
            )
        } else {
            None
        },
{
    if size > 1 {
        let rule = LevelRule::Plausible { payload_from: 1, payload_to: size };
        scan_level(buf, 1, min_len(size, last), &rule)
    } else {
        None
    }
}

/// Level in an input report: the first plausible byte among its first
/// eight, judged against the whole report.
pub fn input_battery_report(buf: &[u8], size: usize) -> (r: Option<u8>)
    requires
        size <= buf@.len(),
    ensures
        r == first_level(
            buf@,
            0,
            if size <= 8 { size as int } else { 8 },
            LevelRule::Plausible { payload_from: 0, payload_to: size },
        ),
{
    let rule = LevelRule::Plausible { payload_from: 0, payload_to: size };
    scan_level(buf, 0, min_len(size, 8), &rule)
}

/// Level in the answer to a wireless battery query: byte 4, when the answer
/// has the query's header and is longer than four bytes.
pub fn wireless_query_response(buf: &[u8], size: usize) -> (r: Option<u8>)
    requires
        size <= buf@.len(),
    ensures
        r == if size > 4 && buf@[0] == 0x10 && buf@[2] == 0x8f && 1 <= buf@[4] <= 100 {
            Some(buf@[4])
        } else {
            None
        },
{
    if size > 4 && buf[0] == 0x10 && buf[2] == 0x8f && 1 <= buf[4] && buf[4] <= 100 {
        Some(buf[4])
    } else {
        None
    }
}

/// Level in a wireless input report of at least four bytes: a multiple of
/// five from 1 to 100 at byte 3, 4 or 5; else, under a notification header,
/// a multiple of five from 5 to 100 among bytes 1 to 7.
pub open spec fn wireless_input_level(buf: Seq<u8>, size: int) -> Option<u8> {
    let at = first_level(buf, 3, if size <= 6 { size } else { 6 }, LevelRule::FiveStep { min: 1 });
    if size < 4 {
        None
    } else if at is Some {
        at
    } else if buf[0] == 0x10 || buf[0] == 0x11 {
        first_level(buf, 1, if size <= 8 { size } else { 8 }, LevelRule::FiveStep { min: 5 })
    } else {
        None
    }
}

/// Level in a wireless input report.
pub fn wireless_input_report(buf: &[u8], size: usize) -> (r: Option<u8>)
    requires
        size <= buf@.len(),
    ensures
        r == wireless_input_level(buf@, size as int),
{
    if size < 4 {
        return None;
    }
    match scan_level(buf, 3, min_len(size, 6), &LevelRule::FiveStep { min: 1 }) {
        Some(v) => Some(v),
        None => {
            if buf[0] == 0x10 || buf[0] == 0x11 {
                scan_level(buf, 1, min_len(size, 8), &LevelRule::FiveStep { min: 5 })
            } else {
                None
            }
        },
    }
}

/// Whether a power-supply entry belongs to a keyboard: its lowercased entry
/// name mentions `hid` or `keyboard`, or its lowercased model or
/// manufacturer names the AK870 family.
pub open spec fn keyboard_supply(name: Seq<char>, model: Seq<char>, manufacturer: Seq<char>) -> bool {
    ||| has_infix(lower_of(name), "hid"@)
    ||| has_infix(lower_of(name), "keyboard"@)
    ||| has_infix(lower_of(model), "ak870"@)
    ||| has_infix(lower_of(model), "ajazz"@)
    ||| has_infix(lower_of(manufacturer), "ajazz"@)
}

/// Whether a power-supply entry belongs to a keyboard, from its entry name
/// and the contents of its model and manufacturer files (empty when absent).
pub fn is_keyboard_power_supply(name: &str, model: &str, manufacturer: &str) -> (r: bool)
    ensures
        r == keyboard_supply(name@, model@, manufacturer@),
{
    let n = lowercase(name);
    if str_contains(n.as_str(), "hid") || str_contains(n.as_str(), "keyboard") {
        return true;
    }
    let m = lowercase(model);
    let f = lowercase(manufacturer);
    str_contains(m.as_str(), "ak870") || str_contains(m.as_str(), "ajazz") || str_contains(
        f.as_str(),
        "ajazz",
    )
}

/// The name takes more than twelve bytes.
pub open spec fn name_is_long(name: Seq<char>) -> bool {
    encode_utf8(name).len() > STATUS_NAME_BYTES
}

/// A status line: icon, space, the (possibly shortened) name, and the level.
pub open spec fn status_line(icon: Seq<char>, short: Seq<char>, shortened: bool, level: Option<u8>) -> Seq<char> {
    let named = icon + " "@ + short + if shortened {
        "..."@
    } else {
        Seq::empty()
    };
    match level {
        Some(b) => named + ": "@ + crate::text::decimal_of(b as nat) + "%"@,
        None => named,
    }
}

} // verus!
