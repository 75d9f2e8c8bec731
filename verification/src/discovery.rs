//! Which Bluetooth devices are Nothing Ear (B171) earbuds.
use crate::text::{chars_of, trim_bounds, trim_spec};
use crate::types::DeviceDescriptor;
use std::collections::HashMap;
use crate::persistence::is_hex;
use uuid::Uuid;
use vstd::prelude::*;

verus! {

broadcast use vstd::std_specs::hash::group_hash_axioms;

/// The vendor RFCOMM service the earbuds advertise.
pub const NOTHING_SERVICE_UUID: &'static str = "aeac4a03-dff5-498f-843a-34487cf133eb";

/// Bluetooth SIG company identifier of Nothing Technology.
pub const NOTHING_COMPANY_ID: u16 = 0x0ccb;

/// How the manufacturer data of a B171 advertisement begins.
pub const B171_MANUFACTURER_PREFIX: [u8; 4] = [0x01, 0x01, 0xb1, 0x71];

/// The alias BlueZ shows when it could not read one.
pub const FALLBACK_ALIAS: &'static str = "Nothing audio device";

/// The canonical alias of the earbuds.
pub const B171_ALIAS: &'static str = "Nothing Ear";

/// `char::to_ascii_lowercase`.
pub open spec fn ascii_lower(c: char) -> char {
    if 0x41 <= c as u32 <= 0x5a {
        ((c as u32) + 0x20) as char
    } else {
        c
    }
}

/// `str::eq_ignore_ascii_case`.
pub open spec fn eq_ignore_ascii_case(a: Seq<char>, b: Seq<char>) -> bool {
    a.len() == b.len() && forall|i: int| 0 <= i < a.len() ==> ascii_lower(#[trigger] a[i]) == ascii_lower(b[i])
}

/// The alias, trimmed, is "Nothing Ear" in any ASCII case.
pub open spec fn b171_alias(alias: Seq<char>) -> bool {
    eq_ignore_ascii_case(trim_spec(alias), B171_ALIAS@)
}

/// The advertisement carries the B171 alias and Nothing manufacturer data
/// that starts with the B171 signature.
pub open spec fn b171_advertisement(alias: Seq<char>, data: Map<u16, Vec<u8>>) -> bool {
    &&& b171_alias(alias)
    &&& data.contains_key(NOTHING_COMPANY_ID)
    &&& B171_MANUFACTURER_PREFIX@.is_prefix_of(data[NOTHING_COMPANY_ID]@)
}

fn ascii_lower_exec(c: char) -> (r: char)
    ensures
        r == ascii_lower(c),
{
    let u = c as u32;
    if 0x41 <= u && u <= 0x5a {
        let lower = u + 0x20;
        assert(0x61 <= lower <= 0x7a);
        char_of_ascii(lower)
    } else {
        c
    }
}

fn char_of_ascii(u: u32) -> (c: char)
    requires
        u < 0x80,
    ensures
        c == u as char,
{
    let b = u as u8;
    b as char
}

/// Whether the alias is the canonical B171 alias, ignoring surrounding
/// whitespace and ASCII case.
pub fn has_b171_alias(alias: &str) -> (r: bool)
    ensures
        r == b171_alias(alias@),
{
    let chars = chars_of(alias);
    let (lo, hi) = trim_bounds(chars.as_slice(), 0, chars.len());
    assert(chars@.subrange(0, chars@.len() as int) =~= chars@);
    let target = chars_of(B171_ALIAS);
    let ghost t = chars@.subrange(lo as int, hi as int);
    assert(t == trim_spec(alias@));
    assert(target@ == B171_ALIAS@);
    if hi - lo != target.len() {
        return false;
    }
    let mut i: usize = 0;
    while i < target.len()
        invariant
            lo <= hi <= chars@.len(),
            t == chars@.subrange(lo as int, hi as int),
            t == trim_spec(alias@),
            target@ == B171_ALIAS@,
            t.len() == target@.len(),
            i <= target@.len(),
            forall|j: int| 0 <= j < i ==> ascii_lower(#[trigger] t[j]) == ascii_lower(target@[j]),
        decreases target@.len() - i,
    {
        assert(chars@[lo + i] == t[i as int]);
        if ascii_lower_exec(chars[lo + i]) != ascii_lower_exec(target[i]) {
            return false;
        }
        i = i + 1;
    }
    true
}

fn starts_with_prefix(data: &Vec<u8>) -> (r: bool)
    ensures
        r == B171_MANUFACTURER_PREFIX@.is_prefix_of(data@),
{
    if data.len() < 4 {
        return false;
    }
    let prefix = B171_MANUFACTURER_PREFIX;
    let mut i: usize = 0;
    while i < 4
        invariant
            data@.len() >= 4,
            prefix@ == B171_MANUFACTURER_PREFIX@,
            i <= 4,
            forall|j: int| 0 <= j < i ==> prefix@[j] == data@[j],
        decreases 4 - i,
    {
        if data[i] != prefix[i] {
            return false;
        }
        i = i + 1;
    }
    true
}

/// Whether a nearby device advertises itself as B171 earbuds.
pub fn is_b171_advertisement(alias: &str, manufacturer_data: &HashMap<u16, Vec<u8>>) -> (r: bool)
    ensures
        r == b171_advertisement(alias@, manufacturer_data@),
{
    if !has_b171_alias(alias) {
        return false;
    }
    match manufacturer_data.get(&NOTHING_COMPANY_ID) {
        Some(data) => starts_with_prefix(data),
        None => false,
    }
}

/// The index of the first connected device among the first `n`.
pub open spec fn first_connected(ds: Seq<DeviceDescriptor>, n: int) -> Option<int>
    decreases n,
{
    if n <= 0 {
        None
    } else {
        match first_connected(ds, n - 1) {
            Some(i) => Some(i),
            None => if ds[n - 1].connected {
                Some(n - 1)
            } else {
                None
            },
        }
    }
}

/// The device to use: the first connected one, else the first one.
pub open spec fn preferred_index(ds: Seq<DeviceDescriptor>) -> Option<int> {
    match first_connected(ds, ds.len() as int) {
        Some(i) => Some(i),
        None => if ds.len() > 0 {
            Some(0)
        } else {
            None
        },
    }
}

proof fn lemma_first_connected_bounds(ds: Seq<DeviceDescriptor>, n: int)
    ensures
        first_connected(ds, n) matches Some(i) ==> 0 <= i < n && ds[i].connected,
    decreases n,
{
    if n > 0 {
        lemma_first_connected_bounds(ds, n - 1);
    }
}

/// Picks an already connected device, else the first one.
pub fn preferred_device(devices: Vec<DeviceDescriptor>) -> (r: Option<DeviceDescriptor>)
    ensures
        r == match preferred_index(devices@) {
            Some(i) => Some(devices@[i]),
            None => None,
        },
{
    let mut list = devices;
    let ghost all = list@;
    let mut i: usize = 0;
    while i < list.len()
        invariant
            list@ == all,
            all == devices@,
            i <= all.len(),
            first_connected(all, i as int) is None,
        decreases all.len() - i,
    {
        if list[i].connected {
            proof {
                assert(first_connected(all, i + 1) == Some(i as int));
                lemma_first_connected_prefix(all, i + 1, all.len() as int);
                assert(preferred_index(all) == Some(i as int));
            }
            let d = list.remove(i);
            assert(d == all[i as int]);
            return Some(d);
        }
        i = i + 1;
    }
    if list.len() > 0 {
        Some(list.remove(0))
    } else {
        None
    }
}

proof fn lemma_first_connected_prefix(ds: Seq<DeviceDescriptor>, m: int, n: int)
    requires
        0 <= m <= n,
        first_connected(ds, m) is Some,
    ensures
        first_connected(ds, n) == first_connected(ds, m),
    decreases n - m,
{
    if n > m {
        lemma_first_connected_prefix(ds, m, n - 1);
    }
}

/// What looking at one device found.
#[derive(Debug, Clone, PartialEq, Eq)]
pub enum DiscoveryMatch {
    /// Paired earbuds the controller can connect to.
    Paired(DeviceDescriptor),
    /// B171 earbuds in range that still have to be paired.
    NearbyUnpaired,
    /// Something else.
    Other,
}

/// The alias to show: the one BlueZ reported, else a generic one.
pub open spec fn shown_alias(alias: Option<String>) -> Seq<char> {
    match alias {
        Some(a) => a@,
        None => FALLBACK_ALIAS@,
    }
}

/// Classifies a device from what BlueZ reported of it: its alias (`None`
/// when it could not be read), manufacturer data, pairing, whether it offers
/// the vendor service and whether it is connected. A paired device is taken
/// when it offers the vendor service, carries the canonical alias or
/// advertises as B171; only the advertisement proves the model.
pub fn classify_device(
    address: String,
    alias: Option<String>,
    manufacturer_data: &HashMap<u16, Vec<u8>>,
    paired: bool,
    vendor_service: bool,
    connected: bool,
) -> (r: DiscoveryMatch)
    ensures
        ({
            let a = shown_alias(alias);
            let advertised = b171_advertisement(a, manufacturer_data@);
            if !paired {
                r == if advertised {
                    DiscoveryMatch::NearbyUnpaired
                } else {
                    DiscoveryMatch::Other
                }
            } else if !vendor_service && !b171_alias(a) && !advertised {
                r == DiscoveryMatch::Other
            } else {
                &&& r matches DiscoveryMatch::Paired(d)
                &&& d.address == address
                &&& d.alias@ == a
                &&& d.paired
                &&& d.connected == connected
                &&& d.vendor_service == vendor_service
                &&& match d.model {
                    Some(m) => advertised && m@ == "B171"@,
                    None => !advertised,
                }
            }
        }),
{
    let alias = match alias {
        Some(a) => a,
        None => String::from_str(FALLBACK_ALIAS),
    };
    let advertised = is_b171_advertisement(alias.as_str(), manufacturer_data);
    if !paired {
        return if advertised {
            DiscoveryMatch::NearbyUnpaired
        } else {
            DiscoveryMatch::Other
        };
    }
    if !vendor_service && !has_b171_alias(alias.as_str()) && !advertised {
        return DiscoveryMatch::Other;
    }
    let model = if advertised {
        Some(String::from_str("B171"))
    } else {
        None
    };
    DiscoveryMatch::Paired(
        DeviceDescriptor { address, alias, model, paired: true, connected, vendor_service },
    )
}

/// Whether the text is a UUID that `Uuid::from_str` accepts.
pub uninterp spec fn uuid_parses(text: Seq<char>) -> bool;

/// The 128-bit value, most significant byte first, of the UUID that
/// `Uuid::from_str` reads from the text.
pub uninterp spec fn uuid_value(text: Seq<char>) -> u128;

/// The value of a hexadecimal digit.
pub open spec fn hex_digit_value(c: char) -> int {
    let u = c as u32;
    if 0x30 <= u <= 0x39 {
        u - 0x30
    } else if 0x61 <= u <= 0x66 {
        u - 0x61 + 10
    } else {
        u - 0x41 + 10
    }
}

/// The hyphenated form: 36 characters, hyphens at positions 8, 13, 18 and 23,
/// hexadecimal digits elsewhere.
pub open spec fn is_hyphenated_uuid(t: Seq<char>) -> bool {
    &&& t.len() == 36
    &&& forall|i: int|
        0 <= i < 36 ==> if i == 8 || i == 13 || i == 18 || i == 23 {
            #[trigger] t[i] == '-'
        } else {
            is_hex(t[i])
        }
}

/// The hexadecimal digits among the first `n` characters, read as one
/// number, most significant first; hyphens are skipped.
pub open spec fn hex_number(t: Seq<char>, n: int) -> int
    decreases n,
{
    if n <= 0 {
        0
    } else if t[n - 1] == '-' {
        hex_number(t, n - 1)
    } else {
        hex_number(t, n - 1) * 16 + hex_digit_value(t[n - 1])
    }
}

/// `Uuid::from_str`, which is `Uuid::parse_str`, giving the value as
/// `Uuid::as_u128` does. Stated: success and value are functions of the text,
/// and the hyphenated form parses to its 32 digits read in order. Not stated:
/// the simple, braced and URN forms.
#[verifier::external_body]
fn parse_uuid(text: &str) -> (r: Option<u128>)
    ensures
        r is Some == uuid_parses(text@),
        r matches Some(v) ==> v == uuid_value(text@),
        is_hyphenated_uuid(text@) ==> r == Some(hex_number(text@, 36) as u128),
{
    match Uuid::parse_str(text) {
        Ok(uuid) => Some(uuid.as_u128()),
        Err(_) => None,
    }
}

/// The value of the vendor service UUID.
pub const NOTHING_SERVICE_ID: u128 = 0xaeac4a03_dff5_498f_843a_34487cf133ebu128;

/// The vendor service UUID, read from its text, as a 128-bit value.
pub fn vendor_uuid() -> (r: u128)
    ensures
        r == NOTHING_SERVICE_ID,
{
    proof {
        reveal_strlit("aeac4a03-dff5-498f-843a-34487cf133eb");
        reveal_with_fuel(hex_number, 37);
        assert(is_hyphenated_uuid(NOTHING_SERVICE_UUID@));
        assert(hex_number(NOTHING_SERVICE_UUID@, 36) == 0xaeac4a03_dff5_498f_843a_34487cf133eb);
    }
    match parse_uuid(NOTHING_SERVICE_UUID) {
        Some(value) => value,
        None => {
            assert(false);
            0
        },
    }
}

} // verus!
