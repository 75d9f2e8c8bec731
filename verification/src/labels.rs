//! The texts the window shows for device values.
use crate::persistence::EqProfileStore;
use crate::text::{chars_of, decimal, push_decimal, push_str, string_of, trim_bounds, trim_spec};
use crate::types::{
    gesture_allows, AdvancedEqProfile, ChargeLevel, DeviceCommand, DualConnectionDevice, Gesture,
    GestureAction, WearState,
};
use vstd::prelude::*;

verus! {

/// "LEFT 80% ⚡", "CASE 40%", or "RIGHT —" when the level is unknown.
pub open spec fn battery_label(name: Seq<char>, value: Option<ChargeLevel>) -> Seq<char> {
    match value {
        None => name + " —"@,
        Some(v) => {
            let level = name + " "@ + decimal(v.percent as nat) + "%"@;
            if v.charging {
                level + " ⚡"@
            } else {
                level
            }
        },
    }
}

pub fn battery_text(name: &str, value: Option<ChargeLevel>) -> (r: String)
    ensures
        r@ == battery_label(name@, value),
{
    let mut r = String::from_str(name);
    match value {
        None => push_str(&mut r, " —"),
        Some(v) => {
            push_str(&mut r, " ");
            push_decimal(&mut r, v.percent as u64);
            push_str(&mut r, "%");
            if v.charging {
                push_str(&mut r, " ⚡");
            }
        },
    }
    r
}

/// The name of a gesture in the controls page.
pub open spec fn gesture_label(g: Gesture) -> Seq<char> {
    match g {
        Gesture::SinglePinch => "Single pinch"@,
        Gesture::DoublePinch => "Double pinch"@,
        Gesture::TriplePinch => "Triple pinch"@,
        Gesture::PinchAndHold => "Pinch and hold"@,
        Gesture::DoublePinchAndHold => "Double pinch and hold"@,
    }
}

pub fn gesture_name(value: Gesture) -> (r: &'static str)
    ensures
        r@ == gesture_label(value),
{
    match value {
        Gesture::SinglePinch => "Single pinch",
        Gesture::DoublePinch => "Double pinch",
        Gesture::TriplePinch => "Triple pinch",
        Gesture::PinchAndHold => "Pinch and hold",
        Gesture::DoublePinchAndHold => "Double pinch and hold",
    }
}

/// "in ear" or "not worn".
pub open spec fn worn_label(worn: bool) -> Seq<char> {
    if worn {
        "in ear"@
    } else {
        "not worn"@
    }
}

/// The wear line of the overview: "Left: in ear  ·  Right: not worn".
pub open spec fn wear_label(w: WearState) -> Seq<char> {
    "Left: "@ + worn_label(w.left) + "  ·  Right: "@ + worn_label(w.right)
}

pub fn wear_text(wear: WearState) -> (r: String)
    ensures
        r@ == wear_label(wear),
{
    let mut r = String::from_str("Left: ");
    push_str(&mut r, if wear.left { "in ear" } else { "not worn" });
    push_str(&mut r, "  ·  Right: ");
    push_str(&mut r, if wear.right { "in ear" } else { "not worn" });
    r
}

/// The name to show for a dual-connection device: its trimmed name, or a
/// generic one when that is blank.
pub open spec fn dual_device_label(name: Seq<char>) -> Seq<char> {
    if trim_spec(name).len() == 0 {
        "Nothing audio device"@
    } else {
        trim_spec(name)
    }
}

pub fn dual_device_name(device: &DualConnectionDevice) -> (r: String)
    ensures
        r@ == dual_device_label(device.name@),
{
    let chars = chars_of(device.name.as_str());
    let (lo, hi) = trim_bounds(chars.as_slice(), 0, chars.len());
    assert(chars@.subrange(0, chars@.len() as int) =~= chars@);
    if lo == hi {
        String::from_str("Nothing audio device")
    } else {
        string_of(&chars.as_slice()[lo..hi])
    }
}

/// "Current" for the device the earbuds are talking to.
pub fn dual_device_subtitle(device: &DualConnectionDevice) -> (r: Option<&'static str>)
    ensures
        match r {
            Some(t) => device.owner_device && t@ == "Current"@,
            None => !device.owner_device,
        },
{
    if device.owner_device {
        Some("Current")
    } else {
        None
    }
}

/// "Custom 3".
pub open spec fn custom_name(i: nat) -> Seq<char> {
    "Custom "@ + decimal(i)
}

/// Some stored profile already has this name.
pub open spec fn name_taken(ps: Seq<AdvancedEqProfile>, name: Seq<char>) -> bool {
    exists|j: int| 0 <= j < ps.len() && (#[trigger] ps[j]).name@ == name
}

/// The first `i` from `from` up to 20 whose "Custom i" is free.
pub open spec fn free_custom_index(ps: Seq<AdvancedEqProfile>, from: nat) -> Option<nat>
    decreases 21 - from,
{
    if from > 20 {
        None
    } else if !name_taken(ps, custom_name(from)) {
        Some(from)
    } else {
        free_custom_index(ps, from + 1)
    }
}

/// The name a new profile gets: the first free "Custom 1" to "Custom 20",
/// else "Custom".
pub open spec fn next_profile_label(ps: Seq<AdvancedEqProfile>) -> Seq<char> {
    match free_custom_index(ps, 1) {
        Some(i) => custom_name(i),
        None => "Custom"@,
    }
}

fn name_in_use(ps: &Vec<AdvancedEqProfile>, name: &String) -> (r: bool)
    ensures
        r == name_taken(ps@, name@),
{
    let mut j: usize = 0;
    while j < ps.len()
        invariant
            j <= ps@.len(),
            forall|k: int| 0 <= k < j ==> (#[trigger] ps@[k]).name@ != name@,
        decreases ps@.len() - j,
    {
        if ps[j].name == *name {
            return true;
        }
        j = j + 1;
    }
    false
}

pub fn next_profile_name(store: &EqProfileStore) -> (r: String)
    ensures
        r@ == next_profile_label(store.0@),
{
    let mut index: u64 = 1;
    while index <= 20
        invariant
            1 <= index <= 21,
            free_custom_index(store.0@, 1) == free_custom_index(store.0@, index as nat),
        decreases 21 - index,
    {
        let mut candidate = String::from_str("Custom ");
        push_decimal(&mut candidate, index);
        if !name_in_use(&store.0, &candidate) {
            return candidate;
        }
        index = index + 1;
    }
    String::from_str("Custom")
}

/// How many of the first `n` listed devices are connected.
pub open spec fn connected_count(ds: Seq<DualConnectionDevice>, n: int) -> nat
    decreases n,
{
    if n <= 0 {
        0
    } else {
        connected_count(ds, n - 1) + if ds[n - 1].connected {
            1nat
        } else {
            0nat
        }
    }
}

/// "(1/2)": connected devices out of the two the earbuds can serve at once.
pub open spec fn dual_count_label(ds: Seq<DualConnectionDevice>) -> Seq<char> {
    let n = connected_count(ds, ds.len() as int);
    "("@ + decimal(if n < 2 { n } else { 2 }) + "/2)"@
}

pub fn dual_device_count(devices: &[DualConnectionDevice]) -> (r: String)
    ensures
        r@ == dual_count_label(devices@),
{
    let mut n: usize = 0;
    let mut i: usize = 0;
    while i < devices.len()
        invariant
            i <= devices@.len(),
            n == connected_count(devices@, i as int),
            n <= i,
        decreases devices@.len() - i,
    {
        if devices[i].connected {
            n = n + 1;
        }
        i = i + 1;
    }
    let shown: u64 = if n < 2 { n as u64 } else { 2 };
    let mut r = String::from_str("(");
    push_decimal(&mut r, shown);
    push_str(&mut r, "/2)");
    r
}

/// Tapping a listed device asks the earbuds to connect it, or to drop it
/// when it is connected.
pub fn dual_device_toggle(device: &DualConnectionDevice) -> (c: DeviceCommand)
    ensures
        c == (DeviceCommand::SetDualConnectionDevice {
            connect: !device.connected,
            address: device.address_bytes,
        }),
{
    DeviceCommand::SetDualConnectionDevice { connect: !device.connected, address: device.address_bytes }
}

/// The actions the controls page offers for a gesture, with their labels:
/// track and assistant actions for double and triple pinches, noise and
/// volume actions for the holds.
pub open spec fn gesture_choice_list(g: Gesture) -> Seq<(Seq<char>, GestureAction)> {
    if g == Gesture::DoublePinch || g == Gesture::TriplePinch {
        seq![
            ("Skip back"@, GestureAction::SkipBack),
            ("Skip forward"@, GestureAction::SkipForward),
            ("Voice assistant"@, GestureAction::VoiceAssistant),
            ("None"@, GestureAction::NoAction),
        ]
    } else {
        seq![
            ("Noise control"@, GestureAction::NoiseControl),
            ("Volume up"@, GestureAction::VolumeUp),
            ("Volume down"@, GestureAction::VolumeDown),
            ("Voice assistant"@, GestureAction::VoiceAssistant),
            ("None"@, GestureAction::NoAction),
        ]
    }
}

/// The choices of a gesture's drop-down. Every action offered for a
/// configurable gesture is one the earbuds accept for it.
pub fn gesture_choices(gesture: Gesture) -> (v: Vec<(&'static str, GestureAction)>)
    ensures
        v@.len() == gesture_choice_list(gesture).len(),
        forall|i: int|
            0 <= i < v@.len() ==> (#[trigger] v@[i]).0@ == gesture_choice_list(gesture)[i].0 && v@[i].1
                == gesture_choice_list(gesture)[i].1,
        gesture != Gesture::SinglePinch ==> forall|i: int|
            0 <= i < v@.len() ==> gesture_allows(gesture, (#[trigger] v@[i]).1),
{
    if gesture == Gesture::DoublePinch || gesture == Gesture::TriplePinch {
        vec![
            ("Skip back", GestureAction::SkipBack),
            ("Skip forward", GestureAction::SkipForward),
            ("Voice assistant", GestureAction::VoiceAssistant),
            ("None", GestureAction::NoAction),
        ]
    } else {
        vec![
            ("Noise control", GestureAction::NoiseControl),
            ("Volume up", GestureAction::VolumeUp),
            ("Volume down", GestureAction::VolumeDown),
            ("Voice assistant", GestureAction::VoiceAssistant),
            ("None", GestureAction::NoAction),
        ]
    }
}

} // verus!
