use crate::command;
use crate::text::{
    chars_of, find_char, find_char_in, from_utf8_lossy, lemma_find_char, push_decimal, push_str,
    trim_bounds, trim_char_bounds, trim_char_spec, trim_spec, utf8_lossy, decimal,
};
use crate::types::{
    opt_profile_view, opt_string_view, BatteryState, ChargeLevel, DeviceCommand, DeviceEvent,
    DeviceSnapshot, SpecSnapshot,
};
use vstd::prelude::*;

verus! {

/// Advances the sequence counter, wrapping after 255, and returns the new value.
pub fn next_sequence(sequence: &mut u8) -> (s: u8)
    ensures
        s == (if *old(sequence) == 255 { 0 } else { *old(sequence) + 1 }),
        *final(sequence) == s,
{
    *sequence = if *sequence == 255 { 0 } else { *sequence + 1 };
    *sequence
}

/// Commands that only read state; every other command changes a setting.
pub open spec fn is_read_only(c: DeviceCommand) -> bool {
    match c {
        DeviceCommand::Activate | DeviceCommand::QueryBattery | DeviceCommand::QueryWear
        | DeviceCommand::QueryAnc | DeviceCommand::QueryEq | DeviceCommand::QueryCustomEq
        | DeviceCommand::QueryAdvancedEqProfile | DeviceCommand::QueryFirmware
        | DeviceCommand::QueryGestures | DeviceCommand::QueryInEarDetection
        | DeviceCommand::QueryLowLag | DeviceCommand::QueryBassEnhance
        | DeviceCommand::QueryAdvancedEq | DeviceCommand::QueryAudioCodec
        | DeviceCommand::QueryDualConnection => true,
        _ => false,
    }
}

pub fn is_mutation(c: &DeviceCommand) -> (r: bool)
    ensures
        r == !is_read_only(*c),
{
    match c {
        DeviceCommand::Activate | DeviceCommand::QueryBattery | DeviceCommand::QueryWear
        | DeviceCommand::QueryAnc | DeviceCommand::QueryEq | DeviceCommand::QueryCustomEq
        | DeviceCommand::QueryAdvancedEqProfile | DeviceCommand::QueryFirmware
        | DeviceCommand::QueryGestures | DeviceCommand::QueryInEarDetection
        | DeviceCommand::QueryLowLag | DeviceCommand::QueryBassEnhance
        | DeviceCommand::QueryAdvancedEq | DeviceCommand::QueryAudioCodec
        | DeviceCommand::QueryDualConnection => false,
        _ => true,
    }
}

/// The query that reads back the setting a write changed.
pub open spec fn confirmation_spec(c: DeviceCommand) -> Option<DeviceCommand> {
    match c {
        DeviceCommand::SetAnc { .. } => Some(DeviceCommand::QueryAnc),
        DeviceCommand::SetEqPreset(_) => Some(DeviceCommand::QueryEq),
        DeviceCommand::SetCustomEq(_) => Some(DeviceCommand::QueryCustomEq),
        DeviceCommand::SetAdvancedEqEnabled(_) => Some(DeviceCommand::QueryAdvancedEq),
        DeviceCommand::SetAdvancedEqProfile(_) => Some(DeviceCommand::QueryAdvancedEqProfile),
        DeviceCommand::SetGesture { .. } => Some(DeviceCommand::QueryGestures),
        DeviceCommand::SetBassEnhance(_) => Some(DeviceCommand::QueryBassEnhance),
        DeviceCommand::SetInEarDetection(_) => Some(DeviceCommand::QueryInEarDetection),
        DeviceCommand::SetLowLag(_) => Some(DeviceCommand::QueryLowLag),
        DeviceCommand::SetAudioCodec(_) => Some(DeviceCommand::QueryAudioCodec),
        DeviceCommand::SetDualConnection(_) => Some(DeviceCommand::QueryDualConnection),
        _ => None,
    }
}

pub fn confirmation_query(c: &DeviceCommand) -> (r: Option<DeviceCommand>)
    ensures
        r == confirmation_spec(*c),
{
    match c {
        DeviceCommand::SetAnc { .. } => Some(DeviceCommand::QueryAnc),
        DeviceCommand::SetEqPreset(_) => Some(DeviceCommand::QueryEq),
        DeviceCommand::SetCustomEq(_) => Some(DeviceCommand::QueryCustomEq),
        DeviceCommand::SetAdvancedEqEnabled(_) => Some(DeviceCommand::QueryAdvancedEq),
        DeviceCommand::SetAdvancedEqProfile(_) => Some(DeviceCommand::QueryAdvancedEqProfile),
        DeviceCommand::SetGesture { .. } => Some(DeviceCommand::QueryGestures),
        DeviceCommand::SetBassEnhance(_) => Some(DeviceCommand::QueryBassEnhance),
        DeviceCommand::SetInEarDetection(_) => Some(DeviceCommand::QueryInEarDetection),
        DeviceCommand::SetLowLag(_) => Some(DeviceCommand::QueryLowLag),
        DeviceCommand::SetAudioCodec(_) => Some(DeviceCommand::QueryAudioCodec),
        DeviceCommand::SetDualConnection(_) => Some(DeviceCommand::QueryDualConnection),
        _ => None,
    }
}

/// The snapshot after the session applies a device report.
pub open spec fn apply_event_spec(s: SpecSnapshot, e: DeviceEvent) -> SpecSnapshot {
    match e {
        DeviceEvent::Battery(v) => SpecSnapshot { battery: v, ..s },
        DeviceEvent::Wear(v) => SpecSnapshot { wear: v, ..s },
        DeviceEvent::Anc { mode, level } => SpecSnapshot { anc_mode: mode, anc_level: level, ..s },
        DeviceEvent::Eq(v) => SpecSnapshot { eq_preset: v, ..s },
        DeviceEvent::CustomEq(v) => SpecSnapshot { custom_eq: v, ..s },
        DeviceEvent::AdvancedEqEnabled(v) => SpecSnapshot { advanced_eq_enabled: Some(v), ..s },
        DeviceEvent::AdvancedEqProfile(v) => SpecSnapshot { advanced_eq_profile: Some(v@), ..s },
        DeviceEvent::Gestures(v) => SpecSnapshot { gestures: v@, ..s },
        DeviceEvent::BassEnhance(v) => SpecSnapshot { bass_enhance: v, ..s },
        DeviceEvent::InEarDetection(v) => SpecSnapshot { in_ear_detection: Some(v), ..s },
        DeviceEvent::LowLag(v) => SpecSnapshot { low_lag: Some(v), ..s },
        DeviceEvent::AudioCodec(v) => SpecSnapshot { audio_codec: Some(v), ..s },
        DeviceEvent::DualConnection(v) => SpecSnapshot { dual_connection: Some(v), ..s },
        DeviceEvent::Firmware(v) => SpecSnapshot { firmware: Some(v@), ..s },
        DeviceEvent::ConnectionChanged(v) => SpecSnapshot { connection: v, ..s },
        _ => s,
    }
}

/// Folds a device report into the session's snapshot.
pub fn apply_event(snapshot: &mut DeviceSnapshot, event: &DeviceEvent)
    ensures
        final(snapshot)@ == apply_event_spec(old(snapshot)@, *event),
{
    match event {
        DeviceEvent::Battery(value) => snapshot.battery = *value,
        DeviceEvent::Wear(value) => snapshot.wear = *value,
        DeviceEvent::Anc { mode, level } => {
            snapshot.anc_mode = *mode;
            snapshot.anc_level = *level;
        },
        DeviceEvent::Eq(value) => snapshot.eq_preset = *value,
        DeviceEvent::CustomEq(value) => snapshot.custom_eq = *value,
        DeviceEvent::AdvancedEqEnabled(value) => snapshot.advanced_eq_enabled = Some(*value),
        DeviceEvent::AdvancedEqProfile(value) => snapshot.advanced_eq_profile = Some(value.copy()),
        DeviceEvent::Gestures(value) => snapshot.gestures = *value,
        DeviceEvent::BassEnhance(value) => snapshot.bass_enhance = *value,
        DeviceEvent::InEarDetection(value) => snapshot.in_ear_detection = Some(*value),
        DeviceEvent::LowLag(value) => snapshot.low_lag = Some(*value),
        DeviceEvent::AudioCodec(value) => snapshot.audio_codec = Some(*value),
        DeviceEvent::DualConnection(value) => snapshot.dual_connection = Some(*value),
        DeviceEvent::Firmware(value) => snapshot.firmware = Some(value.clone()),
        DeviceEvent::ConnectionChanged(value) => snapshot.connection = *value,
        _ => {},
    }
}

// ------------------------------------------------------- model identification

/// The `k`-th comma-separated field of `s`, if it has one.
pub open spec fn field(s: Seq<char>, k: nat) -> Option<Seq<char>>
    decreases k,
{
    match find_char(s, ',') {
        None => if k == 0 {
            Some(s)
        } else {
            None
        },
        Some(c) => if k == 0 {
            Some(s.take(c))
        } else {
            field(s.skip(c + 1), (k - 1) as nat)
        },
    }
}

/// The serial carried by a remote-configuration line `device,4,serial`.
pub open spec fn line_serial(line: Seq<char>) -> Option<Seq<char>> {
    match (field(line, 1), field(line, 2)) {
        (Some(kind), Some(value)) => if kind == "4"@ {
            Some(trim_char_spec(value, '\0'))
        } else {
            None
        },
        _ => None,
    }
}

/// A line without the '\r' of a "\r\n" ending.
pub open spec fn strip_cr(line: Seq<char>) -> Seq<char> {
    if line.len() > 0 && line.last() == '\r' {
        line.drop_last()
    } else {
        line
    }
}

/// The serial of the first line of `s` (as `str::lines` splits it) that carries one.
pub open spec fn first_serial(s: Seq<char>) -> Option<Seq<char>>
    decreases s.len(),
{
    if s.len() == 0 {
        None
    } else {
        match find_char(s, '\n') {
            None => line_serial(s),
            Some(i) => {
                proof {
                    lemma_find_char(s, '\n');
                }
                match line_serial(strip_cr(s.take(i))) {
                    Some(v) => Some(v),
                    None => first_serial(s.skip(i + 1)),
                }
            },
        }
    }
}

/// `t` contains "B171".
pub open spec fn mentions_b171(t: Seq<char>) -> bool {
    exists|i: int| 0 <= i && i + 4 <= t.len() && #[trigger] t.subrange(i, i + 4) == "B171"@
}

/// The serial a remote-configuration report names: the first `4` field of its
/// lines, then of the lines after its seventh byte, else the whole trimmed text.
pub open spec fn reported_serial(p: Seq<u8>) -> Seq<char> {
    let text = utf8_lossy(p);
    let configuration = if p.len() >= 7 {
        utf8_lossy(p.skip(7))
    } else {
        Seq::empty()
    };
    match first_serial(text) {
        Some(v) => v,
        None => match first_serial(configuration) {
            Some(v) => v,
            None => trim_spec(trim_char_spec(text, '\0')),
        },
    }
}

/// An ASCII serial whose SKU digits (fifth and sixth characters) are a confirmed B171 SKU:
/// 61, 62, 69, 70, 74 or 75.
pub open spec fn is_b171_serial(s: Seq<char>) -> bool {
    &&& forall|i: int| 0 <= i < s.len() ==> (#[trigger] s[i] as u32) < 128
    &&& s.len() >= 6
    &&& {
        ||| s[4] == '6' && (s[5] == '1' || s[5] == '2' || s[5] == '9')
        ||| s[4] == '7' && (s[5] == '0' || s[5] == '4' || s[5] == '5')
    }
}

/// A remote-configuration report identifies a B171.
pub open spec fn identifies_b171(p: Seq<u8>) -> bool {
    mentions_b171(utf8_lossy(p)) || is_b171_serial(reported_serial(p))
}

fn mentions_b171_exec(v: &[char]) -> (r: bool)
    ensures
        r == mentions_b171(v@),
{
    if v.len() < 4 {
        return false;
    }
    let n = v.len() - 3;
    let mut i: usize = 0;
    while i < n
        invariant
            i <= n,
            n + 3 == v@.len(),
            forall|j: int| 0 <= j < i ==> #[trigger] v@.subrange(j, j + 4) != "B171"@,
        decreases n - i,
    {
        proof {
            reveal_strlit("B171");
        }
        if v[i] == 'B' && v[i + 1] == '1' && v[i + 2] == '7' && v[i + 3] == '1' {
            assert(v@.subrange(i as int, i + 4) =~= "B171"@);
            return true;
        }
        assert(v@.subrange(i as int, i + 4)[0] == v@[i as int]);
        assert(v@.subrange(i as int, i + 4)[1] == v@[i + 1]);
        assert(v@.subrange(i as int, i + 4)[2] == v@[i + 2]);
        assert(v@.subrange(i as int, i + 4)[3] == v@[i + 3]);
        i = i + 1;
    }
    false
}

/// Bounds of `line_serial(v[a..b])`.
fn line_serial_exec(v: &[char], a: usize, b: usize) -> (r: Option<(usize, usize)>)
    requires
        a <= b <= v@.len(),
    ensures
        match line_serial(v@.subrange(a as int, b as int)) {
            Some(s) => r matches Some((x, y)) && x <= y <= v@.len() && v@.subrange(x as int, y as int)
                == s,
            None => r is None,
        },
{
    proof {
        reveal_strlit("4");
    }
    let ghost line = v@.subrange(a as int, b as int);
    let c1 = find_char_in(v, a, b, ',');
    if c1 == b {
        return None;
    }
    let ghost t1 = line.skip(c1 - a + 1);
    assert(t1 =~= v@.subrange(c1 + 1, b as int));
    let c2 = find_char_in(v, c1 + 1, b, ',');
    if c2 == b {
        proof {
            reveal_with_fuel(field, 3);
            assert(field(t1, 1) == None::<Seq<char>>);
            assert(field(line, 2) == None::<Seq<char>>);
        }
        return None;
    }
    let ghost t2 = t1.skip(c2 - c1);
    assert(t2 =~= v@.subrange(c2 + 1, b as int));
    let c3 = find_char_in(v, c2 + 1, b, ',');
    let ghost kind = v@.subrange(c1 + 1, c2 as int);
    assert(field(line, 1) == Some(kind)) by {
        reveal_with_fuel(field, 3);
        assert(t1.take(c2 - c1 - 1) =~= kind);
    }
    assert(field(line, 2) == Some(v@.subrange(c2 + 1, c3 as int))) by {
        reveal_with_fuel(field, 4);
        if c3 < b {
            assert(t2.take(c3 - c2 - 1) =~= v@.subrange(c2 + 1, c3 as int));
        } else {
            assert(t2 =~= v@.subrange(c2 + 1, c3 as int));
        }
    }
    let is_four = c2 == c1 + 2 && v[c1 + 1] == '4';
    assert(is_four == (kind == "4"@)) by {
        if kind == "4"@ {
            assert(kind.len() == 1);
            assert(kind[0] == v@[c1 + 1]);
        }
        if is_four {
            assert(kind =~= "4"@);
        }
    }
    if !is_four {
        return None;
    }
    let (x, y) = trim_char_bounds(v, c2 + 1, c3, '\0');
    Some((x, y))
}

/// Bounds of `first_serial(v)`.
fn first_serial_exec(v: &[char]) -> (r: Option<(usize, usize)>)
    ensures
        match first_serial(v@) {
            Some(s) => r matches Some((x, y)) && x <= y <= v@.len() && v@.subrange(x as int, y as int)
                == s,
            None => r is None,
        },
{
    let mut pos: usize = 0;
    assert(v@.subrange(0, v@.len() as int) =~= v@);
    loop
        invariant
            pos <= v@.len(),
            first_serial(v@) == first_serial(v@.subrange(pos as int, v@.len() as int)),
        decreases v@.len() - pos,
    {
        let ghost rest = v@.subrange(pos as int, v@.len() as int);
        if pos == v.len() {
            return None;
        }
        let nl = find_char_in(v, pos, v.len(), '\n');
        if nl == v.len() {
            return line_serial_exec(v, pos, v.len());
        }
        let mut end = nl;
        if end > pos && v[end - 1] == '\r' {
            end = end - 1;
        }
        assert(strip_cr(rest.take(nl - pos)) =~= v@.subrange(pos as int, end as int));
        match line_serial_exec(v, pos, end) {
            Some(bounds) => {
                return Some(bounds);
            },
            None => {},
        }
        assert(rest.skip(nl - pos + 1) =~= v@.subrange(nl + 1, v@.len() as int));
        pos = nl + 1;
    }
}

fn is_b171_serial_exec(v: &[char]) -> (r: bool)
    ensures
        r == is_b171_serial(v@),
{
    let mut i: usize = 0;
    while i < v.len()
        invariant
            i <= v@.len(),
            forall|j: int| 0 <= j < i ==> (#[trigger] v@[j] as u32) < 128,
        decreases v@.len() - i,
    {
        if (v[i] as u32) >= 128 {
            return false;
        }
        i = i + 1;
    }
    if v.len() < 6 {
        return false;
    }
    (v[4] == '6' && (v[5] == '1' || v[5] == '2' || v[5] == '9')) || (v[4] == '7' && (v[5] == '0'
        || v[5] == '4' || v[5] == '5'))
}

/// "B171" when a remote-configuration report names that model, by a literal
/// mention or by a confirmed SKU in its serial.
pub fn identify_model(payload: &[u8]) -> (r: Option<String>)
    ensures
        r is Some <==> identifies_b171(payload@),
        r matches Some(m) ==> m@ == "B171"@,
{
    let text = chars_of(from_utf8_lossy(payload).as_str());
    if mentions_b171_exec(text.as_slice()) {
        return Some(String::from_str("B171"));
    }
    let configuration: Vec<char> = if payload.len() >= 7 {
        chars_of(from_utf8_lossy(&payload[7..payload.len()]).as_str())
    } else {
        Vec::new()
    };
    assert(payload@.len() >= 7 ==> payload@.subrange(7, payload@.len() as int) =~= payload@.skip(7));
    let serial_ok = match first_serial_exec(text.as_slice()) {
        Some((x, y)) => is_b171_serial_exec(&text.as_slice()[x..y]),
        None => match first_serial_exec(configuration.as_slice()) {
            Some((x, y)) => is_b171_serial_exec(&configuration.as_slice()[x..y]),
            None => {
                let (a, b) = trim_char_bounds(text.as_slice(), 0, text.len(), '\0');
                assert(text@.subrange(0, text@.len() as int) =~= text@);
                let (c, d) = trim_bounds(text.as_slice(), a, b);
                is_b171_serial_exec(&text.as_slice()[c..d])
            },
        },
    };
    if serial_ok {
        Some(String::from_str("B171"))
    } else {
        None
    }
}

// -------------------------------------------------------------- low battery

/// Which battery a low-battery alert is about.
#[derive(Debug, Clone, Copy, PartialEq, Eq, Structural)]
pub enum BatterySlot {
    Left,
    Right,
    Case,
}

/// A battery that fell to 20% or less while not charging.
#[derive(Debug, Clone, Copy, PartialEq, Eq, Structural)]
pub struct BatteryAlert {
    pub slot: BatterySlot,
    pub percent: u8,
}

pub const LOW_BATTERY_SUMMARY: &'static str = "Nothing Linux — low battery";

pub open spec fn slot_name(slot: BatterySlot) -> Seq<char> {
    match slot {
        BatterySlot::Left => "Left earbud"@,
        BatterySlot::Right => "Right earbud"@,
        BatterySlot::Case => "Case"@,
    }
}

impl BatteryAlert {
    /// The notification body: "<battery>: <percent>% remaining".
    pub fn body(&self) -> (s: String)
        ensures
            s@ == slot_name(self.slot) + ": "@ + decimal(self.percent as nat) + "% remaining"@,
    {
        let mut s = String::new();
        match self.slot {
            BatterySlot::Left => push_str(&mut s, "Left earbud"),
            BatterySlot::Right => push_str(&mut s, "Right earbud"),
            BatterySlot::Case => push_str(&mut s, "Case"),
        }
        push_str(&mut s, ": ");
        push_decimal(&mut s, self.percent as u64);
        push_str(&mut s, "% remaining");
        assert(s@ =~= slot_name(self.slot) + ": "@ + decimal(self.percent as nat) + "% remaining"@);
        s
    }
}

/// One alert per discharge: a battery alerts once at 20% or less while not
/// charging, and may alert again after it rose above 25% or was charged.
#[derive(Debug, Clone, Copy, PartialEq, Eq, Structural, Default)]
pub struct LowBatteryCycles {
    pub left: bool,
    pub right: bool,
    pub case: bool,
}

/// (alert now, notified afterwards) for one battery.
pub open spec fn slot_step(level: Option<ChargeLevel>, notified: bool) -> (bool, bool) {
    match level {
        None => (false, notified),
        Some(l) => if l.percent <= 20 && !l.charging && !notified {
            (true, true)
        } else if l.percent > 25 || l.charging {
            (false, false)
        } else {
            (false, notified)
        },
    }
}

fn slot_exec(level: Option<ChargeLevel>, notified: &mut bool) -> (alert: bool)
    ensures
        (alert, *final(notified)) == slot_step(level, *old(notified)),
{
    match level {
        None => false,
        Some(l) => {
            if l.percent <= 20 && !l.charging && !*notified {
                *notified = true;
                true
            } else {
                if l.percent > 25 || l.charging {
                    *notified = false;
                }
                false
            }
        },
    }
}

pub open spec fn alerts_spec(c: LowBatteryCycles, b: BatteryState) -> Seq<BatteryAlert> {
    let l = if slot_step(b.left, c.left).0 {
        seq![BatteryAlert { slot: BatterySlot::Left, percent: b.left->Some_0.percent }]
    } else {
        seq![]
    };
    let r = if slot_step(b.right, c.right).0 {
        seq![BatteryAlert { slot: BatterySlot::Right, percent: b.right->Some_0.percent }]
    } else {
        seq![]
    };
    let k = if slot_step(b.case, c.case).0 {
        seq![BatteryAlert { slot: BatterySlot::Case, percent: b.case->Some_0.percent }]
    } else {
        seq![]
    };
    l + r + k
}

pub open spec fn cycles_after(c: LowBatteryCycles, b: BatteryState) -> LowBatteryCycles {
    LowBatteryCycles {
        left: slot_step(b.left, c.left).1,
        right: slot_step(b.right, c.right).1,
        case: slot_step(b.case, c.case).1,
    }
}

impl LowBatteryCycles {
    /// The alerts a battery report raises, left earbud, right earbud, then case.
    pub fn update(&mut self, battery: &BatteryState) -> (alerts: Vec<BatteryAlert>)
        ensures
            alerts@ == alerts_spec(*old(self), *battery),
            *final(self) == cycles_after(*old(self), *battery),
    {
        let mut alerts: Vec<BatteryAlert> = Vec::new();
        if slot_exec(battery.left, &mut self.left) {
            alerts.push(BatteryAlert { slot: BatterySlot::Left, percent: battery.left.unwrap().percent });
        }
        if slot_exec(battery.right, &mut self.right) {
            alerts.push(BatteryAlert { slot: BatterySlot::Right, percent: battery.right.unwrap().percent });
        }
        if slot_exec(battery.case, &mut self.case) {
            alerts.push(BatteryAlert { slot: BatterySlot::Case, percent: battery.case.unwrap().percent });
        }
        assert(alerts@ =~= alerts_spec(*old(self), *battery));
        alerts
    }
}

/// One alert per discharge: once a battery alerted, it stays silent while it
/// reports 25% or less without charging, and it alerts again at 20% or less
/// only after it rose above 25% or was charged.
pub proof fn law_one_alert_per_discharge(
    first: ChargeLevel,
    later: ChargeLevel,
    recovered: ChargeLevel,
    notified: bool,
)
    requires
        slot_step(Some(first), notified).0,
        later.percent <= 25,
        !later.charging,
        recovered.percent > 25 || recovered.charging,
    ensures
        !slot_step(Some(later), slot_step(Some(first), notified).1).0,
        slot_step(Some(later), slot_step(Some(first), notified).1).1,
        !slot_step(Some(recovered), slot_step(Some(first), notified).1).1,
        later.percent <= 20 ==> slot_step(
            Some(later),
            slot_step(Some(recovered), slot_step(Some(first), notified).1).1,
        ).0,
{
}

/// A battery is due a low-battery alert: it reports 20% or less, is not
/// charging, and has not alerted in this discharge.
pub open spec fn alert_due(level: Option<ChargeLevel>, notified: bool) -> bool {
    level matches Some(l) && l.percent <= 20 && !l.charging && !notified
}

/// The alert a battery raises, if it is due one.
pub open spec fn due_alert(slot: BatterySlot, level: Option<ChargeLevel>, notified: bool) -> Seq<BatteryAlert> {
    if alert_due(level, notified) {
        seq![BatteryAlert { slot, percent: level->Some_0.percent }]
    } else {
        seq![]
    }
}

/// A battery report raises one alert, carrying the reported level, for each
/// of the left earbud, right earbud and case that is due one, in that order,
/// and no other. Afterwards a battery counts as alerted when it just alerted,
/// no longer when it reports above 25% or charging, and otherwise as before.
pub proof fn law_low_battery_alerts(c: LowBatteryCycles, b: BatteryState)
    ensures
        alerts_spec(c, b) == due_alert(BatterySlot::Left, b.left, c.left) + due_alert(
            BatterySlot::Right,
            b.right,
            c.right,
        ) + due_alert(BatterySlot::Case, b.case, c.case),
        forall|p: u8|
            alerts_spec(c, b).contains(BatteryAlert { slot: BatterySlot::Right, percent: p }) <==> (
            alert_due(b.right, c.right) && b.right->Some_0.percent == p),
        forall|p: u8|
            alerts_spec(c, b).contains(BatteryAlert { slot: BatterySlot::Left, percent: p }) <==> (
            alert_due(b.left, c.left) && b.left->Some_0.percent == p),
        forall|p: u8|
            alerts_spec(c, b).contains(BatteryAlert { slot: BatterySlot::Case, percent: p }) <==> (
            alert_due(b.case, c.case) && b.case->Some_0.percent == p),
        cycles_after(c, b).left == (alert_due(b.left, c.left) || (c.left && !(b.left matches Some(l) && (
        l.percent > 25 || l.charging)))),
        cycles_after(c, b).right == (alert_due(b.right, c.right) || (c.right && !(b.right matches Some(l)
            && (l.percent > 25 || l.charging)))),
        cycles_after(c, b).case == (alert_due(b.case, c.case) || (c.case && !(b.case matches Some(l) && (
        l.percent > 25 || l.charging)))),
{
    let l = due_alert(BatterySlot::Left, b.left, c.left);
    let r = due_alert(BatterySlot::Right, b.right, c.right);
    let k = due_alert(BatterySlot::Case, b.case, c.case);
    let all = l + r + k;
    assert(alerts_spec(c, b) =~= all);
    assert forall|p: u8, slot: BatterySlot|
        #![trigger all.contains(BatteryAlert { slot, percent: p })]
        all.contains(BatteryAlert { slot, percent: p }) ==> (
            (slot == BatterySlot::Left && l.contains(BatteryAlert { slot, percent: p }))
            || (slot == BatterySlot::Right && r.contains(BatteryAlert { slot, percent: p }))
            || (slot == BatterySlot::Case && k.contains(BatteryAlert { slot, percent: p }))) by {
        let a = BatteryAlert { slot, percent: p };
        if all.contains(a) {
            let i = choose|i: int| 0 <= i < all.len() && all[i] == a;
            if i < l.len() {
                assert(l[i] == a);
            } else if i < l.len() + r.len() {
                assert(r[i - l.len()] == a);
            } else {
                assert(k[i - l.len() - r.len()] == a);
            }
        }
    }
    if alert_due(b.left, c.left) {
        assert(all[0] == l[0]);
    }
    if alert_due(b.right, c.right) {
        assert(all[l.len() as int] == r[0]);
    }
    if alert_due(b.case, c.case) {
        assert(all[(l.len() + r.len()) as int] == k[0]);
    }
}

/// Every setting write is read back with the query of the same setting;
/// other commands are not read back. The commands that only read are exactly
/// those sent as queries.
pub proof fn law_every_setting_write_is_read_back(c: DeviceCommand)
    ensures
        c is SetAnc ==> confirmation_spec(c) == Some(DeviceCommand::QueryAnc),
        c is SetEqPreset ==> confirmation_spec(c) == Some(DeviceCommand::QueryEq),
        c is SetCustomEq ==> confirmation_spec(c) == Some(DeviceCommand::QueryCustomEq),
        c is SetAdvancedEqEnabled ==> confirmation_spec(c) == Some(DeviceCommand::QueryAdvancedEq),
        c is SetAdvancedEqProfile ==> confirmation_spec(c) == Some(DeviceCommand::QueryAdvancedEqProfile),
        c is SetGesture ==> confirmation_spec(c) == Some(DeviceCommand::QueryGestures),
        c is SetBassEnhance ==> confirmation_spec(c) == Some(DeviceCommand::QueryBassEnhance),
        c is SetInEarDetection ==> confirmation_spec(c) == Some(DeviceCommand::QueryInEarDetection),
        c is SetLowLag ==> confirmation_spec(c) == Some(DeviceCommand::QueryLowLag),
        c is SetAudioCodec ==> confirmation_spec(c) == Some(DeviceCommand::QueryAudioCodec),
        c is SetDualConnection ==> confirmation_spec(c) == Some(DeviceCommand::QueryDualConnection),
        c is FindBud || c is StartFitTest || c is CancelFitTest || c is SetDualConnectionDevice
            || is_read_only(c) ==> confirmation_spec(c) is None,
        is_read_only(c) <==> crate::commands::query_wire(c) is Some,
{
}

/// A device report sets, in the session's snapshot, exactly the value it
/// carries and nothing else.
pub proof fn law_report_sets_snapshot_value(s: SpecSnapshot, e: DeviceEvent)
    ensures
        e matches DeviceEvent::Battery(v) ==> apply_event_spec(s, e) == (SpecSnapshot { battery: v, ..s }),
        e matches DeviceEvent::Wear(v) ==> apply_event_spec(s, e) == (SpecSnapshot { wear: v, ..s }),
        e matches DeviceEvent::Anc { mode, level } ==> apply_event_spec(s, e) == (SpecSnapshot {
            anc_mode: mode,
            anc_level: level,
            ..s
        }),
        e matches DeviceEvent::Eq(v) ==> apply_event_spec(s, e) == (SpecSnapshot { eq_preset: v, ..s }),
        e matches DeviceEvent::CustomEq(v) ==> apply_event_spec(s, e) == (SpecSnapshot { custom_eq: v, ..s }),
        e matches DeviceEvent::AdvancedEqEnabled(v) ==> apply_event_spec(s, e) == (SpecSnapshot {
            advanced_eq_enabled: Some(v),
            ..s
        }),
        e matches DeviceEvent::AdvancedEqProfile(v) ==> apply_event_spec(s, e) == (SpecSnapshot {
            advanced_eq_profile: Some(v@),
            ..s
        }),
        e matches DeviceEvent::Gestures(v) ==> apply_event_spec(s, e) == (SpecSnapshot { gestures: v@, ..s }),
        e matches DeviceEvent::BassEnhance(v) ==> apply_event_spec(s, e) == (SpecSnapshot {
            bass_enhance: v,
            ..s
        }),
        e matches DeviceEvent::InEarDetection(v) ==> apply_event_spec(s, e) == (SpecSnapshot {
            in_ear_detection: Some(v),
            ..s
        }),
        e matches DeviceEvent::LowLag(v) ==> apply_event_spec(s, e) == (SpecSnapshot { low_lag: Some(v), ..s }),
        e matches DeviceEvent::AudioCodec(v) ==> apply_event_spec(s, e) == (SpecSnapshot {
            audio_codec: Some(v),
            ..s
        }),
        e matches DeviceEvent::DualConnection(v) ==> apply_event_spec(s, e) == (SpecSnapshot {
            dual_connection: Some(v),
            ..s
        }),
        e matches DeviceEvent::Firmware(v) ==> apply_event_spec(s, e) == (SpecSnapshot {
            firmware: Some(v@),
            ..s
        }),
        e matches DeviceEvent::ConnectionChanged(v) ==> apply_event_spec(s, e) == (SpecSnapshot {
            connection: v,
            ..s
        }),
{
}

} // verus!
