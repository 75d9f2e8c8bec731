//! What the window displays: the last confirmed device state with the
//! commands still in flight applied on top, so a control moves at once and
//! falls back when its command fails.
use crate::text::{hex_byte, push_char, push_hex_byte};
use crate::types::{
    AdvancedEqProfile, ConnectionState, DeviceCommand, DeviceEvent, DeviceSnapshot,
    DualConnectionDevice, SpecDualDevice, SpecSnapshot, same_command,
};
use vstd::prelude::*;

verus! {

/// The part of the window that an update touches.
#[derive(Debug, Clone, Copy, PartialEq, Eq, Structural)]
pub enum RefreshScope {
    All,
    Header,
    Battery,
    Wear,
    Anc,
    Equalizer,
    Bass,
    InEar,
    LowLag,
    DualConnection,
    Codec,
    Firmware,
}

/// The part of the window that an event changes.
pub open spec fn event_scope(e: DeviceEvent) -> RefreshScope {
    match e {
        DeviceEvent::ConnectionChanged(_) | DeviceEvent::Snapshot(_) => RefreshScope::All,
        DeviceEvent::Battery(_) => RefreshScope::Battery,
        DeviceEvent::Wear(_) => RefreshScope::Wear,
        DeviceEvent::Anc { .. } => RefreshScope::Anc,
        DeviceEvent::Eq(_) | DeviceEvent::CustomEq(_) | DeviceEvent::AdvancedEqEnabled(_)
        | DeviceEvent::AdvancedEqProfile(_) => RefreshScope::Equalizer,
        DeviceEvent::BassEnhance(_) => RefreshScope::Bass,
        DeviceEvent::InEarDetection(_) => RefreshScope::InEar,
        DeviceEvent::LowLag(_) => RefreshScope::LowLag,
        DeviceEvent::DualConnection(_) | DeviceEvent::DualConnectionDevices(_) => RefreshScope::DualConnection,
        DeviceEvent::AudioCodec(_) => RefreshScope::Codec,
        DeviceEvent::Firmware(_) => RefreshScope::Firmware,
        _ => RefreshScope::Header,
    }
}

/// The part of the window that a command changes.
pub open spec fn command_scope(c: DeviceCommand) -> RefreshScope {
    match c {
        DeviceCommand::SetAnc { .. } => RefreshScope::Anc,
        DeviceCommand::SetEqPreset(_) | DeviceCommand::SetCustomEq(_)
        | DeviceCommand::SetAdvancedEqEnabled(_) | DeviceCommand::SetAdvancedEqProfile(_) => RefreshScope::Equalizer,
        DeviceCommand::SetBassEnhance(_) => RefreshScope::Bass,
        DeviceCommand::SetInEarDetection(_) => RefreshScope::InEar,
        DeviceCommand::SetLowLag(_) => RefreshScope::LowLag,
        DeviceCommand::SetDualConnection(_) | DeviceCommand::SetDualConnectionDevice { .. } => RefreshScope::DualConnection,
        DeviceCommand::SetAudioCodec(_) => RefreshScope::Codec,
        _ => RefreshScope::Header,
    }
}

pub fn scope_for_event(event: &DeviceEvent) -> (r: RefreshScope)
    ensures
        r == event_scope(*event),
{
    match event {
        DeviceEvent::ConnectionChanged(_) | DeviceEvent::Snapshot(_) => RefreshScope::All,
        DeviceEvent::Battery(_) => RefreshScope::Battery,
        DeviceEvent::Wear(_) => RefreshScope::Wear,
        DeviceEvent::Anc { .. } => RefreshScope::Anc,
        DeviceEvent::Eq(_) | DeviceEvent::CustomEq(_) | DeviceEvent::AdvancedEqEnabled(_)
        | DeviceEvent::AdvancedEqProfile(_) => RefreshScope::Equalizer,
        DeviceEvent::BassEnhance(_) => RefreshScope::Bass,
        DeviceEvent::InEarDetection(_) => RefreshScope::InEar,
        DeviceEvent::LowLag(_) => RefreshScope::LowLag,
        DeviceEvent::DualConnection(_) | DeviceEvent::DualConnectionDevices(_) => RefreshScope::DualConnection,
        DeviceEvent::AudioCodec(_) => RefreshScope::Codec,
        DeviceEvent::Firmware(_) => RefreshScope::Firmware,
        _ => RefreshScope::Header,
    }
}

pub fn scope_for_command(command: &DeviceCommand) -> (r: RefreshScope)
    ensures
        r == command_scope(*command),
{
    match command {
        DeviceCommand::SetAnc { .. } => RefreshScope::Anc,
        DeviceCommand::SetEqPreset(_) | DeviceCommand::SetCustomEq(_)
        | DeviceCommand::SetAdvancedEqEnabled(_) | DeviceCommand::SetAdvancedEqProfile(_) => RefreshScope::Equalizer,
        DeviceCommand::SetBassEnhance(_) => RefreshScope::Bass,
        DeviceCommand::SetInEarDetection(_) => RefreshScope::InEar,
        DeviceCommand::SetLowLag(_) => RefreshScope::LowLag,
        DeviceCommand::SetDualConnection(_) | DeviceCommand::SetDualConnectionDevice { .. } => RefreshScope::DualConnection,
        DeviceCommand::SetAudioCodec(_) => RefreshScope::Codec,
        _ => RefreshScope::Header,
    }
}

// ------------------------------------------------------------ confirmed state

/// The confirmed state after a device report. A full snapshot without a
/// dual-connection list keeps the list known before.
pub open spec fn confirm_spec(s: SpecSnapshot, e: DeviceEvent) -> SpecSnapshot {
    match e {
        DeviceEvent::ConnectionChanged(v) => SpecSnapshot { connection: v, ..s },
        DeviceEvent::Snapshot(v) => if v.dual_devices@.len() == 0 {
            SpecSnapshot { dual_devices: s.dual_devices, ..v@ }
        } else {
            v@
        },
        DeviceEvent::Battery(v) => SpecSnapshot { battery: v, ..s },
        DeviceEvent::Wear(v) => SpecSnapshot { wear: v, ..s },
        DeviceEvent::Anc { mode, level } => SpecSnapshot { anc_mode: mode, anc_level: level, ..s },
        DeviceEvent::Eq(v) => SpecSnapshot { eq_preset: v, ..s },
        DeviceEvent::CustomEq(v) => SpecSnapshot { custom_eq: v, ..s },
        DeviceEvent::AdvancedEqEnabled(v) => SpecSnapshot { advanced_eq_enabled: Some(v), ..s },
        DeviceEvent::AdvancedEqProfile(v) => SpecSnapshot { advanced_eq_profile: Some(v@), ..s },
        DeviceEvent::Gestures(v) => SpecSnapshot { gestures: v@, ..s },
        DeviceEvent::BassEnhance(v) => SpecSnapshot { bass_enhance: v, ..s },
        DeviceEvent::InEarDetection(v) => SpecSnapshot { in_ear_detection: Some(v), ..s },
        DeviceEvent::LowLag(v) => SpecSnapshot { low_lag: Some(v), ..s },
        DeviceEvent::AudioCodec(v) => SpecSnapshot { audio_codec: Some(v), ..s },
        DeviceEvent::DualConnection(v) => SpecSnapshot { dual_connection: Some(v), ..s },
        DeviceEvent::DualConnectionDevices(v) => SpecSnapshot { dual_devices: v.deep_view(), ..s },
        DeviceEvent::Firmware(v) => SpecSnapshot { firmware: Some(v@), ..s },
        _ => s,
    }
}

fn copy_devices(devices: &Vec<DualConnectionDevice>) -> (r: Vec<DualConnectionDevice>)
    ensures
        r.deep_view() == devices.deep_view(),
{
    let mut r: Vec<DualConnectionDevice> = Vec::new();
    let mut i: usize = 0;
    while i < devices.len()
        invariant
            i <= devices@.len(),
            r.deep_view() =~= devices.deep_view().take(i as int),
        decreases devices@.len() - i,
    {
        let ghost before = r.deep_view();
        r.push(devices[i].copy());
        assert(r.deep_view() =~= before.push(devices@[i as int].deep_view()));
        assert(devices.deep_view().take(i + 1) =~= devices.deep_view().take(i as int).push(
            devices.deep_view()[i as int],
        ));
        i = i + 1;
    }
    assert(devices.deep_view().take(devices@.len() as int) =~= devices.deep_view());
    r
}

/// Folds a device report into the confirmed state.
pub fn apply_confirmed_event(snapshot: &mut DeviceSnapshot, event: &DeviceEvent)
    ensures
        final(snapshot)@ == confirm_spec(old(snapshot)@, *event),
{
    match event {
        DeviceEvent::ConnectionChanged(value) => snapshot.connection = *value,
        DeviceEvent::Snapshot(value) => {
            let mut fresh = value.copy();
            assert(fresh.dual_devices@.len() == fresh.dual_devices.deep_view().len());
            assert(value.dual_devices@.len() == value.dual_devices.deep_view().len());
            if fresh.dual_devices.len() == 0 {
                fresh.dual_devices = copy_devices(&snapshot.dual_devices);
            }
            *snapshot = fresh;
        },
        DeviceEvent::Battery(value) => snapshot.battery = *value,
        DeviceEvent::Wear(value) => snapshot.wear = *value,
        DeviceEvent::Anc { mode, level } => {
            snapshot.anc_mode = *mode;
            snapshot.anc_level = *level;
        },
        DeviceEvent::Eq(value) => snapshot.eq_preset = *value,
        DeviceEvent::CustomEq(value) => snapshot.custom_eq = *value,
        DeviceEvent::AdvancedEqEnabled(value) => snapshot.advanced_eq_enabled = Some(*value),
        DeviceEvent::AdvancedEqProfile(value) => snapshot.advanced_eq_profile = Some(value.copy()),
        DeviceEvent::Gestures(value) => snapshot.gestures = *value,
        DeviceEvent::BassEnhance(value) => snapshot.bass_enhance = *value,
        DeviceEvent::InEarDetection(value) => snapshot.in_ear_detection = Some(*value),
        DeviceEvent::LowLag(value) => snapshot.low_lag = Some(*value),
        DeviceEvent::AudioCodec(value) => snapshot.audio_codec = Some(*value),
        DeviceEvent::DualConnection(value) => snapshot.dual_connection = Some(*value),
        DeviceEvent::DualConnectionDevices(value) => snapshot.dual_devices = copy_devices(value),
        DeviceEvent::Firmware(value) => snapshot.firmware = Some(value.clone()),
        _ => {},
    }
}

// ----------------------------------------------------------- optimistic state

/// `AA:BB:CC:DD:EE:FF`: the address in upper-case hex, most significant
/// byte first.
pub open spec fn address_text(a: [u8; 6]) -> Seq<char> {
    hex_byte(a[0]) + seq![':'] + hex_byte(a[1]) + seq![':'] + hex_byte(a[2]) + seq![':']
        + hex_byte(a[3]) + seq![':'] + hex_byte(a[4]) + seq![':'] + hex_byte(a[5])
}

/// The index of the first listed device with address `text` among the first `n`.
pub open spec fn device_index(ds: Seq<SpecDualDevice>, text: Seq<char>, n: int) -> Option<int>
    decreases n,
{
    if n <= 0 {
        None
    } else {
        match device_index(ds, text, n - 1) {
            Some(i) => Some(i),
            None => if ds[n - 1].address == text {
                Some(n - 1)
            } else {
                None
            },
        }
    }
}

/// The state a command will produce once the device accepts it.
pub open spec fn optimistic_spec(s: SpecSnapshot, c: DeviceCommand) -> SpecSnapshot {
    match c {
        DeviceCommand::SetAnc { mode, level } => SpecSnapshot { anc_mode: mode, anc_level: level, ..s },
        DeviceCommand::SetEqPreset(v) => SpecSnapshot { eq_preset: v, ..s },
        DeviceCommand::SetCustomEq(v) => SpecSnapshot { custom_eq: v, ..s },
        DeviceCommand::SetAdvancedEqEnabled(v) => SpecSnapshot { advanced_eq_enabled: Some(v), ..s },
        DeviceCommand::SetAdvancedEqProfile(p) => SpecSnapshot { advanced_eq_profile: Some(p@), ..s },
        DeviceCommand::SetGesture { side, gesture, action } => SpecSnapshot {
            gestures: s.gestures.insert((side, gesture), action),
            ..s
        },
        DeviceCommand::SetBassEnhance(v) => SpecSnapshot { bass_enhance: v, ..s },
        DeviceCommand::SetInEarDetection(v) => SpecSnapshot { in_ear_detection: Some(v), ..s },
        DeviceCommand::SetLowLag(v) => SpecSnapshot { low_lag: Some(v), ..s },
        DeviceCommand::SetDualConnection(v) => SpecSnapshot { dual_connection: Some(v), ..s },
        DeviceCommand::SetDualConnectionDevice { connect, address } => {
            let ds = s.dual_devices;
            match device_index(ds, address_text(address), ds.len() as int) {
                Some(i) => SpecSnapshot {
                    dual_devices: ds.update(i, SpecDualDevice { connected: connect, ..ds[i] }),
                    ..s
                },
                None => s,
            }
        },
        DeviceCommand::SetAudioCodec(v) => SpecSnapshot { audio_codec: Some(v), ..s },
        _ => s,
    }
}

fn format_address(a: &[u8; 6]) -> (r: String)
    ensures
        r@ == address_text(*a),
{
    let mut r = String::new();
    push_hex_byte(&mut r, a[0]);
    push_char(&mut r, ':');
    push_hex_byte(&mut r, a[1]);
    push_char(&mut r, ':');
    push_hex_byte(&mut r, a[2]);
    push_char(&mut r, ':');
    push_hex_byte(&mut r, a[3]);
    push_char(&mut r, ':');
    push_hex_byte(&mut r, a[4]);
    push_char(&mut r, ':');
    push_hex_byte(&mut r, a[5]);
    assert(r@ =~= address_text(*a));
    r
}

proof fn lemma_device_index_prefix(ds: Seq<SpecDualDevice>, text: Seq<char>, m: int, n: int)
    requires
        0 <= m <= n,
        device_index(ds, text, m) is Some,
    ensures
        device_index(ds, text, n) == device_index(ds, text, m),
    decreases n - m,
{
    if n > m {
        lemma_device_index_prefix(ds, text, m, n - 1);
    }
}

/// Marks the listed device with `address` as connected or not.
fn set_device_connected(devices: &mut Vec<DualConnectionDevice>, address: &[u8; 6], connect: bool)
    ensures
        final(devices).deep_view() == match device_index(
            old(devices).deep_view(),
            address_text(*address),
            old(devices)@.len() as int,
        ) {
            Some(i) => old(devices).deep_view().update(
                i,
                SpecDualDevice { connected: connect, ..old(devices).deep_view()[i] },
            ),
            None => old(devices).deep_view(),
        },
{
    let text = format_address(address);
    let ghost ds = devices.deep_view();
    let mut i: usize = 0;
    while i < devices.len()
        invariant
            devices.deep_view() == ds,
            ds == old(devices).deep_view(),
            text@ == address_text(*address),
            devices@.len() == ds.len(),
            i <= ds.len(),
            device_index(ds, text@, i as int) is None,
        decreases ds.len() - i,
    {
        assert(ds[i as int] == devices@[i as int].deep_view());
        if devices[i].address == text {
            proof {
                assert(device_index(ds, text@, i + 1) == Some(i as int));
                lemma_device_index_prefix(ds, text@, i + 1, ds.len() as int);
            }
            let mut d = devices[i].copy();
            d.connected = connect;
            devices.set(i, d);
            assert(device_index(ds, address_text(*address), ds.len() as int) == Some(i as int));
            assert(devices.deep_view() =~= ds.update(
                i as int,
                SpecDualDevice { connected: connect, ..ds[i as int] },
            ));
            return;
        }
        i = i + 1;
    }
}

/// Applies a command in flight to the displayed state.
pub fn apply_optimistic_command(snapshot: &mut DeviceSnapshot, command: &DeviceCommand)
    ensures
        final(snapshot)@ == optimistic_spec(old(snapshot)@, *command),
{
    match command {
        DeviceCommand::SetAnc { mode, level } => {
            snapshot.anc_mode = *mode;
            snapshot.anc_level = *level;
        },
        DeviceCommand::SetEqPreset(value) => snapshot.eq_preset = *value,
        DeviceCommand::SetCustomEq(value) => snapshot.custom_eq = *value,
        DeviceCommand::SetAdvancedEqEnabled(value) => snapshot.advanced_eq_enabled = Some(*value),
        DeviceCommand::SetAdvancedEqProfile(value) => {
            let p: &AdvancedEqProfile = value;
            snapshot.advanced_eq_profile = Some(p.copy());
        },
        DeviceCommand::SetGesture { side, gesture, action } => {
            snapshot.gestures.insert(*side, *gesture, *action);
        },
        DeviceCommand::SetBassEnhance(value) => snapshot.bass_enhance = *value,
        DeviceCommand::SetInEarDetection(value) => snapshot.in_ear_detection = Some(*value),
        DeviceCommand::SetLowLag(value) => snapshot.low_lag = Some(*value),
        DeviceCommand::SetDualConnection(value) => snapshot.dual_connection = Some(*value),
        DeviceCommand::SetDualConnectionDevice { connect, address } => {
            set_device_connected(&mut snapshot.dual_devices, address, *connect);
        },
        DeviceCommand::SetAudioCodec(value) => snapshot.audio_codec = Some(*value),
        _ => {},
    }
}

// ----------------------------------------------------------- commands in flight

/// A command the session sent and the device has not settled yet.
#[derive(Debug, Clone)]
pub struct PendingCommand {
    pub sequence: u8,
    pub command: DeviceCommand,
}

/// The first of the first `n` pending commands with sequence `s`.
pub open spec fn sequence_position(ps: Seq<PendingCommand>, s: u8, n: int) -> Option<int>
    decreases n,
{
    if n <= 0 {
        None
    } else {
        match sequence_position(ps, s, n - 1) {
            Some(i) => Some(i),
            None => if ps[n - 1].sequence == s {
                Some(n - 1)
            } else {
                None
            },
        }
    }
}

/// The first of the first `n` pending commands equal to `c`.
pub open spec fn command_position(ps: Seq<PendingCommand>, c: DeviceCommand, n: int) -> Option<int>
    decreases n,
{
    if n <= 0 {
        None
    } else {
        match command_position(ps, c, n - 1) {
            Some(i) => Some(i),
            None => if same_command(ps[n - 1].command, c) {
                Some(n - 1)
            } else {
                None
            },
        }
    }
}

/// Which pending command a settlement refers to: the first one with its
/// sequence number, else the first one equal to its command.
pub open spec fn pending_index(ps: Seq<PendingCommand>, sequence: Option<u8>, c: DeviceCommand) -> Option<
    int,
> {
    match sequence {
        Some(s) => match sequence_position(ps, s, ps.len() as int) {
            Some(i) => Some(i),
            None => command_position(ps, c, ps.len() as int),
        },
        None => command_position(ps, c, ps.len() as int),
    }
}

/// The pending commands once the one a settlement refers to is gone.
pub open spec fn settled(ps: Seq<PendingCommand>, sequence: Option<u8>, c: DeviceCommand) -> Seq<
    PendingCommand,
> {
    match pending_index(ps, sequence, c) {
        Some(i) => ps.remove(i),
        None => ps,
    }
}

proof fn lemma_sequence_position(ps: Seq<PendingCommand>, s: u8, m: int, n: int)
    requires
        0 <= m <= n,
        sequence_position(ps, s, m) is Some,
    ensures
        sequence_position(ps, s, n) == sequence_position(ps, s, m),
    decreases n - m,
{
    if n > m {
        lemma_sequence_position(ps, s, m, n - 1);
    }
}

proof fn lemma_command_position(ps: Seq<PendingCommand>, c: DeviceCommand, m: int, n: int)
    requires
        0 <= m <= n,
        command_position(ps, c, m) is Some,
    ensures
        command_position(ps, c, n) == command_position(ps, c, m),
    decreases n - m,
{
    if n > m {
        lemma_command_position(ps, c, m, n - 1);
    }
}

proof fn lemma_positions_in_range(ps: Seq<PendingCommand>, s: u8, c: DeviceCommand, n: int)
    ensures
        sequence_position(ps, s, n) matches Some(i) ==> 0 <= i < n,
        command_position(ps, c, n) matches Some(i) ==> 0 <= i < n,
    decreases n,
{
    if n > 0 {
        lemma_positions_in_range(ps, s, c, n - 1);
    }
}

fn profiles_equal(p: &AdvancedEqProfile, q: &AdvancedEqProfile) -> (r: bool)
    ensures
        r == (p@ == q@),
{
    if p.name != q.name || p.bands.len() != q.bands.len() {
        return false;
    }
    let mut i: usize = 0;
    while i < p.bands.len()
        invariant
            p.bands@.len() == q.bands@.len(),
            p.name@ == q.name@,
            i <= p.bands@.len(),
            forall|j: int| 0 <= j < i ==> p.bands@[j] == q.bands@[j],
        decreases p.bands@.len() - i,
    {
        if p.bands[i] != q.bands[i] {
            return false;
        }
        i = i + 1;
    }
    assert(p.bands@ =~= q.bands@);
    true
}

/// Whether two commands are the same command.
pub fn commands_match(a: &DeviceCommand, b: &DeviceCommand) -> (r: bool)
    ensures
        r == same_command(*a, *b),
{
    match (a, b) {
        (DeviceCommand::Activate, DeviceCommand::Activate) => true,
        (DeviceCommand::QueryBattery, DeviceCommand::QueryBattery) => true,
        (DeviceCommand::QueryWear, DeviceCommand::QueryWear) => true,
        (DeviceCommand::QueryAnc, DeviceCommand::QueryAnc) => true,
        (DeviceCommand::QueryEq, DeviceCommand::QueryEq) => true,
        (DeviceCommand::QueryCustomEq, DeviceCommand::QueryCustomEq) => true,
        (DeviceCommand::QueryAdvancedEqProfile, DeviceCommand::QueryAdvancedEqProfile) => true,
        (DeviceCommand::QueryFirmware, DeviceCommand::QueryFirmware) => true,
        (DeviceCommand::QueryGestures, DeviceCommand::QueryGestures) => true,
        (DeviceCommand::QueryInEarDetection, DeviceCommand::QueryInEarDetection) => true,
        (DeviceCommand::QueryLowLag, DeviceCommand::QueryLowLag) => true,
        (DeviceCommand::QueryBassEnhance, DeviceCommand::QueryBassEnhance) => true,
        (DeviceCommand::QueryAdvancedEq, DeviceCommand::QueryAdvancedEq) => true,
        (DeviceCommand::QueryAudioCodec, DeviceCommand::QueryAudioCodec) => true,
        (DeviceCommand::QueryDualConnection, DeviceCommand::QueryDualConnection) => true,
        (
            DeviceCommand::QueryDualConnectionDevices { page: x },
            DeviceCommand::QueryDualConnectionDevices { page: y },
        ) => x == y,
        (
            DeviceCommand::SetAnc { mode: m1, level: l1 },
            DeviceCommand::SetAnc { mode: m2, level: l2 },
        ) => m1 == m2 && l1 == l2,
        (DeviceCommand::SetEqPreset(x), DeviceCommand::SetEqPreset(y)) => x == y,
        (DeviceCommand::SetCustomEq(x), DeviceCommand::SetCustomEq(y)) => {
            let same = x[0] == y[0] && x[1] == y[1] && x[2] == y[2];
            assert(same ==> *x =~= *y);
            same
        },
        (DeviceCommand::SetAdvancedEqEnabled(x), DeviceCommand::SetAdvancedEqEnabled(y)) => x == y,
        (DeviceCommand::SetAdvancedEqProfile(p), DeviceCommand::SetAdvancedEqProfile(q)) => {
            let p: &AdvancedEqProfile = p;
            let q: &AdvancedEqProfile = q;
            profiles_equal(p, q)
        },
        (
            DeviceCommand::SetGesture { side: s1, gesture: g1, action: a1 },
            DeviceCommand::SetGesture { side: s2, gesture: g2, action: a2 },
        ) => s1 == s2 && g1 == g2 && a1 == a2,
        (DeviceCommand::SetBassEnhance(x), DeviceCommand::SetBassEnhance(y)) => x == y,
        (DeviceCommand::SetInEarDetection(x), DeviceCommand::SetInEarDetection(y)) => x == y,
        (DeviceCommand::SetLowLag(x), DeviceCommand::SetLowLag(y)) => x == y,
        (
            DeviceCommand::FindBud { side: s1, ringing: r1 },
            DeviceCommand::FindBud { side: s2, ringing: r2 },
        ) => s1 == s2 && r1 == r2,
        (DeviceCommand::StartFitTest, DeviceCommand::StartFitTest) => true,
        (DeviceCommand::CancelFitTest, DeviceCommand::CancelFitTest) => true,
        (DeviceCommand::SetDualConnection(x), DeviceCommand::SetDualConnection(y)) => x == y,
        (
            DeviceCommand::SetDualConnectionDevice { connect: c1, address: a1 },
            DeviceCommand::SetDualConnectionDevice { connect: c2, address: a2 },
        ) => {
            let same = c1 == c2 && a1[0] == a2[0] && a1[1] == a2[1] && a1[2] == a2[2] && a1[3]
                == a2[3] && a1[4] == a2[4] && a1[5] == a2[5];
            assert(same ==> *a1 =~= *a2);
            same
        },
        (DeviceCommand::SetAudioCodec(x), DeviceCommand::SetAudioCodec(y)) => x == y,
        _ => false,
    }
}

/// Drops the pending command that a settlement refers to: the first one with
/// its sequence number, else the first one equal to its command.
pub fn remove_pending(pending: &mut Vec<PendingCommand>, sequence: Option<u8>, command: &DeviceCommand)
    ensures
        final(pending)@ == settled(old(pending)@, sequence, *command),
{
    let ghost ps = pending@;
    let n = pending.len();
    proof {
        lemma_positions_in_range(ps, 0, *command, n as int);
        if let Some(s) = sequence {
            lemma_positions_in_range(ps, s, *command, n as int);
        }
    }
    if let Some(s) = sequence {
        let mut i: usize = 0;
        while i < n
            invariant
                pending@ == ps,
                ps == old(pending)@,
                sequence == Some(s),
                n == ps.len(),
                i <= n,
                sequence_position(ps, s, i as int) is None,
            decreases n - i,
        {
            if pending[i].sequence == s {
                proof {
                    lemma_sequence_position(ps, s, i + 1, n as int);
                }
                pending.remove(i);
                return;
            }
            i = i + 1;
        }
    }
    let mut i: usize = 0;
    while i < n
        invariant
            pending@ == ps,
            ps == old(pending)@,
            n == ps.len(),
            i <= n,
            sequence matches Some(s) ==> sequence_position(ps, s, n as int) is None,
            command_position(ps, *command, i as int) is None,
        decreases n - i,
    {
        if commands_match(&pending[i].command, command) {
            proof {
                lemma_command_position(ps, *command, i + 1, n as int);
            }
            pending.remove(i);
            return;
        }
        i = i + 1;
    }
}

/// The displayed state: the confirmed one with the commands in flight
/// applied in the order they were sent.
pub open spec fn overlay(s: SpecSnapshot, ps: Seq<PendingCommand>) -> SpecSnapshot
    decreases ps.len(),
{
    if ps.len() == 0 {
        s
    } else {
        optimistic_spec(overlay(s, ps.drop_last()), ps.last().command)
    }
}

pub struct DisplayView {
    pub confirmed: SpecSnapshot,
    pub pending: Seq<PendingCommand>,
}

/// How an event from the session changes what the window knows.
pub open spec fn display_step(m: DisplayView, e: DeviceEvent) -> DisplayView {
    match e {
        DeviceEvent::CommandStarted { sequence, command } => DisplayView {
            pending: m.pending.push(PendingCommand { sequence, command }),
            ..m
        },
        DeviceEvent::CommandConfirmed { sequence, command } => DisplayView {
            pending: settled(m.pending, Some(sequence), command),
            ..m
        },
        DeviceEvent::CommandFailed { sequence, command, .. } => DisplayView {
            pending: settled(m.pending, sequence, command),
            ..m
        },
        _ => DisplayView {
            confirmed: confirm_spec(m.confirmed, e),
            pending: if e matches DeviceEvent::ConnectionChanged(v) && v != ConnectionState::Ready {
                Seq::empty()
            } else {
                m.pending
            },
        },
    }
}

/// The part of the window an event from the session changes.
pub open spec fn step_scope(e: DeviceEvent) -> RefreshScope {
    match e {
        DeviceEvent::CommandStarted { command, .. } => command_scope(command),
        DeviceEvent::CommandConfirmed { command, .. } => command_scope(command),
        DeviceEvent::CommandFailed { command, .. } => command_scope(command),
        _ => event_scope(e),
    }
}

/// What the window displays.
pub open spec fn shown(m: DisplayView) -> SpecSnapshot {
    overlay(m.confirmed, m.pending)
}

/// The confirmed device state and the commands in flight.
pub struct DisplayModel {
    confirmed: DeviceSnapshot,
    pending: Vec<PendingCommand>,
}

impl View for DisplayModel {
    type V = DisplayView;

    closed spec fn view(&self) -> DisplayView {
        DisplayView { confirmed: self.confirmed@, pending: self.pending@ }
    }
}

impl DisplayModel {
    /// Nothing confirmed yet and nothing in flight.
    pub fn new() -> (m: DisplayModel)
        ensures
            m@.confirmed == crate::types::default_snapshot(),
            m@.pending.len() == 0,
    {
        DisplayModel { confirmed: DeviceSnapshot::default(), pending: Vec::new() }
    }

    /// Takes an event from the session and says which part of the window
    /// to refresh.
    pub fn apply_event(&mut self, event: DeviceEvent) -> (scope: RefreshScope)
        ensures
            final(self)@ == display_step(old(self)@, event),
            scope == step_scope(event),
    {
        let ghost e = event;
        match event {
            DeviceEvent::CommandStarted { sequence, command } => {
                let scope = scope_for_command(&command);
                self.pending.push(PendingCommand { sequence, command });
                scope
            },
            DeviceEvent::CommandConfirmed { sequence, command } => {
                remove_pending(&mut self.pending, Some(sequence), &command);
                scope_for_command(&command)
            },
            DeviceEvent::CommandFailed { sequence, command, .. } => {
                remove_pending(&mut self.pending, sequence, &command);
                scope_for_command(&command)
            },
            other => {
                let scope = scope_for_event(&other);
                apply_confirmed_event(&mut self.confirmed, &other);
                match other {
                    DeviceEvent::ConnectionChanged(v) => {
                        if v != ConnectionState::Ready {
                            self.pending.clear();
                        }
                    },
                    _ => {},
                }
                assert(self@ =~= display_step(old(self)@, e));
                scope
            },
        }
    }

    /// What the window displays now.
    pub fn displayed(&self) -> (s: DeviceSnapshot)
        ensures
            s@ == shown(self@),
    {
        let mut d = self.confirmed.copy();
        let mut i: usize = 0;
        while i < self.pending.len()
            invariant
                i <= self.pending@.len(),
                d@ == overlay(self.confirmed@, self.pending@.take(i as int)),
            decreases self.pending@.len() - i,
        {
            assert(self.pending@.take(i + 1).drop_last() =~= self.pending@.take(i as int));
            apply_optimistic_command(&mut d, &self.pending[i].command);
            i = i + 1;
        }
        assert(self.pending@.take(self.pending@.len() as int) =~= self.pending@);
        d
    }

    /// The confirmed device state.
    pub fn confirmed(&self) -> (s: &DeviceSnapshot)
        ensures
            s@ == self@.confirmed,
    {
        &self.confirmed
    }

    /// Whether a command is still in flight.
    pub fn updating(&self) -> (b: bool)
        ensures
            b == (self@.pending.len() > 0),
    {
        self.pending.len() > 0
    }
}

// ---------------------------------------------------------------------- laws

/// With no command in flight the window shows exactly the confirmed state.
pub proof fn law_idle_display_is_confirmed(m: DisplayView)
    requires
        m.pending.len() == 0,
    ensures
        shown(m) == m.confirmed,
{
}

/// A command that starts and then settles, confirmed or failed, leaves the
/// window as it was before it started, provided no other command in flight
/// carries its sequence number.
pub proof fn law_settled_command_leaves_no_trace(
    m: DisplayView,
    sequence: u8,
    command: DeviceCommand,
    reported: DeviceCommand,
    reason: String,
)
    requires
        forall|i: int| 0 <= i < m.pending.len() ==> (#[trigger] m.pending[i]).sequence != sequence,
    ensures
        display_step(
            display_step(m, DeviceEvent::CommandStarted { sequence, command }),
            DeviceEvent::CommandConfirmed { sequence, command: reported },
        ) == m,
        display_step(
            display_step(m, DeviceEvent::CommandStarted { sequence, command }),
            DeviceEvent::CommandFailed { sequence: Some(sequence), command: reported, reason },
        ) == m,
        shown(
            display_step(
                display_step(m, DeviceEvent::CommandStarted { sequence, command }),
                DeviceEvent::CommandFailed { sequence: Some(sequence), command: reported, reason },
            ),
        ) == shown(m),
{
    let ps = m.pending.push(PendingCommand { sequence, command });
    let n = m.pending.len() as int;
    assert forall|k: int| 0 <= k <= n implies sequence_position(ps, sequence, k) is None by {
        lemma_no_sequence(m.pending, ps, sequence, k);
    }
    assert(sequence_position(ps, sequence, n) is None);
    assert(ps[n].sequence == sequence);
    assert(sequence_position(ps, sequence, n + 1) == Some(n));
    assert(ps.remove(n) =~= m.pending);
}

proof fn lemma_no_sequence(ps: Seq<PendingCommand>, qs: Seq<PendingCommand>, s: u8, k: int)
    requires
        0 <= k <= ps.len() < qs.len(),
        forall|i: int| 0 <= i < ps.len() ==> (#[trigger] ps[i]).sequence != s,
        forall|i: int| 0 <= i < ps.len() ==> qs[i] == ps[i],
    ensures
        sequence_position(qs, s, k) is None,
    decreases k,
{
    if k > 0 {
        lemma_no_sequence(ps, qs, s, k - 1);
        assert(qs[k - 1] == ps[k - 1]);
    }
}

/// When the connection drops below ready, every command in flight is
/// abandoned and the window shows the confirmed state.
pub proof fn law_lost_connection_shows_confirmed(m: DisplayView, state: ConnectionState)
    requires
        state != ConnectionState::Ready,
    ensures
        display_step(m, DeviceEvent::ConnectionChanged(state)).pending.len() == 0,
        shown(display_step(m, DeviceEvent::ConnectionChanged(state))) == display_step(
            m,
            DeviceEvent::ConnectionChanged(state),
        ).confirmed,
        display_step(m, DeviceEvent::ConnectionChanged(state)).confirmed.connection == state,
{
}

/// The snapshot shows the value that the setting command `c` writes.
pub open spec fn shows_command(s: SpecSnapshot, c: DeviceCommand) -> bool {
    match c {
        DeviceCommand::SetAnc { mode, level } => s.anc_mode == mode && s.anc_level == level,
        DeviceCommand::SetEqPreset(v) => s.eq_preset == v,
        DeviceCommand::SetCustomEq(v) => s.custom_eq == v,
        DeviceCommand::SetAdvancedEqEnabled(v) => s.advanced_eq_enabled == Some(v),
        DeviceCommand::SetAdvancedEqProfile(p) => s.advanced_eq_profile == Some(p@),
        DeviceCommand::SetGesture { side, gesture, action } => s.gestures.contains_key((side, gesture))
            && s.gestures[(side, gesture)] == action,
        DeviceCommand::SetBassEnhance(v) => s.bass_enhance == v,
        DeviceCommand::SetInEarDetection(v) => s.in_ear_detection == Some(v),
        DeviceCommand::SetLowLag(v) => s.low_lag == Some(v),
        DeviceCommand::SetDualConnection(v) => s.dual_connection == Some(v),
        DeviceCommand::SetAudioCodec(v) => s.audio_codec == Some(v),
        _ => true,
    }
}

/// A report from the earbuds: no command settles and the link stays up.
pub open spec fn plain_report(e: DeviceEvent) -> bool {
    &&& !(e is CommandStarted)
    &&& !(e is CommandConfirmed)
    &&& !(e is CommandFailed)
    &&& !(e matches DeviceEvent::ConnectionChanged(v) && v != ConnectionState::Ready)
}

/// The newest command in flight is what the window shows, and a report that
/// arrives meanwhile, stale or not, does not move that control.
pub proof fn law_newest_command_in_flight_is_shown(m: DisplayView, e: DeviceEvent)
    requires
        m.pending.len() > 0,
    ensures
        shows_command(shown(m), m.pending.last().command),
        plain_report(e) ==> display_step(m, e).pending == m.pending && shows_command(
            shown(display_step(m, e)),
            m.pending.last().command,
        ),
{
    assert(shows_command(shown(m), m.pending.last().command));
    if plain_report(e) {
        let n = display_step(m, e);
        assert(n.pending == m.pending);
        assert(shows_command(shown(n), m.pending.last().command));
    }
}

proof fn lemma_overlay_keeps_reports(s: SpecSnapshot, ps: Seq<PendingCommand>)
    ensures
        overlay(s, ps).battery == s.battery,
        overlay(s, ps).wear == s.wear,
        overlay(s, ps).firmware == s.firmware,
        overlay(s, ps).connection == s.connection,
    decreases ps.len(),
{
    if ps.len() > 0 {
        lemma_overlay_keeps_reports(s, ps.drop_last());
    }
}

/// A device report sets, in the confirmed state, exactly the value it
/// carries and nothing else, and keeps the commands in flight. Battery, wear
/// and firmware, which no command changes, are then shown as reported.
pub proof fn law_report_sets_confirmed_value(m: DisplayView, e: DeviceEvent)
    ensures
        e matches DeviceEvent::Battery(b) ==> display_step(m, e) == (DisplayView {
            confirmed: SpecSnapshot { battery: b, ..m.confirmed },
            pending: m.pending,
        }) && shown(display_step(m, e)).battery == b,
        e matches DeviceEvent::Wear(w) ==> display_step(m, e) == (DisplayView {
            confirmed: SpecSnapshot { wear: w, ..m.confirmed },
            pending: m.pending,
        }) && shown(display_step(m, e)).wear == w,
        e matches DeviceEvent::Anc { mode, level } ==> display_step(m, e) == (DisplayView {
            confirmed: SpecSnapshot { anc_mode: mode, anc_level: level, ..m.confirmed },
            pending: m.pending,
        }),
        e matches DeviceEvent::Eq(v) ==> display_step(m, e) == (DisplayView {
            confirmed: SpecSnapshot { eq_preset: v, ..m.confirmed },
            pending: m.pending,
        }),
        e matches DeviceEvent::CustomEq(v) ==> display_step(m, e) == (DisplayView {
            confirmed: SpecSnapshot { custom_eq: v, ..m.confirmed },
            pending: m.pending,
        }),
        e matches DeviceEvent::AdvancedEqEnabled(v) ==> display_step(m, e) == (DisplayView {
            confirmed: SpecSnapshot { advanced_eq_enabled: Some(v), ..m.confirmed },
            pending: m.pending,
        }),
        e matches DeviceEvent::AdvancedEqProfile(v) ==> display_step(m, e) == (DisplayView {
            confirmed: SpecSnapshot { advanced_eq_profile: Some(v@), ..m.confirmed },
            pending: m.pending,
        }),
        e matches DeviceEvent::Gestures(v) ==> display_step(m, e) == (DisplayView {
            confirmed: SpecSnapshot { gestures: v@, ..m.confirmed },
            pending: m.pending,
        }),
        e matches DeviceEvent::BassEnhance(v) ==> display_step(m, e) == (DisplayView {
            confirmed: SpecSnapshot { bass_enhance: v, ..m.confirmed },
            pending: m.pending,
        }),
        e matches DeviceEvent::InEarDetection(v) ==> display_step(m, e) == (DisplayView {
            confirmed: SpecSnapshot { in_ear_detection: Some(v), ..m.confirmed },
            pending: m.pending,
        }),
        e matches DeviceEvent::LowLag(v) ==> display_step(m, e) == (DisplayView {
            confirmed: SpecSnapshot { low_lag: Some(v), ..m.confirmed },
            pending: m.pending,
        }),
        e matches DeviceEvent::AudioCodec(v) ==> display_step(m, e) == (DisplayView {
            confirmed: SpecSnapshot { audio_codec: Some(v), ..m.confirmed },
            pending: m.pending,
        }),
        e matches DeviceEvent::DualConnection(v) ==> display_step(m, e) == (DisplayView {
            confirmed: SpecSnapshot { dual_connection: Some(v), ..m.confirmed },
            pending: m.pending,
        }),
        e matches DeviceEvent::DualConnectionDevices(v) ==> display_step(m, e) == (DisplayView {
            confirmed: SpecSnapshot { dual_devices: v.deep_view(), ..m.confirmed },
            pending: m.pending,
        }),
        e matches DeviceEvent::Firmware(v) ==> display_step(m, e) == (DisplayView {
            confirmed: SpecSnapshot { firmware: Some(v@), ..m.confirmed },
            pending: m.pending,
        }) && shown(display_step(m, e)).firmware == Some(v@),
        e matches DeviceEvent::ConnectionChanged(v) ==> display_step(m, e).confirmed == (SpecSnapshot {
            connection: v,
            ..m.confirmed
        }) && shown(display_step(m, e)).connection == v,
{
    let n = display_step(m, e);
    lemma_overlay_keeps_reports(n.confirmed, n.pending);
}

} // verus!
