use crate::command;
use crate::frame::{Frame, SpecFrame, HOST_CONTROL, MAX_PAYLOAD};
use crate::types::{
    f32_key, f32_within, f32_within_exec, gesture_allows, profile_check, AdvancedEqProfile,
    AncLevel, AncMode, AudioCodec, DeviceCommand, EarbudSide, EqBand, EqPreset, Gesture,
    GestureAction, ProtocolError,
};
use vstd::prelude::*;

verus! {

// ---------------------------------------------------------------- wire values

pub open spec fn anc_wire_spec(mode: AncMode, level: AncLevel) -> u8 {
    match mode {
        AncMode::Off => 5,
        AncMode::Transparency => 7,
        AncMode::NoiseCancellation => match level {
            AncLevel::High => 1,
            AncLevel::Mid => 2,
            AncLevel::Low => 3,
            AncLevel::Adaptive => 4,
        },
    }
}

fn anc_wire(mode: AncMode, level: AncLevel) -> (w: u8)
    ensures
        w == anc_wire_spec(mode, level),
{
    match mode {
        AncMode::Off => 5,
        AncMode::Transparency => 7,
        AncMode::NoiseCancellation => match level {
            AncLevel::High => 1,
            AncLevel::Mid => 2,
            AncLevel::Low => 3,
            AncLevel::Adaptive => 4,
        },
    }
}

pub open spec fn preset_wire_spec(preset: EqPreset) -> Result<u8, ProtocolError> {
    match preset {
        EqPreset::Balanced => Ok(0),
        EqPreset::Voice => Ok(1),
        EqPreset::MoreTreble => Ok(2),
        EqPreset::MoreBass => Ok(3),
        EqPreset::Custom => Ok(5),
        EqPreset::Advanced => Err(
            ProtocolError::UnsupportedCommand("select advanced EQ with SetAdvancedEqEnabled"),
        ),
    }
}

fn preset_wire(preset: EqPreset) -> (r: Result<u8, ProtocolError>)
    ensures
        r == preset_wire_spec(preset),
{
    match preset {
        EqPreset::Balanced => Ok(0),
        EqPreset::Voice => Ok(1),
        EqPreset::MoreTreble => Ok(2),
        EqPreset::MoreBass => Ok(3),
        EqPreset::Custom => Ok(5),
        EqPreset::Advanced => Err(
            ProtocolError::UnsupportedCommand("select advanced EQ with SetAdvancedEqEnabled"),
        ),
    }
}

pub open spec fn codec_wire_spec(codec: AudioCodec) -> u8 {
    match codec {
        AudioCodec::Default => 0,
        AudioCodec::Lhdc => 1,
        AudioCodec::Ldac => 2,
    }
}

fn codec_wire(codec: AudioCodec) -> (w: u8)
    ensures
        w == codec_wire_spec(codec),
{
    match codec {
        AudioCodec::Default => 0,
        AudioCodec::Lhdc => 1,
        AudioCodec::Ldac => 2,
    }
}

pub open spec fn side_wire_spec(side: EarbudSide) -> u8 {
    match side {
        EarbudSide::Left => 2,
        EarbudSide::Right => 3,
    }
}

fn side_wire(side: EarbudSide) -> (w: u8)
    ensures
        w == side_wire_spec(side),
{
    match side {
        EarbudSide::Left => 2,
        EarbudSide::Right => 3,
    }
}

pub open spec fn gesture_wire_spec(gesture: Gesture) -> u8 {
    match gesture {
        Gesture::SinglePinch => 1,
        Gesture::DoublePinch => 2,
        Gesture::TriplePinch => 3,
        Gesture::PinchAndHold => 7,
        Gesture::DoublePinchAndHold => 9,
    }
}

fn gesture_wire(gesture: Gesture) -> (w: u8)
    ensures
        w == gesture_wire_spec(gesture),
{
    match gesture {
        Gesture::SinglePinch => 1,
        Gesture::DoublePinch => 2,
        Gesture::TriplePinch => 3,
        Gesture::PinchAndHold => 7,
        Gesture::DoublePinchAndHold => 9,
    }
}

pub open spec fn action_wire_spec(action: GestureAction) -> u8 {
    match action {
        GestureAction::PlayPause => 2,
        GestureAction::SkipBack => 8,
        GestureAction::SkipForward => 9,
        GestureAction::VoiceAssistant => 11,
        GestureAction::NoiseControl => 10,
        GestureAction::VolumeUp => 18,
        GestureAction::VolumeDown => 19,
        GestureAction::NoAction => 1,
    }
}

fn action_wire(action: GestureAction) -> (w: u8)
    ensures
        w == action_wire_spec(action),
{
    match action {
        GestureAction::PlayPause => 2,
        GestureAction::SkipBack => 8,
        GestureAction::SkipForward => 9,
        GestureAction::VoiceAssistant => 11,
        GestureAction::NoiseControl => 10,
        GestureAction::VolumeUp => 18,
        GestureAction::VolumeDown => 19,
        GestureAction::NoAction => 1,
    }
}

// ------------------------------------------------------------ binary32 fields

/// Little-endian bytes of a 32-bit word.
pub open spec fn le32(x: u32) -> Seq<u8> {
    seq![(x % 256) as u8, ((x / 256) % 256) as u8, ((x / 65536) % 256) as u8, (x / 16777216) as u8]
}

/// The 32-bit word stored little-endian at `p[i..i + 4]`.
pub open spec fn le32_at(p: Seq<u8>, i: int) -> u32 {
    (p[i] as int + 256 * (p[i + 1] as int) + 65536 * (p[i + 2] as int) + 16777216 * (
    p[i + 3] as int)) as u32
}

/// The bits of `-x` for binary32 bits `x`.
pub open spec fn negate_bits(x: u32) -> u32 {
    if x >= 0x8000_0000 {
        (x - 0x8000_0000) as u32
    } else {
        (x + 0x8000_0000) as u32
    }
}

/// `gains[..n].fold(0.0, f32::max)` as bits; a tie keeps the running value.
pub open spec fn headroom(gains: Seq<u32>, n: int) -> u32
    decreases n,
{
    if n <= 0 {
        0
    } else {
        let acc = headroom(gains, n - 1);
        if f32_key(gains[n - 1]) > f32_key(acc) {
            gains[n - 1]
        } else {
            acc
        }
    }
}

/// `s` with `b` written over it from index `at`.
pub open spec fn put(s: Seq<u8>, at: int, b: Seq<u8>) -> Seq<u8> {
    s.take(at) + b + s.skip(at + b.len())
}

fn push_le32(v: &mut Vec<u8>, x: u32)
    ensures
        final(v)@ == old(v)@ + le32(x),
{
    v.push((x % 256) as u8);
    v.push(((x / 256) % 256) as u8);
    v.push(((x / 65536) % 256) as u8);
    v.push((x / 16777216) as u8);
}

fn write_le32(v: &mut Vec<u8>, at: usize, x: u32)
    requires
        at + 4 <= old(v)@.len(),
    ensures
        final(v)@ == put(old(v)@, at as int, le32(x)),
{
    let n = v.len();
    assert(at + 4 <= n);
    v.set(at, (x % 256) as u8);
    v.set(at + 1, ((x / 256) % 256) as u8);
    v.set(at + 2, ((x / 65536) % 256) as u8);
    v.set(at + 3, (x / 16777216) as u8);
    assert(final(v)@ =~= put(old(v)@, at as int, le32(x)));
}

fn read_le32(p: &[u8], i: usize) -> (x: u32)
    requires
        i + 4 <= p@.len(),
    ensures
        x == le32_at(p@, i as int),
{
    (p[i] as u32) + (p[i + 1] as u32) * 256 + (p[i + 2] as u32) * 65536 + (p[i + 3] as u32)
        * 16777216
}

fn f32_key_exec(x: u32) -> (k: i64)
    ensures
        k == f32_key(x),
{
    if x >= 0x8000_0000 {
        -((x - 0x8000_0000) as i64)
    } else {
        x as i64
    }
}

fn negate(x: u32) -> (r: u32)
    ensures
        r == negate_bits(x),
{
    if x >= 0x8000_0000 {
        x - 0x8000_0000
    } else {
        x + 0x8000_0000
    }
}

/// Fixed bytes of the three-band custom EQ write; the headroom and the gains
/// are written over them.
pub const CUSTOM_EQ_TEMPLATE: [u8; 53] = [
    3, 0, 0, 0, 0, 1, 0, 0, 0, 0, 0, 0, 0x75, 0x44, 0xc3, 0xf5, 0x28, 0x3f, 2, 0, 0, 0, 0, 0, 0xc0,
    0x5a, 0x45, 0, 0, 0x80, 0x3f, 0, 0, 0, 0, 0, 0, 0, 0x0c, 0x43, 0xcd, 0xcc, 0x4c, 0x3f, 0, 0,
    0, 0, 0, 0, 0, 0, 0,
];

pub const CUSTOM_GAIN_MIN_DB: u32 = 0xc0c00000;  // -6.0
pub const CUSTOM_GAIN_MAX_DB: u32 = 0x40c00000;  // 6.0

/// Payload of a three-band custom EQ write.
pub open spec fn custom_eq_payload(gains: [u32; 3]) -> Seq<u8> {
    let h = negate_bits(headroom(gains@, 3));
    put(
        put(put(put(CUSTOM_EQ_TEMPLATE@, 1, le32(h)), 6, le32(gains[0])), 19, le32(gains[1])),
        32,
        le32(gains[2]),
    )
}

/// Every custom gain is finite and within ±6 dB.
pub open spec fn custom_gains_ok(gains: [u32; 3]) -> bool {
    forall|i: int| 0 <= i < 3 ==> f32_within(#[trigger] gains[i], CUSTOM_GAIN_MIN_DB, CUSTOM_GAIN_MAX_DB)
}

fn encode_custom_eq(gains: [u32; 3]) -> (r: Result<Vec<u8>, ProtocolError>)
    ensures
        custom_gains_ok(gains) ==> (r matches Ok(p) && p@ == custom_eq_payload(gains)),
        !custom_gains_ok(gains) ==> r == Err::<Vec<u8>, ProtocolError>(
            ProtocolError::InvalidValue("custom EQ gain"),
        ),
{
    let mut i: usize = 0;
    while i < 3
        invariant
            i <= 3,
            forall|j: int|
                0 <= j < i ==> f32_within(#[trigger] gains[j], CUSTOM_GAIN_MIN_DB, CUSTOM_GAIN_MAX_DB),
        decreases 3 - i,
    {
        if !f32_within_exec(gains[i], CUSTOM_GAIN_MIN_DB, CUSTOM_GAIN_MAX_DB) {
            return Err(ProtocolError::InvalidValue("custom EQ gain"));
        }
        i = i + 1;
    }
    let mut payload: Vec<u8> = Vec::new();
    let mut k: usize = 0;
    while k < 53
        invariant
            k <= 53,
            payload@ =~= CUSTOM_EQ_TEMPLATE@.take(k as int),
        decreases 53 - k,
    {
        payload.push(CUSTOM_EQ_TEMPLATE[k]);
        k = k + 1;
    }
    assert(CUSTOM_EQ_TEMPLATE@.take(53) =~= CUSTOM_EQ_TEMPLATE@);
    let mut acc: u32 = 0;
    let mut j: usize = 0;
    while j < 3
        invariant
            j <= 3,
            acc == headroom(gains@, j as int),
        decreases 3 - j,
    {
        if f32_key_exec(gains[j]) > f32_key_exec(acc) {
            acc = gains[j];
        }
        j = j + 1;
    }
    write_le32(&mut payload, 1, negate(acc));
    write_le32(&mut payload, 6, gains[0]);
    write_le32(&mut payload, 19, gains[1]);
    write_le32(&mut payload, 32, gains[2]);
    Ok(payload)
}

/// The bytes of one advanced-EQ band.
pub open spec fn band_bytes(b: EqBand) -> Seq<u8> {
    seq![1u8] + le32(b.gain_db) + le32(b.frequency_hz) + le32(b.q)
}

/// The bytes of the first `n` bands.
pub open spec fn bands_bytes(bands: Seq<EqBand>, n: int) -> Seq<u8>
    decreases n,
{
    if n <= 0 {
        Seq::empty()
    } else {
        bands_bytes(bands, n - 1) + band_bytes(bands[n - 1])
    }
}

/// The gains of a band list.
pub open spec fn gains_of(bands: Seq<EqBand>) -> Seq<u32> {
    Seq::new(bands.len(), |i: int| bands[i].gain_db)
}

/// Payload of an advanced-EQ profile write.
pub open spec fn advanced_eq_payload(bands: Seq<EqBand>) -> Seq<u8> {
    seq![0u8, bands.len() as u8] + le32(negate_bits(headroom(gains_of(bands), bands.len() as int)))
        + bands_bytes(bands, bands.len() as int)
}

fn encode_advanced_eq(profile: &AdvancedEqProfile) -> (r: Result<Vec<u8>, ProtocolError>)
    ensures
        match profile_check(profile.name@, profile.bands@) {
            Ok(()) => r matches Ok(p) && p@ == advanced_eq_payload(profile.bands@),
            Err(e) => r == Err::<Vec<u8>, ProtocolError>(e),
        },
{
    match profile.validate() {
        Ok(()) => {},
        Err(e) => {
            return Err(e);
        },
    }
    let n = profile.bands.len();
    let ghost gains = gains_of(profile.bands@);
    let mut acc: u32 = 0;
    let mut j: usize = 0;
    while j < n
        invariant
            j <= n,
            n == profile.bands@.len(),
            gains == gains_of(profile.bands@),
            acc == headroom(gains, j as int),
        decreases n - j,
    {
        if f32_key_exec(profile.bands[j].gain_db) > f32_key_exec(acc) {
            acc = profile.bands[j].gain_db;
        }
        j = j + 1;
    }
    let mut payload: Vec<u8> = Vec::new();
    payload.push(0);
    payload.push(n as u8);
    push_le32(&mut payload, negate(acc));
    let ghost head = payload@;
    let mut i: usize = 0;
    while i < n
        invariant
            i <= n,
            n == profile.bands@.len(),
            payload@ == head + bands_bytes(profile.bands@, i as int),
        decreases n - i,
    {
        let band = profile.bands[i];
        payload.push(1);
        push_le32(&mut payload, band.gain_db);
        push_le32(&mut payload, band.frequency_hz);
        push_le32(&mut payload, band.q);
        assert(payload@ =~= head + bands_bytes(profile.bands@, i + 1));
        i = i + 1;
    }
    assert(payload@ =~= advanced_eq_payload(profile.bands@));
    Ok(payload)
}

// ----------------------------------------------------------------- commands

/// Identifier and payload of a read-only command; `None` for the others.
pub open spec fn query_wire(c: DeviceCommand) -> Option<(u16, Seq<u8>)> {
    match c {
        DeviceCommand::Activate => Some((command::ACTIVATE, seq![])),
        DeviceCommand::QueryBattery => Some((command::QUERY_BATTERY, seq![])),
        DeviceCommand::QueryWear => Some((command::QUERY_WEAR, seq![])),
        DeviceCommand::QueryAnc => Some((command::QUERY_ANC, seq![3u8])),
        DeviceCommand::QueryEq => Some((command::QUERY_EQ, seq![])),
        DeviceCommand::QueryCustomEq => Some((command::QUERY_CUSTOM_EQ, seq![])),
        DeviceCommand::QueryAdvancedEqProfile => Some((command::QUERY_ADVANCED_EQ_PROFILE, seq![0u8])),
        DeviceCommand::QueryFirmware => Some((command::QUERY_FIRMWARE, seq![])),
        DeviceCommand::QueryGestures => Some((command::QUERY_GESTURES, seq![])),
        DeviceCommand::QueryInEarDetection => Some((command::QUERY_IN_EAR, seq![])),
        DeviceCommand::QueryLowLag => Some((command::QUERY_LOW_LAG, seq![])),
        DeviceCommand::QueryBassEnhance => Some((command::QUERY_BASS, seq![])),
        DeviceCommand::QueryAdvancedEq => Some((command::QUERY_ADVANCED_EQ, seq![])),
        DeviceCommand::QueryAudioCodec => Some((command::QUERY_AUDIO_CODEC, seq![])),
        DeviceCommand::QueryDualConnection => Some((command::QUERY_DUAL_CONNECTION, seq![])),
        _ => None,
    }
}

/// Identifier and payload of a command that is not a plain query, or why it
/// cannot be sent.
pub open spec fn setting_wire(c: DeviceCommand) -> Result<(u16, Seq<u8>), ProtocolError> {
    match c {
        DeviceCommand::SetAnc { mode, level } => Ok(
            (command::SET_ANC, seq![1u8, anc_wire_spec(mode, level), 0u8]),
        ),
        DeviceCommand::SetEqPreset(preset) => match preset_wire_spec(preset) {
            Ok(w) => Ok((command::SET_EQ, seq![w])),
            Err(e) => Err(e),
        },
        DeviceCommand::SetCustomEq(gains) => if custom_gains_ok(gains) {
            Ok((command::SET_CUSTOM_EQ, custom_eq_payload(gains)))
        } else {
            Err(ProtocolError::InvalidValue("custom EQ gain"))
        },
        DeviceCommand::SetAdvancedEqEnabled(enabled) => Ok(
            (command::SET_ADVANCED_EQ, seq![if enabled { 1u8 } else { 0u8 }]),
        ),
        DeviceCommand::SetAdvancedEqProfile(profile) => match profile_check(
            profile.name@,
            profile.bands@,
        ) {
            Ok(()) => Ok((command::SET_ADVANCED_EQ_PROFILE, advanced_eq_payload(profile.bands@))),
            Err(e) => Err(e),
        },
        DeviceCommand::SetGesture { side, gesture, action } => if gesture == Gesture::SinglePinch
            || !gesture_allows(gesture, action) {
            Err(ProtocolError::InvalidValue("gesture action"))
        } else {
            Ok(
                (
                    command::SET_GESTURE,
                    seq![1u8, side_wire_spec(side), 1u8, gesture_wire_spec(gesture), action_wire_spec(action)],
                ),
            )
        },
        DeviceCommand::SetBassEnhance(level) => match level {
            Some(v) => if 1 <= v <= 5 {
                Ok((command::SET_BASS, seq![1u8, (v * 2) as u8]))
            } else {
                Err(ProtocolError::InvalidValue("Bass Enhance level"))
            },
            None => Ok((command::SET_BASS, seq![0u8, 0u8])),
        },
        DeviceCommand::SetInEarDetection(enabled) => Ok(
            (command::SET_IN_EAR, seq![1u8, 1u8, if enabled { 1u8 } else { 0u8 }]),
        ),
        DeviceCommand::SetLowLag(enabled) => Ok(
            (command::SET_LOW_LAG, seq![if enabled { 1u8 } else { 2u8 }, 0u8]),
        ),
        DeviceCommand::FindBud { side, ringing } => Ok(
            (command::FIND_BUD, seq![side_wire_spec(side), if ringing { 1u8 } else { 0u8 }]),
        ),
        DeviceCommand::StartFitTest => Ok((command::START_FIT_TEST, seq![1u8])),
        DeviceCommand::CancelFitTest => Ok((command::START_FIT_TEST, seq![0u8])),
        DeviceCommand::SetDualConnection(enabled) => Ok(
            (command::SET_DUAL_CONNECTION, seq![if enabled { 1u8 } else { 0u8 }]),
        ),
        DeviceCommand::SetAudioCodec(codec) => Ok((command::SET_AUDIO_CODEC, seq![codec_wire_spec(codec)])),
        _ => Err(ProtocolError::UnsupportedCommand("dual-connection device list")),
    }
}

/// Command identifier and payload of a command, or why it cannot be sent.
pub open spec fn command_wire(c: DeviceCommand) -> Result<(u16, Seq<u8>), ProtocolError> {
    match query_wire(c) {
        Some(w) => Ok(w),
        None => setting_wire(c),
    }
}

/// The frame that carries a command, or why it cannot be sent.
pub open spec fn encode_command_spec(c: DeviceCommand, sequence: u8) -> Result<SpecFrame, ProtocolError> {
    match command_wire(c) {
        Ok((id, payload)) => Ok(SpecFrame { control: HOST_CONTROL, command: id, sequence, payload }),
        Err(e) => Err(e),
    }
}

fn bytes0() -> (v: Vec<u8>)
    ensures
        v@ == Seq::<u8>::empty(),
{
    Vec::new()
}

fn bytes1(a: u8) -> (v: Vec<u8>)
    ensures
        v@ == seq![a],
{
    let mut v = Vec::new();
    v.push(a);
    assert(v@ =~= seq![a]);
    v
}

fn bytes2(a: u8, b: u8) -> (v: Vec<u8>)
    ensures
        v@ == seq![a, b],
{
    let mut v = Vec::new();
    v.push(a);
    v.push(b);
    assert(v@ =~= seq![a, b]);
    v
}

fn bytes3(a: u8, b: u8, c: u8) -> (v: Vec<u8>)
    ensures
        v@ == seq![a, b, c],
{
    let mut v = Vec::new();
    v.push(a);
    v.push(b);
    v.push(c);
    assert(v@ =~= seq![a, b, c]);
    v
}

fn bytes5(a: u8, b: u8, c: u8, d: u8, e: u8) -> (v: Vec<u8>)
    ensures
        v@ == seq![a, b, c, d, e],
{
    let mut v = Vec::new();
    v.push(a);
    v.push(b);
    v.push(c);
    v.push(d);
    v.push(e);
    assert(v@ =~= seq![a, b, c, d, e]);
    v
}

fn flag(b: bool) -> (r: u8)
    ensures
        r == if b { 1u8 } else { 0u8 },
{
    if b { 1 } else { 0 }
}

fn query_parts(c: &DeviceCommand) -> (r: Option<(u16, Vec<u8>)>)
    ensures
        match query_wire(*c) {
            Some((id, p)) => r matches Some((i, v)) && i == id && v@ == p,
            None => r is None,
        },
{
    match c {
        DeviceCommand::Activate => Some((command::ACTIVATE, bytes0())),
        DeviceCommand::QueryBattery => Some((command::QUERY_BATTERY, bytes0())),
        DeviceCommand::QueryWear => Some((command::QUERY_WEAR, bytes0())),
        DeviceCommand::QueryAnc => Some((command::QUERY_ANC, bytes1(3))),
        DeviceCommand::QueryEq => Some((command::QUERY_EQ, bytes0())),
        DeviceCommand::QueryCustomEq => Some((command::QUERY_CUSTOM_EQ, bytes0())),
        DeviceCommand::QueryAdvancedEqProfile => Some((command::QUERY_ADVANCED_EQ_PROFILE, bytes1(0))),
        DeviceCommand::QueryFirmware => Some((command::QUERY_FIRMWARE, bytes0())),
        DeviceCommand::QueryGestures => Some((command::QUERY_GESTURES, bytes0())),
        DeviceCommand::QueryInEarDetection => Some((command::QUERY_IN_EAR, bytes0())),
        DeviceCommand::QueryLowLag => Some((command::QUERY_LOW_LAG, bytes0())),
        DeviceCommand::QueryBassEnhance => Some((command::QUERY_BASS, bytes0())),
        DeviceCommand::QueryAdvancedEq => Some((command::QUERY_ADVANCED_EQ, bytes0())),
        DeviceCommand::QueryAudioCodec => Some((command::QUERY_AUDIO_CODEC, bytes0())),
        DeviceCommand::QueryDualConnection => Some((command::QUERY_DUAL_CONNECTION, bytes0())),
        _ => None,
    }
}

fn simple_setting_parts(c: &DeviceCommand) -> (r: Option<(u16, Vec<u8>)>)
    ensures
        r matches Some((i, v)) ==> setting_wire(*c) == Ok::<(u16, Seq<u8>), ProtocolError>((i, v@)),
        r is None ==> match c {
            DeviceCommand::SetEqPreset(_) | DeviceCommand::SetCustomEq(_) | DeviceCommand::SetAdvancedEqProfile(_)
            | DeviceCommand::SetGesture { .. } | DeviceCommand::SetBassEnhance(_) => true,
            _ => setting_wire(*c) == Err::<(u16, Seq<u8>), ProtocolError>(
                ProtocolError::UnsupportedCommand("dual-connection device list"),
            ),
        },
{
    match c {
        DeviceCommand::SetAnc { mode, level } => Some((command::SET_ANC, bytes3(1, anc_wire(*mode, *level), 0))),
        DeviceCommand::SetAdvancedEqEnabled(enabled) => Some((command::SET_ADVANCED_EQ, bytes1(flag(*enabled)))),
        DeviceCommand::SetInEarDetection(enabled) => Some((command::SET_IN_EAR, bytes3(1, 1, flag(*enabled)))),
        DeviceCommand::SetLowLag(enabled) => Some((command::SET_LOW_LAG, bytes2(if *enabled { 1 } else { 2 }, 0))),
        DeviceCommand::FindBud { side, ringing } => Some((command::FIND_BUD, bytes2(side_wire(*side), flag(*ringing)))),
        DeviceCommand::StartFitTest => Some((command::START_FIT_TEST, bytes1(1))),
        DeviceCommand::CancelFitTest => Some((command::START_FIT_TEST, bytes1(0))),
        DeviceCommand::SetDualConnection(enabled) => Some((command::SET_DUAL_CONNECTION, bytes1(flag(*enabled)))),
        DeviceCommand::SetAudioCodec(codec) => Some((command::SET_AUDIO_CODEC, bytes1(codec_wire(*codec)))),
        _ => None,
    }
}

fn checked_setting_parts(c: &DeviceCommand) -> (r: Result<(u16, Vec<u8>), ProtocolError>)
    requires
        match c {
            DeviceCommand::SetEqPreset(_) | DeviceCommand::SetCustomEq(_) | DeviceCommand::SetAdvancedEqProfile(_)
            | DeviceCommand::SetGesture { .. } | DeviceCommand::SetBassEnhance(_) => true,
            _ => false,
        },
    ensures
        match setting_wire(*c) {
            Ok((id, p)) => r matches Ok((i, v)) && i == id && v@ == p,
            Err(e) => r == Err::<(u16, Vec<u8>), ProtocolError>(e),
        },
{
    match c {
        DeviceCommand::SetEqPreset(preset) => match preset_wire(*preset) {
            Ok(w) => Ok((command::SET_EQ, bytes1(w))),
            Err(e) => Err(e),
        },
        DeviceCommand::SetCustomEq(gains) => match encode_custom_eq(*gains) {
            Ok(p) => Ok((command::SET_CUSTOM_EQ, p)),
            Err(e) => Err(e),
        },
        DeviceCommand::SetAdvancedEqProfile(profile) => match encode_advanced_eq(profile) {
            Ok(p) => Ok((command::SET_ADVANCED_EQ_PROFILE, p)),
            Err(e) => Err(e),
        },
        DeviceCommand::SetGesture { side, gesture, action } => {
            let single = match gesture {
                Gesture::SinglePinch => true,
                _ => false,
            };
            if single || !gesture.allows(*action) {
                return Err(ProtocolError::InvalidValue("gesture action"));
            }
            Ok((command::SET_GESTURE, bytes5(1, side_wire(*side), 1, gesture_wire(*gesture), action_wire(*action))))
        },
        DeviceCommand::SetBassEnhance(level) => match level {
            Some(v) => {
                if *v < 1 || *v > 5 {
                    return Err(ProtocolError::InvalidValue("Bass Enhance level"));
                }
                Ok((command::SET_BASS, bytes2(1, *v * 2)))
            },
            None => Ok((command::SET_BASS, bytes2(0, 0))),
        },
        _ => Err(ProtocolError::UnsupportedCommand("dual-connection device list")),
    }
}

proof fn lemma_put_len(s: Seq<u8>, at: int, b: Seq<u8>)
    requires
        0 <= at,
        at + b.len() <= s.len(),
    ensures
        put(s, at, b).len() == s.len(),
{
}

proof fn lemma_bands_bytes_len(bands: Seq<EqBand>, n: int)
    requires
        0 <= n <= bands.len(),
    ensures
        bands_bytes(bands, n).len() == 13 * n,
    decreases n,
{
    if n > 0 {
        lemma_bands_bytes_len(bands, n - 1);
    }
}

/// Every payload that a command frames fits well inside the frame bound.
pub proof fn lemma_command_payload_len(c: DeviceCommand)
    ensures
        command_wire(c) matches Ok((_, p)) ==> p.len() <= 110,
{
    match c {
        DeviceCommand::SetCustomEq(gains) => {
            let h = negate_bits(headroom(gains@, 3));
            let t = CUSTOM_EQ_TEMPLATE@;
            lemma_put_len(t, 1, le32(h));
            lemma_put_len(put(t, 1, le32(h)), 6, le32(gains[0]));
            lemma_put_len(put(put(t, 1, le32(h)), 6, le32(gains[0])), 19, le32(gains[1]));
            lemma_put_len(put(put(put(t, 1, le32(h)), 6, le32(gains[0])), 19, le32(gains[1])), 32, le32(gains[2]));
        },
        DeviceCommand::SetAdvancedEqProfile(profile) => {
            lemma_bands_bytes_len(profile.bands@, profile.bands@.len() as int);
        },
        _ => {},
    }
}

/// Frames a command; refuses invalid values and commands without a verified payload.
pub fn encode_command(command_value: &DeviceCommand, sequence: u8) -> (res: Result<Frame, ProtocolError>)
    ensures
        match encode_command_spec(*command_value, sequence) {
            Ok(f) => res matches Ok(frame) && frame@ == f,
            Err(e) => res == Err::<Frame, ProtocolError>(e),
        },
{
    proof {
        lemma_command_payload_len(*command_value);
    }
    let (id, payload) = match query_parts(command_value) {
        Some(parts) => parts,
        None => match simple_setting_parts(command_value) {
            Some(parts) => parts,
            None => {
                let is_checked = match command_value {
                    DeviceCommand::SetEqPreset(_) | DeviceCommand::SetCustomEq(_)
                    | DeviceCommand::SetAdvancedEqProfile(_) | DeviceCommand::SetGesture { .. }
                    | DeviceCommand::SetBassEnhance(_) => true,
                    _ => false,
                };
                if !is_checked {
                    return Err(ProtocolError::UnsupportedCommand("dual-connection device list"));
                }
                match checked_setting_parts(command_value) {
                    Ok(parts) => parts,
                    Err(e) => {
                        return Err(e);
                    },
                }
            },
        },
    };
    Frame::new(id, sequence, payload)
}

/// Finding an earbud sends its side (2 for the left, 3 for the right) and 1
/// to make it ring or 0 to stop it; the fit test is started with 1 and
/// cancelled with 0. None of these is ever refused.
pub proof fn law_find_bud_and_fit_test_frames(side: EarbudSide, ringing: bool, sequence: u8)
    ensures
        encode_command_spec(DeviceCommand::FindBud { side, ringing }, sequence) == Ok::<
            SpecFrame,
            ProtocolError,
        >(
            SpecFrame {
                control: HOST_CONTROL,
                command: command::FIND_BUD,
                sequence,
                payload: seq![
                    if side == EarbudSide::Left { 2u8 } else { 3u8 },
                    if ringing { 1u8 } else { 0u8 },
                ],
            },
        ),
        encode_command_spec(DeviceCommand::StartFitTest, sequence) == Ok::<SpecFrame, ProtocolError>(
            SpecFrame { control: HOST_CONTROL, command: command::START_FIT_TEST, sequence, payload: seq![1u8] },
        ),
        encode_command_spec(DeviceCommand::CancelFitTest, sequence) == Ok::<SpecFrame, ProtocolError>(
            SpecFrame { control: HOST_CONTROL, command: command::START_FIT_TEST, sequence, payload: seq![0u8] },
        ),
{
}

/// Each query is sent as a host frame under its own identifier, carrying
/// nothing but the selector byte that the noise-control query (3) and the
/// advanced-EQ profile query (0) need.
pub proof fn law_query_frames(sequence: u8)
    ensures
        encode_command_spec(DeviceCommand::Activate, sequence) == Ok::<SpecFrame, ProtocolError>(
            SpecFrame { control: HOST_CONTROL, command: command::ACTIVATE, sequence, payload: seq![] },
        ),
        encode_command_spec(DeviceCommand::QueryBattery, sequence) == Ok::<SpecFrame, ProtocolError>(
            SpecFrame { control: HOST_CONTROL, command: command::QUERY_BATTERY, sequence, payload: seq![] },
        ),
        encode_command_spec(DeviceCommand::QueryWear, sequence) == Ok::<SpecFrame, ProtocolError>(
            SpecFrame { control: HOST_CONTROL, command: command::QUERY_WEAR, sequence, payload: seq![] },
        ),
        encode_command_spec(DeviceCommand::QueryAnc, sequence) == Ok::<SpecFrame, ProtocolError>(
            SpecFrame { control: HOST_CONTROL, command: command::QUERY_ANC, sequence, payload: seq![3u8] },
        ),
        encode_command_spec(DeviceCommand::QueryEq, sequence) == Ok::<SpecFrame, ProtocolError>(
            SpecFrame { control: HOST_CONTROL, command: command::QUERY_EQ, sequence, payload: seq![] },
        ),
        encode_command_spec(DeviceCommand::QueryCustomEq, sequence) == Ok::<SpecFrame, ProtocolError>(
            SpecFrame { control: HOST_CONTROL, command: command::QUERY_CUSTOM_EQ, sequence, payload: seq![] },
        ),
        encode_command_spec(DeviceCommand::QueryAdvancedEqProfile, sequence) == Ok::<SpecFrame, ProtocolError>(
            SpecFrame { control: HOST_CONTROL, command: command::QUERY_ADVANCED_EQ_PROFILE, sequence, payload: seq![0u8] },
        ),
        encode_command_spec(DeviceCommand::QueryFirmware, sequence) == Ok::<SpecFrame, ProtocolError>(
            SpecFrame { control: HOST_CONTROL, command: command::QUERY_FIRMWARE, sequence, payload: seq![] },
        ),
        encode_command_spec(DeviceCommand::QueryGestures, sequence) == Ok::<SpecFrame, ProtocolError>(
            SpecFrame { control: HOST_CONTROL, command: command::QUERY_GESTURES, sequence, payload: seq![] },
        ),
        encode_command_spec(DeviceCommand::QueryInEarDetection, sequence) == Ok::<SpecFrame, ProtocolError>(
            SpecFrame { control: HOST_CONTROL, command: command::QUERY_IN_EAR, sequence, payload: seq![] },
        ),
        encode_command_spec(DeviceCommand::QueryLowLag, sequence) == Ok::<SpecFrame, ProtocolError>(
            SpecFrame { control: HOST_CONTROL, command: command::QUERY_LOW_LAG, sequence, payload: seq![] },
        ),
        encode_command_spec(DeviceCommand::QueryBassEnhance, sequence) == Ok::<SpecFrame, ProtocolError>(
            SpecFrame { control: HOST_CONTROL, command: command::QUERY_BASS, sequence, payload: seq![] },
        ),
        encode_command_spec(DeviceCommand::QueryAdvancedEq, sequence) == Ok::<SpecFrame, ProtocolError>(
            SpecFrame { control: HOST_CONTROL, command: command::QUERY_ADVANCED_EQ, sequence, payload: seq![] },
        ),
        encode_command_spec(DeviceCommand::QueryAudioCodec, sequence) == Ok::<SpecFrame, ProtocolError>(
            SpecFrame { control: HOST_CONTROL, command: command::QUERY_AUDIO_CODEC, sequence, payload: seq![] },
        ),
        encode_command_spec(DeviceCommand::QueryDualConnection, sequence) == Ok::<SpecFrame, ProtocolError>(
            SpecFrame { control: HOST_CONTROL, command: command::QUERY_DUAL_CONNECTION, sequence, payload: seq![] },
        ),
{
    assert(Seq::<u8>::empty() =~= seq![]);
}

} // verus!
