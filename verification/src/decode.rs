use crate::command;
use crate::commands::le32_at;
use crate::frame::{Frame, SpecFrame};
use crate::text::{chars_of, from_utf8_lossy, string_of, trim_bounds, trim_char_bounds, trim_char_spec, trim_spec, utf8_lossy};
use crate::types::{
    profile_check, AdvancedEqProfile, AncLevel, AncMode, AudioCodec, BatteryState, ChargeLevel,
    DeviceEvent, EarbudSide, EqBand, EqPreset, Gesture, GestureAction, GestureMap, ProtocolError,
    WearState,
};
use vstd::prelude::*;

verus! {

/// Responses clear bit 15 of the command they answer; events keep their `0xe0xx` identifier.
pub open spec fn normalize_spec(id: u16) -> u16 {
    if id & 0xe000 == 0xe000 {
        id
    } else {
        id | 0x8000
    }
}

pub fn normalize(command_id: u16) -> (r: u16)
    ensures
        r == normalize_spec(command_id),
{
    if command_id & 0xe000 == 0xe000 {
        command_id
    } else {
        command_id | 0x8000
    }
}

// ------------------------------------------------------------------ battery

/// The battery state after the first `n` (slot, level) pairs.
pub open spec fn battery_pairs(p: Seq<u8>, n: int) -> Result<BatteryState, ProtocolError>
    decreases n,
{
    if n <= 0 {
        Ok(BatteryState { left: None, right: None, case: None })
    } else {
        match battery_pairs(p, n - 1) {
            Err(e) => Err(e),
            Ok(st) => {
                let id = p[1 + 2 * (n - 1)];
                let v = p[2 + 2 * (n - 1)];
                let percent = v & 0x7f;
                if percent > 100 {
                    Err(ProtocolError::InvalidValue("battery percentage"))
                } else {
                    let level = ChargeLevel { percent, charging: v & 0x80 != 0 };
                    Ok(
                        if id == 2 {
                            BatteryState { left: Some(level), ..st }
                        } else if id == 3 {
                            BatteryState { right: Some(level), ..st }
                        } else if id == 4 {
                            BatteryState { case: Some(level), ..st }
                        } else {
                            st
                        },
                    )
                }
            },
        }
    }
}

/// A battery report: a count followed by that many (slot, level) pairs.
pub open spec fn parse_battery_spec(p: Seq<u8>) -> Result<BatteryState, ProtocolError> {
    if p.len() == 0 || p.len() < 1 + 2 * p[0] {
        Err(ProtocolError::MalformedResponse(command::QUERY_BATTERY))
    } else {
        battery_pairs(p, p[0] as int)
    }
}

proof fn lemma_battery_err_sticky(p: Seq<u8>, k: int, n: int)
    requires
        0 <= k <= n,
        battery_pairs(p, k) is Err,
    ensures
        battery_pairs(p, n) == battery_pairs(p, k),
    decreases n - k,
{
    if n > k {
        lemma_battery_err_sticky(p, k, n - 1);
    }
}

fn parse_battery(p: &[u8]) -> (r: Result<BatteryState, ProtocolError>)
    ensures
        r == parse_battery_spec(p@),
{
    if p.len() == 0 {
        return Err(ProtocolError::MalformedResponse(command::QUERY_BATTERY));
    }
    let count = p[0] as usize;
    if p.len() < 1 + count * 2 {
        return Err(ProtocolError::MalformedResponse(command::QUERY_BATTERY));
    }
    let mut state = BatteryState { left: None, right: None, case: None };
    let mut k: usize = 0;
    while k < count
        invariant
            k <= count,
            count == p@[0],
            1 + 2 * count <= p@.len(),
            battery_pairs(p@, k as int) == Ok::<BatteryState, ProtocolError>(state),
        decreases count - k,
    {
        let id = p[1 + 2 * k];
        let v = p[2 + 2 * k];
        let level = match ChargeLevel::new(v & 0x7f, v & 0x80 != 0) {
            Ok(level) => level,
            Err(e) => {
                proof {
                    lemma_battery_err_sticky(p@, k + 1, count as int);
                }
                return Err(e);
            },
        };
        if id == 2 {
            state.left = Some(level);
        } else if id == 3 {
            state.right = Some(level);
        } else if id == 4 {
            state.case = Some(level);
        }
        k = k + 1;
    }
    Ok(state)
}

// --------------------------------------------------------------------- wear

/// The wear state after the first `n` (slot, flags) pairs.
pub open spec fn wear_pairs(p: Seq<u8>, n: int) -> WearState
    decreases n,
{
    if n <= 0 {
        WearState { left: false, right: false }
    } else {
        let st = wear_pairs(p, n - 1);
        let id = p[1 + 2 * (n - 1)];
        let worn = p[2 + 2 * (n - 1)] & 4 != 0;
        if id == 2 {
            WearState { left: worn, ..st }
        } else if id == 3 {
            WearState { right: worn, ..st }
        } else {
            st
        }
    }
}

pub open spec fn parse_wear_spec(p: Seq<u8>) -> Result<WearState, ProtocolError> {
    if p.len() == 0 || p.len() < 1 + 2 * p[0] {
        Err(ProtocolError::MalformedResponse(command::QUERY_WEAR))
    } else {
        Ok(wear_pairs(p, p[0] as int))
    }
}

fn parse_wear(p: &[u8]) -> (r: Result<WearState, ProtocolError>)
    ensures
        r == parse_wear_spec(p@),
{
    if p.len() == 0 {
        return Err(ProtocolError::MalformedResponse(command::QUERY_WEAR));
    }
    let count = p[0] as usize;
    if p.len() < 1 + count * 2 {
        return Err(ProtocolError::MalformedResponse(command::QUERY_WEAR));
    }
    let mut wear = WearState { left: false, right: false };
    let mut k: usize = 0;
    while k < count
        invariant
            k <= count,
            count == p@[0],
            1 + 2 * count <= p@.len(),
            wear_pairs(p@, k as int) == wear,
        decreases count - k,
    {
        let id = p[1 + 2 * k];
        let worn = p[2 + 2 * k] & 4 != 0;
        if id == 2 {
            wear.left = worn;
        } else if id == 3 {
            wear.right = worn;
        }
        k = k + 1;
    }
    Ok(wear)
}

// ---------------------------------------------------------------------- ANC

/// The noise-control state after one (1, mode, _) triplet.
pub open spec fn anc_step(st: (AncMode, AncLevel), code: u8) -> Result<(AncMode, AncLevel), ProtocolError> {
    if code == 5 || code == 0 {
        Ok((AncMode::Off, st.1))
    } else if code == 7 {
        Ok((AncMode::Transparency, st.1))
    } else if code == 1 {
        Ok((AncMode::NoiseCancellation, AncLevel::High))
    } else if code == 2 {
        Ok((AncMode::NoiseCancellation, AncLevel::Mid))
    } else if code == 3 {
        Ok((AncMode::NoiseCancellation, AncLevel::Low))
    } else if code == 4 {
        Ok((AncMode::NoiseCancellation, AncLevel::Adaptive))
    } else {
        Err(ProtocolError::InvalidValue("ANC mode"))
    }
}

/// The noise-control state after the first `n` chunks of three bytes.
pub open spec fn anc_chunks(p: Seq<u8>, n: int) -> Result<(AncMode, AncLevel), ProtocolError>
    decreases n,
{
    if n <= 0 {
        Ok((AncMode::Off, AncLevel::High))
    } else {
        match anc_chunks(p, n - 1) {
            Err(e) => Err(e),
            Ok(st) => {
                let at = 3 * (n - 1);
                if at + 1 < p.len() && p[at] == 1 {
                    anc_step(st, p[at + 1])
                } else {
                    Ok(st)
                }
            },
        }
    }
}

/// Number of chunks of three bytes (the last may be shorter).
pub open spec fn chunk_count(len: int) -> int {
    (len + 2) / 3
}

pub open spec fn parse_anc_spec(p: Seq<u8>) -> Result<(AncMode, AncLevel), ProtocolError> {
    if p.len() < 2 {
        Err(ProtocolError::MalformedResponse(command::QUERY_ANC))
    } else {
        anc_chunks(p, chunk_count(p.len() as int))
    }
}

proof fn lemma_anc_err_sticky(p: Seq<u8>, k: int, n: int)
    requires
        0 <= k <= n,
        anc_chunks(p, k) is Err,
    ensures
        anc_chunks(p, n) == anc_chunks(p, k),
    decreases n - k,
{
    if n > k {
        lemma_anc_err_sticky(p, k, n - 1);
    }
}

fn parse_anc(p: &[u8]) -> (r: Result<(AncMode, AncLevel), ProtocolError>)
    ensures
        r == parse_anc_spec(p@),
{
    if p.len() < 2 {
        return Err(ProtocolError::MalformedResponse(command::QUERY_ANC));
    }
    let chunks = p.len() / 3 + if p.len() % 3 != 0 { 1 } else { 0 };
    assert(chunks == chunk_count(p@.len() as int));
    assert(3 * (chunks - 1) < p@.len());
    let mut mode = AncMode::Off;
    let mut level = AncLevel::High;
    let mut c: usize = 0;
    while c < chunks
        invariant
            c <= chunks,
            chunks == chunk_count(p@.len() as int),
            3 * (chunks - 1) < p@.len(),
            p@.len() == p.len(),
            anc_chunks(p@, c as int) == Ok::<(AncMode, AncLevel), ProtocolError>((mode, level)),
        decreases chunks - c,
    {
        assert(3 * c < p@.len());
        let at = 3 * c;
        if at + 1 < p.len() && p[at] == 1 {
            let code = p[at + 1];
            if code == 5 || code == 0 {
                mode = AncMode::Off;
            } else if code == 7 {
                mode = AncMode::Transparency;
            } else if code == 1 {
                mode = AncMode::NoiseCancellation;
                level = AncLevel::High;
            } else if code == 2 {
                mode = AncMode::NoiseCancellation;
                level = AncLevel::Mid;
            } else if code == 3 {
                mode = AncMode::NoiseCancellation;
                level = AncLevel::Low;
            } else if code == 4 {
                mode = AncMode::NoiseCancellation;
                level = AncLevel::Adaptive;
            } else {
                proof {
                    lemma_anc_err_sticky(p@, c + 1, chunks as int);
                }
                return Err(ProtocolError::InvalidValue("ANC mode"));
            }
        }
        c = c + 1;
    }
    Ok((mode, level))
}

// ----------------------------------------------------------------------- EQ

pub open spec fn parse_eq_spec(p: Seq<u8>) -> Result<EqPreset, ProtocolError> {
    if p.len() == 0 {
        Err(ProtocolError::MalformedResponse(command::QUERY_EQ))
    } else if p[0] == 0 {
        Ok(EqPreset::Balanced)
    } else if p[0] == 1 {
        Ok(EqPreset::Voice)
    } else if p[0] == 2 {
        Ok(EqPreset::MoreTreble)
    } else if p[0] == 3 {
        Ok(EqPreset::MoreBass)
    } else if p[0] == 5 {
        Ok(EqPreset::Custom)
    } else {
        Err(ProtocolError::MalformedResponse(command::QUERY_EQ))
    }
}

fn parse_eq(p: &[u8]) -> (r: Result<EqPreset, ProtocolError>)
    ensures
        r == parse_eq_spec(p@),
{
    if p.len() == 0 {
        return Err(ProtocolError::MalformedResponse(command::QUERY_EQ));
    }
    match p[0] {
        0 => Ok(EqPreset::Balanced),
        1 => Ok(EqPreset::Voice),
        2 => Ok(EqPreset::MoreTreble),
        3 => Ok(EqPreset::MoreBass),
        5 => Ok(EqPreset::Custom),
        _ => Err(ProtocolError::MalformedResponse(command::QUERY_EQ)),
    }
}

pub open spec fn parse_custom_eq_spec(p: Seq<u8>) -> Result<[u32; 3], ProtocolError> {
    if p.len() < 36 {
        Err(ProtocolError::MalformedResponse(command::QUERY_CUSTOM_EQ))
    } else {
        Ok([le32_at(p, 6), le32_at(p, 19), le32_at(p, 32)])
    }
}

fn read_le32(p: &[u8], i: usize) -> (x: u32)
    requires
        i + 4 <= p@.len(),
    ensures
        x == le32_at(p@, i as int),
{
    (p[i] as u32) + (p[i + 1] as u32) * 256 + (p[i + 2] as u32) * 65536 + (p[i + 3] as u32)
        * 16777216
}

fn parse_custom_eq(p: &[u8]) -> (r: Result<[u32; 3], ProtocolError>)
    ensures
        r == parse_custom_eq_spec(p@),
{
    if p.len() < 36 {
        return Err(ProtocolError::MalformedResponse(command::QUERY_CUSTOM_EQ));
    }
    let values = [read_le32(p, 6), read_le32(p, 19), read_le32(p, 32)];
    assert(values =~= [le32_at(p@, 6), le32_at(p@, 19), le32_at(p@, 32)]);
    Ok(values)
}

/// The band stored at position `i` of an advanced-EQ report.
pub open spec fn band_at(p: Seq<u8>, i: int) -> EqBand {
    let at = 6 + 13 * i;
    EqBand { gain_db: le32_at(p, at + 1), frequency_hz: le32_at(p, at + 5), q: le32_at(p, at + 9) }
}

/// The bands of an advanced-EQ report, or why it is refused.
pub open spec fn parse_advanced_eq_spec(p: Seq<u8>) -> Result<Seq<EqBand>, ProtocolError> {
    if p.len() < 6 || p[1] != 8 || p.len() < 6 + 13 * 8 {
        Err(ProtocolError::MalformedResponse(command::QUERY_ADVANCED_EQ_PROFILE))
    } else {
        let bands = Seq::new(8, |i: int| band_at(p, i));
        match profile_check("Device profile"@, bands) {
            Ok(()) => Ok(bands),
            Err(e) => Err(e),
        }
    }
}

fn parse_advanced_eq(p: &[u8]) -> (r: Result<AdvancedEqProfile, ProtocolError>)
    ensures
        match parse_advanced_eq_spec(p@) {
            Ok(bands) => r matches Ok(profile) && profile.name@ == "Device profile"@ && profile.bands@
                == bands,
            Err(e) => r == Err::<AdvancedEqProfile, ProtocolError>(e),
        },
{
    if p.len() < 6 {
        return Err(ProtocolError::MalformedResponse(command::QUERY_ADVANCED_EQ_PROFILE));
    }
    let count = p[1] as usize;
    if count != 8 || p.len() < 6 + count * 13 {
        return Err(ProtocolError::MalformedResponse(command::QUERY_ADVANCED_EQ_PROFILE));
    }
    let mut bands: Vec<EqBand> = Vec::new();
    let mut i: usize = 0;
    while i < count
        invariant
            i <= count,
            count == 8,
            6 + 13 * 8 <= p@.len(),
            bands@ =~= Seq::new(i as nat, |j: int| band_at(p@, j)),
        decreases count - i,
    {
        let at = 6 + i * 13;
        let gain_db = read_le32(p, at + 1);
        let frequency_hz = read_le32(p, at + 5);
        let q = read_le32(p, at + 9);
        bands.push(EqBand { frequency_hz, gain_db, q });
        i = i + 1;
    }
    let profile = AdvancedEqProfile { name: String::from_str("Device profile"), bands };
    match profile.validate() {
        Ok(()) => Ok(profile),
        Err(e) => Err(e),
    }
}

// ------------------------------------------------------------------ strings

/// Text of a string report: lossy UTF-8, without surrounding NULs, trimmed.
pub open spec fn report_text(p: Seq<u8>) -> Seq<char> {
    trim_spec(trim_char_spec(utf8_lossy(p), '\0'))
}

pub open spec fn parse_string_spec(p: Seq<u8>, id: u16) -> Result<Seq<char>, ProtocolError> {
    if report_text(p).len() == 0 {
        Err(ProtocolError::MalformedResponse(id))
    } else {
        Ok(report_text(p))
    }
}

fn parse_string(p: &[u8], command_id: u16) -> (r: Result<String, ProtocolError>)
    ensures
        match parse_string_spec(p@, command_id) {
            Ok(s) => r matches Ok(v) && v@ == s,
            Err(e) => r == Err::<String, ProtocolError>(e),
        },
{
    let text = from_utf8_lossy(p);
    let chars = chars_of(text.as_str());
    let (a, b) = trim_char_bounds(chars.as_slice(), 0, chars.len(), '\0');
    assert(chars@.subrange(0, chars@.len() as int) =~= chars@);
    let (c, d) = trim_bounds(chars.as_slice(), a, b);
    if c == d {
        return Err(ProtocolError::MalformedResponse(command_id));
    }
    Ok(string_of(&chars.as_slice()[c..d]))
}

// ----------------------------------------------------------------- gestures

pub open spec fn side_of_wire(b: u8) -> Option<EarbudSide> {
    if b == 2 {
        Some(EarbudSide::Left)
    } else if b == 3 {
        Some(EarbudSide::Right)
    } else {
        None
    }
}

pub open spec fn gesture_of_wire(b: u8) -> Option<Gesture> {
    if b == 1 {
        Some(Gesture::SinglePinch)
    } else if b == 2 {
        Some(Gesture::DoublePinch)
    } else if b == 3 {
        Some(Gesture::TriplePinch)
    } else if b == 7 {
        Some(Gesture::PinchAndHold)
    } else if b == 9 {
        Some(Gesture::DoublePinchAndHold)
    } else {
        None
    }
}

pub open spec fn action_of_wire(b: u8) -> GestureAction {
    if b == 2 {
        GestureAction::PlayPause
    } else if b == 8 {
        GestureAction::SkipBack
    } else if b == 9 {
        GestureAction::SkipForward
    } else if b == 10 || b == 20 || b == 21 || b == 22 {
        GestureAction::NoiseControl
    } else if b == 11 {
        GestureAction::VoiceAssistant
    } else if b == 18 {
        GestureAction::VolumeUp
    } else if b == 19 {
        GestureAction::VolumeDown
    } else {
        GestureAction::NoAction
    }
}

/// The gesture assignments after the first `n` four-byte items.
pub open spec fn gesture_items(p: Seq<u8>, n: int) -> Map<(EarbudSide, Gesture), GestureAction>
    decreases n,
{
    if n <= 0 {
        Map::empty()
    } else {
        let m = gesture_items(p, n - 1);
        let at = 1 + 4 * (n - 1);
        match (side_of_wire(p[at]), gesture_of_wire(p[at + 2])) {
            (Some(side), Some(gesture)) => m.insert((side, gesture), action_of_wire(p[at + 3])),
            _ => m,
        }
    }
}

pub open spec fn parse_gestures_spec(p: Seq<u8>) -> Result<Map<(EarbudSide, Gesture), GestureAction>, ProtocolError> {
    if p.len() == 0 || p.len() < 1 + 4 * p[0] {
        Err(ProtocolError::MalformedResponse(command::QUERY_GESTURES))
    } else {
        Ok(gesture_items(p, p[0] as int))
    }
}

fn parse_gestures(p: &[u8]) -> (r: Result<GestureMap, ProtocolError>)
    ensures
        match parse_gestures_spec(p@) {
            Ok(m) => r matches Ok(map) && map@ == m,
            Err(e) => r == Err::<GestureMap, ProtocolError>(e),
        },
{
    if p.len() == 0 {
        return Err(ProtocolError::MalformedResponse(command::QUERY_GESTURES));
    }
    let count = p[0] as usize;
    if p.len() < 1 + count * 4 {
        return Err(ProtocolError::MalformedResponse(command::QUERY_GESTURES));
    }
    let mut map = GestureMap::new();
    let mut k: usize = 0;
    while k < count
        invariant
            k <= count,
            count == p@[0],
            1 + 4 * count <= p@.len(),
            map@ == gesture_items(p@, k as int),
        decreases count - k,
    {
        let at = 1 + 4 * k;
        let side = if p[at] == 2 {
            Some(EarbudSide::Left)
        } else if p[at] == 3 {
            Some(EarbudSide::Right)
        } else {
            None
        };
        let g = p[at + 2];
        let gesture = if g == 1 {
            Some(Gesture::SinglePinch)
        } else if g == 2 {
            Some(Gesture::DoublePinch)
        } else if g == 3 {
            Some(Gesture::TriplePinch)
        } else if g == 7 {
            Some(Gesture::PinchAndHold)
        } else if g == 9 {
            Some(Gesture::DoublePinchAndHold)
        } else {
            None
        };
        let a = p[at + 3];
        let action = if a == 2 {
            GestureAction::PlayPause
        } else if a == 8 {
            GestureAction::SkipBack
        } else if a == 9 {
            GestureAction::SkipForward
        } else if a == 10 || a == 20 || a == 21 || a == 22 {
            GestureAction::NoiseControl
        } else if a == 11 {
            GestureAction::VoiceAssistant
        } else if a == 18 {
            GestureAction::VolumeUp
        } else if a == 19 {
            GestureAction::VolumeDown
        } else {
            GestureAction::NoAction
        };
        match (side, gesture) {
            (Some(s), Some(g)) => map.insert(s, g, action),
            _ => {},
        }
        k = k + 1;
    }
    Ok(map)
}

pub open spec fn parse_audio_codec_spec(p: Seq<u8>, id: u16) -> Result<AudioCodec, ProtocolError> {
    if p.len() == 0 {
        Err(ProtocolError::MalformedResponse(id))
    } else if p[0] == 0 {
        Ok(AudioCodec::Default)
    } else if p[0] == 1 {
        Ok(AudioCodec::Lhdc)
    } else if p[0] == 2 {
        Ok(AudioCodec::Ldac)
    } else {
        Err(ProtocolError::InvalidValue("audio codec"))
    }
}

fn parse_audio_codec(p: &[u8], command_id: u16) -> (r: Result<AudioCodec, ProtocolError>)
    ensures
        r == parse_audio_codec_spec(p@, command_id),
{
    if p.len() == 0 {
        return Err(ProtocolError::MalformedResponse(command_id));
    }
    match p[0] {
        0 => Ok(AudioCodec::Default),
        1 => Ok(AudioCodec::Lhdc),
        2 => Ok(AudioCodec::Ldac),
        _ => Err(ProtocolError::InvalidValue("audio codec")),
    }
}

pub open spec fn parse_bool_spec(p: Seq<u8>, id: u16) -> Result<bool, ProtocolError> {
    if p.len() == 0 {
        Err(ProtocolError::MalformedResponse(id))
    } else {
        Ok(p[0] != 0)
    }
}

fn parse_bool(p: &[u8], command_id: u16) -> (r: Result<bool, ProtocolError>)
    ensures
        r == parse_bool_spec(p@, command_id),
{
    if p.len() == 0 {
        return Err(ProtocolError::MalformedResponse(command_id));
    }
    Ok(p[0] != 0)
}

// ------------------------------------------------------------------- events

/// Identifiers whose responses acknowledge a write.
pub open spec fn is_ack_id(id: u16) -> bool {
    ||| id == command::ACTIVATE
    ||| id == command::SET_ANC
    ||| id == command::SET_EQ
    ||| id == command::SET_GESTURE
    ||| id == command::SET_IN_EAR
    ||| id == command::SET_LOW_LAG
    ||| id == command::SET_CUSTOM_EQ
    ||| id == command::SET_ADVANCED_EQ
    ||| id == command::SET_ADVANCED_EQ_PROFILE
    ||| id == command::SET_AUDIO_CODEC
    ||| id == command::SET_BASS
    ||| id == command::SET_DUAL_CONNECTION
    ||| id == command::FIND_BUD
    ||| id == command::START_FIT_TEST
}

/// Lifts a parse result into a decoded event.
pub open spec fn lift<T>(r: Result<T, ProtocolError>, f: spec_fn(T) -> DeviceEvent) -> Result<Option<DeviceEvent>, ProtocolError> {
    match r {
        Ok(v) => Ok(Some(f(v))),
        Err(e) => Err(e),
    }
}

/// What a frame decodes to, for every report whose event holds only plain
/// values; `None` for firmware, gesture and advanced-EQ reports.
pub open spec fn decode_plain(f: SpecFrame) -> Option<Result<Option<DeviceEvent>, ProtocolError>> {
    let id = normalize_spec(f.command);
    let p = f.payload;
    if id == command::QUERY_BATTERY || id == command::EVENT_BATTERY {
        Some(lift(parse_battery_spec(p), |b: BatteryState| DeviceEvent::Battery(b)))
    } else if id == command::QUERY_WEAR || id == command::EVENT_WEAR {
        Some(lift(parse_wear_spec(p), |w: WearState| DeviceEvent::Wear(w)))
    } else if id == command::QUERY_ANC || id == command::EVENT_ANC {
        Some(
            lift(
                parse_anc_spec(p),
                |a: (AncMode, AncLevel)| DeviceEvent::Anc { mode: a.0, level: a.1 },
            ),
        )
    } else if id == command::QUERY_EQ {
        Some(lift(parse_eq_spec(p), |e: EqPreset| DeviceEvent::Eq(e)))
    } else if id == command::QUERY_CUSTOM_EQ {
        Some(lift(parse_custom_eq_spec(p), |g: [u32; 3]| DeviceEvent::CustomEq(g)))
    } else if id == command::QUERY_ADVANCED_EQ {
        Some(lift(parse_bool_spec(p, id), |b: bool| DeviceEvent::AdvancedEqEnabled(b)))
    } else if id == command::QUERY_FIRMWARE || id == command::QUERY_GESTURES || id
        == command::QUERY_ADVANCED_EQ_PROFILE {
        None
    } else if id == command::QUERY_IN_EAR {
        Some(
            if p.len() < 3 {
                Err(ProtocolError::MalformedResponse(id))
            } else {
                Ok(Some(DeviceEvent::InEarDetection(p[2] != 0)))
            },
        )
    } else if id == command::QUERY_LOW_LAG {
        Some(
            if p.len() < 1 {
                Err(ProtocolError::MalformedResponse(id))
            } else {
                Ok(Some(DeviceEvent::LowLag(p[0] == 1)))
            },
        )
    } else if id == command::QUERY_BASS {
        Some(
            if p.len() < 2 {
                Err(ProtocolError::MalformedResponse(id))
            } else {
                Ok(
                    Some(
                        DeviceEvent::BassEnhance(
                            if p[0] != 0 {
                                Some(p[1] / 2)
                            } else {
                                None
                            },
                        ),
                    ),
                )
            },
        )
    } else if id == command::QUERY_AUDIO_CODEC {
        Some(lift(parse_audio_codec_spec(p, id), |c: AudioCodec| DeviceEvent::AudioCodec(c)))
    } else if id == command::QUERY_DUAL_CONNECTION {
        Some(lift(parse_bool_spec(p, id), |b: bool| DeviceEvent::DualConnection(b)))
    } else if id == command::EVENT_FIT_TEST {
        Some(
            if p.len() < 2 {
                Err(ProtocolError::MalformedResponse(id))
            } else {
                Ok(Some(DeviceEvent::FitTestResult { left_ok: p[0] == 1, right_ok: p[1] == 1 }))
            },
        )
    } else if is_ack_id(id) {
        Some(Ok(Some(DeviceEvent::Acknowledged { sequence: f.sequence, command: id })))
    } else {
        Some(Ok(None))
    }
}

/// `r` is what `f` decodes to.
pub open spec fn decoded(f: SpecFrame, r: Result<Option<DeviceEvent>, ProtocolError>) -> bool {
    let id = normalize_spec(f.command);
    let p = f.payload;
    match decode_plain(f) {
        Some(expected) => r == expected,
        None => if id == command::QUERY_FIRMWARE {
            match parse_string_spec(p, id) {
                Ok(s) => r matches Ok(Some(DeviceEvent::Firmware(v))) && v@ == s,
                Err(e) => r == Err::<Option<DeviceEvent>, ProtocolError>(e),
            }
        } else if id == command::QUERY_GESTURES {
            match parse_gestures_spec(p) {
                Ok(m) => r matches Ok(Some(DeviceEvent::Gestures(v))) && v@ == m,
                Err(e) => r == Err::<Option<DeviceEvent>, ProtocolError>(e),
            }
        } else {
            match parse_advanced_eq_spec(p) {
                Ok(bands) => r matches Ok(Some(DeviceEvent::AdvancedEqProfile(v))) && v.name@
                    == "Device profile"@ && v.bands@ == bands,
                Err(e) => r == Err::<Option<DeviceEvent>, ProtocolError>(e),
            }
        },
    }
}

fn decode_rich(frame: &Frame, id: u16) -> (r: Result<Option<DeviceEvent>, ProtocolError>)
    requires
        id == normalize_spec(frame.command),
        decode_plain(frame@) is None,
    ensures
        decoded(frame@, r),
{
    let payload = frame.payload.as_slice();
    if id == command::QUERY_FIRMWARE {
        match parse_string(payload, id) {
            Ok(s) => Ok(Some(DeviceEvent::Firmware(s))),
            Err(e) => Err(e),
        }
    } else if id == command::QUERY_GESTURES {
        match parse_gestures(payload) {
            Ok(m) => Ok(Some(DeviceEvent::Gestures(m))),
            Err(e) => Err(e),
        }
    } else {
        match parse_advanced_eq(payload) {
            Ok(p) => Ok(Some(DeviceEvent::AdvancedEqProfile(p))),
            Err(e) => Err(e),
        }
    }
}

fn is_ack(id: u16) -> (r: bool)
    ensures
        r == is_ack_id(id),
{
    id == command::ACTIVATE || id == command::SET_ANC || id == command::SET_EQ || id
        == command::SET_GESTURE || id == command::SET_IN_EAR || id == command::SET_LOW_LAG || id
        == command::SET_CUSTOM_EQ || id == command::SET_ADVANCED_EQ || id
        == command::SET_ADVANCED_EQ_PROFILE || id == command::SET_AUDIO_CODEC || id
        == command::SET_BASS || id == command::SET_DUAL_CONNECTION || id == command::FIND_BUD || id
        == command::START_FIT_TEST
}

#[verifier::rlimit(60)]
#[verifier::spinoff_prover]
/// Turns a response or event frame into a device event; `None` for frames
/// that carry nothing the session tracks.
pub fn decode_event(frame: &Frame) -> (r: Result<Option<DeviceEvent>, ProtocolError>)
    ensures
        decoded(frame@, r),
{
    let id = normalize(frame.command);
    let payload = frame.payload.as_slice();
    if id == command::QUERY_BATTERY || id == command::EVENT_BATTERY {
        match parse_battery(payload) {
            Ok(b) => Ok(Some(DeviceEvent::Battery(b))),
            Err(e) => Err(e),
        }
    } else if id == command::QUERY_WEAR || id == command::EVENT_WEAR {
        match parse_wear(payload) {
            Ok(w) => Ok(Some(DeviceEvent::Wear(w))),
            Err(e) => Err(e),
        }
    } else if id == command::QUERY_ANC || id == command::EVENT_ANC {
        match parse_anc(payload) {
            Ok((mode, level)) => Ok(Some(DeviceEvent::Anc { mode, level })),
            Err(e) => Err(e),
        }
    } else if id == command::QUERY_EQ {
        match parse_eq(payload) {
            Ok(e) => Ok(Some(DeviceEvent::Eq(e))),
            Err(e) => Err(e),
        }
    } else if id == command::QUERY_CUSTOM_EQ {
        match parse_custom_eq(payload) {
            Ok(g) => Ok(Some(DeviceEvent::CustomEq(g))),
            Err(e) => Err(e),
        }
    } else if id == command::QUERY_ADVANCED_EQ {
        match parse_bool(payload, id) {
            Ok(b) => Ok(Some(DeviceEvent::AdvancedEqEnabled(b))),
            Err(e) => Err(e),
        }
    } else if id == command::QUERY_FIRMWARE || id == command::QUERY_GESTURES || id
        == command::QUERY_ADVANCED_EQ_PROFILE {
        decode_rich(frame, id)
    } else if id == command::QUERY_IN_EAR {
        if payload.len() < 3 {
            Err(ProtocolError::MalformedResponse(id))
        } else {
            Ok(Some(DeviceEvent::InEarDetection(payload[2] != 0)))
        }
    } else if id == command::QUERY_LOW_LAG {
        if payload.len() < 1 {
            Err(ProtocolError::MalformedResponse(id))
        } else {
            Ok(Some(DeviceEvent::LowLag(payload[0] == 1)))
        }
    } else if id == command::QUERY_BASS {
        if payload.len() < 1 {
            return Err(ProtocolError::MalformedResponse(id));
        }
        let enabled = payload[0] != 0;
        if payload.len() < 2 {
            return Err(ProtocolError::MalformedResponse(id));
        }
        let level = payload[1] / 2;
        Ok(Some(DeviceEvent::BassEnhance(if enabled { Some(level) } else { None })))
    } else if id == command::QUERY_AUDIO_CODEC {
        match parse_audio_codec(payload, id) {
            Ok(c) => Ok(Some(DeviceEvent::AudioCodec(c))),
            Err(e) => Err(e),
        }
    } else if id == command::QUERY_DUAL_CONNECTION {
        match parse_bool(payload, id) {
            Ok(b) => Ok(Some(DeviceEvent::DualConnection(b))),
            Err(e) => Err(e),
        }
    } else if id == command::EVENT_FIT_TEST {
        if payload.len() < 1 {
            return Err(ProtocolError::MalformedResponse(id));
        }
        let left_ok = payload[0] == 1;
        if payload.len() < 2 {
            return Err(ProtocolError::MalformedResponse(id));
        }
        Ok(Some(DeviceEvent::FitTestResult { left_ok, right_ok: payload[1] == 1 }))
    } else if is_ack(id) {
        Ok(Some(DeviceEvent::Acknowledged { sequence: frame.sequence, command: id }))
    } else {
        Ok(None)
    }
}

/// Every level in the battery state is a percentage.
pub open spec fn levels_are_percentages(b: BatteryState) -> bool {
    &&& (b.left matches Some(l) ==> l.percent <= 100)
    &&& (b.right matches Some(l) ==> l.percent <= 100)
    &&& (b.case matches Some(l) ==> l.percent <= 100)
}

proof fn lemma_battery_pairs_percentages(p: Seq<u8>, n: int)
    ensures
        battery_pairs(p, n) matches Ok(b) ==> levels_are_percentages(b),
    decreases n,
{
    if n > 0 {
        lemma_battery_pairs_percentages(p, n - 1);
    }
}

/// A battery report never claims more than 100 %: a level above it is
/// refused, so every decoded battery event holds percentages only.
pub proof fn law_reported_battery_levels_are_percentages(
    f: SpecFrame,
    r: Result<Option<DeviceEvent>, ProtocolError>,
)
    requires
        decoded(f, r),
    ensures
        r matches Ok(Some(DeviceEvent::Battery(b))) ==> levels_are_percentages(b),
{
    lemma_battery_pairs_percentages(f.payload, f.payload[0] as int);
}

/// The slot byte of the `j`-th (slot, value) pair of a wear or battery report.
pub open spec fn pair_slot(p: Seq<u8>, j: int) -> u8 {
    p[1 + 2 * j]
}

/// The second byte of the `j`-th pair of a report: the flags of a wear
/// pair, the level of a battery pair.
pub open spec fn pair_value(p: Seq<u8>, j: int) -> u8 {
    p[2 + 2 * j]
}

/// The earbud that slot 2 (left) or 3 (right) stands for, in `w`.
pub open spec fn slot_worn(w: WearState, slot: u8) -> bool {
    if slot == 2 {
        w.left
    } else {
        w.right
    }
}

proof fn lemma_wear_last_pair(p: Seq<u8>, n: int, slot: u8, k: int)
    requires
        0 <= k < n,
        slot == 2 || slot == 3,
        pair_slot(p, k) == slot,
        forall|j: int| k < j < n ==> #[trigger] pair_slot(p, j) != slot,
    ensures
        slot_worn(wear_pairs(p, n), slot) == (pair_value(p, k) & 4 != 0),
    decreases n,
{
    if n - 1 > k {
        assert(pair_slot(p, n - 1) != slot);
        lemma_wear_last_pair(p, n - 1, slot, k);
    }
}

proof fn lemma_wear_no_pair(p: Seq<u8>, n: int, slot: u8)
    requires
        0 <= n,
        slot == 2 || slot == 3,
        forall|j: int| 0 <= j < n ==> #[trigger] pair_slot(p, j) != slot,
    ensures
        !slot_worn(wear_pairs(p, n), slot),
    decreases n,
{
    if n > 0 {
        assert(pair_slot(p, n - 1) != slot);
        lemma_wear_no_pair(p, n - 1, slot);
    }
}

/// A wear report is a count and that many (slot, flags) pairs; slot 2 is the
/// left earbud and slot 3 the right one. The last pair for a slot decides it:
/// the earbud is worn exactly when bit 2 of that pair's flags is set; an
/// earbud without a pair is not worn. A report shorter than its count says is
/// refused.
pub proof fn law_wear_report_last_pair_decides(f: SpecFrame, r: Result<Option<DeviceEvent>, ProtocolError>)
    requires
        normalize_spec(f.command) == command::QUERY_WEAR || normalize_spec(f.command) == command::EVENT_WEAR,
        decoded(f, r),
    ensures
        f.payload.len() == 0 || f.payload.len() < 1 + 2 * f.payload[0] ==> r == Err::<
            Option<DeviceEvent>,
            ProtocolError,
        >(ProtocolError::MalformedResponse(command::QUERY_WEAR)),
        !(f.payload.len() == 0 || f.payload.len() < 1 + 2 * f.payload[0]) ==> r matches Ok(
            Some(DeviceEvent::Wear(_)),
        ),
        forall|slot: u8, k: int|
            #![trigger pair_slot(f.payload, k), slot_worn(r->Ok_0->Some_0->Wear_0, slot)]
            (slot == 2 || slot == 3) && 0 <= k < f.payload[0] && pair_slot(f.payload, k) == slot
                && (forall|j: int| k < j < f.payload[0] ==> #[trigger] pair_slot(f.payload, j) != slot)
                && r is Ok && r->Ok_0 is Some && r->Ok_0->Some_0 is Wear ==> slot_worn(
                r->Ok_0->Some_0->Wear_0,
                slot,
            ) == (pair_value(f.payload, k) & 4 != 0),
        forall|slot: u8|
            (slot == 2 || slot == 3) && (forall|j: int| 0 <= j < f.payload[0] ==> #[trigger] pair_slot(f.payload, j) != slot)
                && r is Ok && r->Ok_0 is Some && r->Ok_0->Some_0 is Wear ==> !#[trigger] slot_worn(
                r->Ok_0->Some_0->Wear_0,
                slot,
            ),
{
    let p = f.payload;
    if !(p.len() == 0 || p.len() < 1 + 2 * p[0]) {
        assert(r == Ok::<Option<DeviceEvent>, ProtocolError>(Some(DeviceEvent::Wear(wear_pairs(p, p[0] as int)))));
        assert forall|slot: u8, k: int|
            #![trigger pair_slot(p, k), slot_worn(wear_pairs(p, p[0] as int), slot)]
            (slot == 2 || slot == 3) && 0 <= k < p[0] && pair_slot(p, k) == slot
                && (forall|j: int| k < j < p[0] ==> #[trigger] pair_slot(p, j) != slot)
                implies slot_worn(wear_pairs(p, p[0] as int), slot) == (pair_value(p, k) & 4 != 0) by {
            lemma_wear_last_pair(p, p[0] as int, slot, k);
        }
        assert forall|slot: u8|
            (slot == 2 || slot == 3) && (forall|j: int| 0 <= j < p[0] ==> #[trigger] pair_slot(p, j) != slot)
                implies !#[trigger] slot_worn(wear_pairs(p, p[0] as int), slot) by {
            lemma_wear_no_pair(p, p[0] as int, slot);
        }
    }
}

/// The battery that slot 2 (left), 3 (right) or 4 (case) stands for, in `b`.
pub open spec fn battery_slot(b: BatteryState, slot: u8) -> Option<ChargeLevel> {
    if slot == 2 {
        b.left
    } else if slot == 3 {
        b.right
    } else {
        b.case
    }
}

proof fn lemma_battery_err_kind(p: Seq<u8>, n: int)
    ensures
        battery_pairs(p, n) is Err ==> battery_pairs(p, n) == Err::<BatteryState, ProtocolError>(
            ProtocolError::InvalidValue("battery percentage"),
        ),
    decreases n,
{
    if n > 0 {
        lemma_battery_err_kind(p, n - 1);
    }
}

proof fn lemma_battery_bad_level(p: Seq<u8>, n: int, j: int)
    requires
        0 <= j < n,
        pair_value(p, j) & 0x7f > 100,
    ensures
        battery_pairs(p, n) is Err,
    decreases n,
{
    if j < n - 1 {
        lemma_battery_bad_level(p, n - 1, j);
    }
}

proof fn lemma_battery_levels(p: Seq<u8>, n: int, slot: u8)
    requires
        0 <= n,
        slot == 2 || slot == 3 || slot == 4,
        forall|j: int| 0 <= j < n ==> #[trigger] pair_value(p, j) & 0x7f <= 100,
    ensures
        battery_pairs(p, n) is Ok,
        forall|k: int|
            0 <= k < n && #[trigger] pair_slot(p, k) == slot && (forall|j: int|
                k < j < n ==> #[trigger] pair_slot(p, j) != slot) ==> battery_slot(
                battery_pairs(p, n)->Ok_0,
                slot,
            ) == Some(ChargeLevel { percent: pair_value(p, k) & 0x7f, charging: pair_value(p, k) & 0x80 != 0 }),
        (forall|j: int| 0 <= j < n ==> #[trigger] pair_slot(p, j) != slot) ==> battery_slot(
            battery_pairs(p, n)->Ok_0,
            slot,
        ) is None,
    decreases n,
{
    if n > 0 {
        lemma_battery_levels(p, n - 1, slot);
        assert(pair_value(p, n - 1) & 0x7f <= 100);
        assert forall|k: int|
            0 <= k < n && #[trigger] pair_slot(p, k) == slot && (forall|j: int|
                k < j < n ==> #[trigger] pair_slot(p, j) != slot) implies battery_slot(
                battery_pairs(p, n)->Ok_0,
                slot,
            ) == Some(ChargeLevel { percent: pair_value(p, k) & 0x7f, charging: pair_value(p, k) & 0x80 != 0 }) by {
            if k < n - 1 {
                assert(pair_slot(p, n - 1) != slot);
            }
        }
        if forall|j: int| 0 <= j < n ==> #[trigger] pair_slot(p, j) != slot {
            assert(pair_slot(p, n - 1) != slot);
        }
    }
}

/// A battery report is a count and that many (slot, level) pairs; slot 2 is
/// the left earbud, 3 the right one and 4 the case. The last pair for a slot
/// decides it: its percentage is the level's low seven bits and it charges
/// exactly when the top bit is set; a battery without a pair is unknown. A
/// report shorter than its count says, or with a level above 100 %, is refused.
pub proof fn law_battery_report_last_pair_decides(f: SpecFrame, r: Result<Option<DeviceEvent>, ProtocolError>)
    requires
        normalize_spec(f.command) == command::QUERY_BATTERY || normalize_spec(f.command)
            == command::EVENT_BATTERY,
        decoded(f, r),
    ensures
        f.payload.len() == 0 || f.payload.len() < 1 + 2 * f.payload[0] ==> r == Err::<
            Option<DeviceEvent>,
            ProtocolError,
        >(ProtocolError::MalformedResponse(command::QUERY_BATTERY)),
        !(f.payload.len() == 0 || f.payload.len() < 1 + 2 * f.payload[0]) && (exists|j: int|
            0 <= j < f.payload[0] && #[trigger] pair_value(f.payload, j) & 0x7f > 100) ==> r == Err::<
            Option<DeviceEvent>,
            ProtocolError,
        >(ProtocolError::InvalidValue("battery percentage")),
        !(f.payload.len() == 0 || f.payload.len() < 1 + 2 * f.payload[0]) && (forall|j: int|
            0 <= j < f.payload[0] ==> #[trigger] pair_value(f.payload, j) & 0x7f <= 100) ==> r matches Ok(
            Some(DeviceEvent::Battery(_)),
        ),
        forall|slot: u8, k: int|
            #![trigger pair_slot(f.payload, k), battery_slot(r->Ok_0->Some_0->Battery_0, slot)]
            (slot == 2 || slot == 3 || slot == 4) && 0 <= k < f.payload[0] && pair_slot(f.payload, k) == slot
                && (forall|j: int| k < j < f.payload[0] ==> #[trigger] pair_slot(f.payload, j) != slot)
                && r is Ok && r->Ok_0 is Some && r->Ok_0->Some_0 is Battery ==> battery_slot(
                r->Ok_0->Some_0->Battery_0,
                slot,
            ) == Some(
                ChargeLevel {
                    percent: pair_value(f.payload, k) & 0x7f,
                    charging: pair_value(f.payload, k) & 0x80 != 0,
                },
            ),
        forall|slot: u8|
            (slot == 2 || slot == 3 || slot == 4) && (forall|j: int|
                0 <= j < f.payload[0] ==> #[trigger] pair_slot(f.payload, j) != slot) && r is Ok
                && r->Ok_0 is Some && r->Ok_0->Some_0 is Battery ==> #[trigger] battery_slot(
                r->Ok_0->Some_0->Battery_0,
                slot,
            ) is None,
{
    let p = f.payload;
    if !(p.len() == 0 || p.len() < 1 + 2 * p[0]) {
        let n = p[0] as int;
        lemma_battery_err_kind(p, n);
        if exists|j: int| 0 <= j < n && #[trigger] pair_value(p, j) & 0x7f > 100 {
            let j = choose|j: int| 0 <= j < n && #[trigger] pair_value(p, j) & 0x7f > 100;
            lemma_battery_bad_level(p, n, j);
        } else {
            assert forall|slot: u8, k: int|
                #![trigger pair_slot(p, k), battery_slot(battery_pairs(p, n)->Ok_0, slot)]
                (slot == 2 || slot == 3 || slot == 4) && 0 <= k < n && pair_slot(p, k) == slot
                    && (forall|j: int| k < j < n ==> #[trigger] pair_slot(p, j) != slot)
                    implies battery_slot(battery_pairs(p, n)->Ok_0, slot) == Some(
                    ChargeLevel { percent: pair_value(p, k) & 0x7f, charging: pair_value(p, k) & 0x80 != 0 },
                ) by {
                lemma_battery_levels(p, n, slot);
            }
            assert forall|slot: u8|
                (slot == 2 || slot == 3 || slot == 4) && (forall|j: int|
                    0 <= j < n ==> #[trigger] pair_slot(p, j) != slot)
                    implies #[trigger] battery_slot(battery_pairs(p, n)->Ok_0, slot) is None by {
                lemma_battery_levels(p, n, slot);
            }
            lemma_battery_levels(p, n, 2);
        }
    }
}

/// A fit-test result reports each earbud's fit as good exactly when its byte
/// (left first, then right) is 1; a result without both bytes is refused.
pub proof fn law_fit_test_result(f: SpecFrame, r: Result<Option<DeviceEvent>, ProtocolError>)
    requires
        normalize_spec(f.command) == command::EVENT_FIT_TEST,
        decoded(f, r),
    ensures
        f.payload.len() < 2 ==> r == Err::<Option<DeviceEvent>, ProtocolError>(
            ProtocolError::MalformedResponse(command::EVENT_FIT_TEST),
        ),
        f.payload.len() >= 2 ==> r == Ok::<Option<DeviceEvent>, ProtocolError>(
            Some(DeviceEvent::FitTestResult { left_ok: f.payload[0] == 1, right_ok: f.payload[1] == 1 }),
        ),
{
}

} // verus!
