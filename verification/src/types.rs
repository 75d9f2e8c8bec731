use crate::text::{
    chars_of, decimal, hex_word, is_whitespace, is_ws, push_decimal, push_hex_word, push_str,
    string_of, trim_end_spec, trim_spec, trim_start_spec,
};
use vstd::prelude::*;

verus! {

/// A paired device found over BlueZ.
#[derive(Debug, Clone, PartialEq, Eq)]
pub struct DeviceDescriptor {
    pub address: String,
    pub alias: String,
    pub model: Option<String>,
    pub paired: bool,
    pub connected: bool,
    pub vendor_service: bool,
}

/// The part of `s` after its last ':' (all of `s` when it has none).
pub open spec fn last_segment(s: Seq<char>) -> Seq<char>
    decreases s.len(),
{
    if s.len() == 0 {
        s
    } else if s.last() == ':' {
        Seq::empty()
    } else {
        last_segment(s.drop_last()).push(s.last())
    }
}

/// `XX:XX:XX:XX:XX:` followed by the last segment of the address.
pub open spec fn redacted_address_spec(address: Seq<char>) -> Seq<char> {
    "XX:XX:XX:XX:XX:"@ + last_segment(address)
}

impl DeviceDescriptor {
    /// The address with every octet but the last one masked.
    pub fn redacted_address(&self) -> (r: String)
        ensures
            r@ == redacted_address_spec(self.address@),
    {
        let chars = chars_of(self.address.as_str());
        let mut start: usize = chars.len();
        assert(chars@.take(chars@.len() as int) =~= chars@);
        assert(chars@.skip(chars@.len() as int) =~= Seq::<char>::empty());
        assert(chars@ + Seq::<char>::empty() =~= chars@);
        while start > 0 && chars[start - 1] != ':'
            invariant
                start <= chars@.len(),
                last_segment(chars@) == last_segment(chars@.take(start as int)) + chars@.skip(
                    start as int,
                ),
            decreases start,
        {
            proof {
                let t = chars@.take(start as int);
                assert(t.drop_last() =~= chars@.take(start - 1));
                assert(chars@.skip(start - 1) =~= seq![t.last()] + chars@.skip(start as int));
                assert(last_segment(t) == last_segment(t.drop_last()).push(t.last()));
                assert(last_segment(t.drop_last()).push(t.last()) + chars@.skip(start as int)
                    =~= last_segment(t.drop_last()) + chars@.skip(start - 1));
            }
            start = start - 1;
        }
        proof {
            let t = chars@.take(start as int);
            if start > 0 {
                assert(t.last() == ':');
            }
            assert(last_segment(t) =~= Seq::<char>::empty());
            assert(chars@.take(chars@.len() as int) =~= chars@);
        }
        let mut r = String::from_str("XX:XX:XX:XX:XX:");
        proof {
            reveal_strlit("XX:XX:XX:XX:XX:");
        }
        let suffix = string_of(&chars.as_slice()[start..chars.len()]);
        r.append(suffix.as_str());
        assert(chars@.subrange(start as int, chars@.len() as int) =~= chars@.skip(start as int));
        r
    }
}

/// One entry of the dual-connection device list.
#[derive(Debug, Clone, PartialEq, Eq)]
pub struct DualConnectionDevice {
    pub address: String,
    pub address_bytes: [u8; 6],
    pub name: String,
    pub connected: bool,
    pub owner_device: bool,
}

pub struct SpecDualDevice {
    pub address: Seq<char>,
    pub address_bytes: [u8; 6],
    pub name: Seq<char>,
    pub connected: bool,
    pub owner_device: bool,
}

impl View for DualConnectionDevice {
    type V = SpecDualDevice;

    open spec fn view(&self) -> SpecDualDevice {
        SpecDualDevice {
            address: self.address@,
            address_bytes: self.address_bytes,
            name: self.name@,
            connected: self.connected,
            owner_device: self.owner_device,
        }
    }
}

impl DeepView for DualConnectionDevice {
    type V = SpecDualDevice;

    open spec fn deep_view(&self) -> SpecDualDevice {
        self@
    }
}

impl DualConnectionDevice {
    pub fn copy(&self) -> (r: DualConnectionDevice)
        ensures
            r@ == self@,
    {
        DualConnectionDevice {
            address: self.address.clone(),
            address_bytes: self.address_bytes,
            name: self.name.clone(),
            connected: self.connected,
            owner_device: self.owner_device,
        }
    }
}

/// Which features a model supports.
#[derive(Debug, Clone, PartialEq, Eq)]
pub struct DeviceCapabilities {
    pub model: String,
    pub anc: bool,
    pub adaptive_anc: bool,
    pub personalized_anc: bool,
    pub eq_presets: bool,
    pub custom_eq: bool,
    pub advanced_eq: bool,
    pub gestures: bool,
    pub bass_enhance: bool,
    pub in_ear_detection: bool,
    pub low_lag: bool,
    pub high_quality_audio: bool,
    pub dual_connection: bool,
    pub find_buds: bool,
    pub fit_test: bool,
}

/// Every feature flag except `personalized_anc` equals `on`.
pub open spec fn features_are(c: DeviceCapabilities, on: bool) -> bool {
    &&& c.anc == on
    &&& c.adaptive_anc == on
    &&& !c.personalized_anc
    &&& c.eq_presets == on
    &&& c.custom_eq == on
    &&& c.advanced_eq == on
    &&& c.gestures == on
    &&& c.bass_enhance == on
    &&& c.in_ear_detection == on
    &&& c.low_lag == on
    &&& c.high_quality_audio == on
    &&& c.dual_connection == on
    &&& c.find_buds == on
    &&& c.fit_test == on
}

impl DeviceCapabilities {
    /// The verified B171 feature set: everything but personalized ANC.
    pub fn b171() -> (c: DeviceCapabilities)
        ensures
            c.model@ == "B171"@,
            features_are(c, true),
    {
        DeviceCapabilities {
            model: String::from_str("B171"),
            anc: true,
            adaptive_anc: true,
            personalized_anc: false,
            eq_presets: true,
            custom_eq: true,
            advanced_eq: true,
            gestures: true,
            bass_enhance: true,
            in_ear_detection: true,
            low_lag: true,
            high_quality_audio: true,
            dual_connection: true,
            find_buds: true,
            fit_test: true,
        }
    }

    /// A model without any verified feature.
    pub fn unknown(model: &str) -> (c: DeviceCapabilities)
        ensures
            c.model@ == model@,
            features_are(c, false),
    {
        DeviceCapabilities {
            model: String::from_str(model),
            anc: false,
            adaptive_anc: false,
            personalized_anc: false,
            eq_presets: false,
            custom_eq: false,
            advanced_eq: false,
            gestures: false,
            bass_enhance: false,
            in_ear_detection: false,
            low_lag: false,
            high_quality_audio: false,
            dual_connection: false,
            find_buds: false,
            fit_test: false,
        }
    }
}

#[derive(Debug, Clone, Copy, PartialEq, Eq, Structural, Default)]
pub enum ConnectionState {
    #[default]
    Disconnected,
    Connecting,
    Activating,
    Syncing,
    Ready,
    Recovering,
    Unsupported,
}

/// A battery level; `percent` never exceeds 100.
#[derive(Debug, Clone, Copy, PartialEq, Eq, Structural)]
pub struct ChargeLevel {
    pub percent: u8,
    pub charging: bool,
}

impl ChargeLevel {
    pub fn new(percent: u8, charging: bool) -> (r: Result<ChargeLevel, ProtocolError>)
        ensures
            percent <= 100 ==> r == Ok::<ChargeLevel, ProtocolError>(ChargeLevel { percent, charging }),
            percent > 100 ==> r == Err::<ChargeLevel, ProtocolError>(
                ProtocolError::InvalidValue("battery percentage"),
            ),
    {
        if percent > 100 {
            return Err(ProtocolError::InvalidValue("battery percentage"));
        }
        Ok(ChargeLevel { percent, charging })
    }
}

#[derive(Debug, Clone, Copy, PartialEq, Eq, Structural, Default)]
pub struct BatteryState {
    pub left: Option<ChargeLevel>,
    pub right: Option<ChargeLevel>,
    pub case: Option<ChargeLevel>,
}

pub open spec fn empty_battery() -> BatteryState {
    BatteryState { left: None, right: None, case: None }
}

#[derive(Debug, Clone, Copy, PartialEq, Eq, Structural, Default)]
pub struct WearState {
    pub left: bool,
    pub right: bool,
}

#[derive(Debug, Clone, Copy, PartialEq, Eq, Structural, Default)]
pub enum AncMode {
    #[default]
    Off,
    Transparency,
    NoiseCancellation,
}

#[derive(Debug, Clone, Copy, PartialEq, Eq, Structural, Default)]
pub enum AncLevel {
    #[default]
    High,
    Mid,
    Low,
    Adaptive,
}

#[derive(Debug, Clone, Copy, PartialEq, Eq, Structural, Default)]
pub enum EqPreset {
    #[default]
    Balanced,
    MoreBass,
    MoreTreble,
    Voice,
    Custom,
    Advanced,
}

#[derive(Debug, Clone, Copy, PartialEq, Eq, Structural, Default)]
pub enum AudioCodec {
    #[default]
    Default,
    Lhdc,
    Ldac,
}

/// Whether IEEE-754 binary32 bits `b` hold a finite value.
pub open spec fn f32_finite(b: u32) -> bool {
    b % 0x8000_0000 < 0x7f80_0000
}

/// A key whose integer order is the order of the finite binary32 values.
pub open spec fn f32_key(b: u32) -> int {
    if b >= 0x8000_0000 {
        -((b - 0x8000_0000) as int)
    } else {
        b as int
    }
}

/// The binary32 value with bits `b` is finite and lies in `[lo, hi]`.
pub open spec fn f32_within(b: u32, lo: u32, hi: u32) -> bool {
    f32_finite(b) && f32_key(lo) <= f32_key(b) <= f32_key(hi)
}

pub fn f32_within_exec(b: u32, lo: u32, hi: u32) -> (r: bool)
    ensures
        r == f32_within(b, lo, hi),
{
    let key = |x: u32| -> (k: i64)
        ensures
            k == f32_key(x),
        {
            if x >= 0x8000_0000 {
                -((x - 0x8000_0000) as i64)
            } else {
                x as i64
            }
        };
    let kb = key(b);
    let klo = key(lo);
    let khi = key(hi);
    b % 0x8000_0000 < 0x7f80_0000 && klo <= kb && kb <= khi
}

/// One advanced-EQ band. Each field holds the IEEE-754 binary32 bits of its
/// value, exactly as the device sends and receives them.
#[derive(Debug, Clone, Copy, PartialEq, Eq, Structural)]
pub struct EqBand {
    pub frequency_hz: u32,
    pub gain_db: u32,
    pub q: u32,
}

/// A named eight-band advanced-EQ profile.
#[derive(Debug, Clone, PartialEq, Eq)]
pub struct AdvancedEqProfile {
    pub name: String,
    pub bands: Vec<EqBand>,
}

pub struct SpecProfile {
    pub name: Seq<char>,
    pub bands: Seq<EqBand>,
}

impl View for AdvancedEqProfile {
    type V = SpecProfile;

    open spec fn view(&self) -> SpecProfile {
        SpecProfile { name: self.name@, bands: self.bands@ }
    }
}

/// Bits of the default centre frequency of each band (55 Hz to 13.2 kHz).
pub const ADVANCED_EQ_FREQUENCIES: [u32; 8] = [
    0x425c0000u32,
    0x42dc0000u32,
    0x435c0000u32,
    0x43dc0000u32,
    0x44a50000u32,
    0x454e4000u32,
    0x45ce4000u32,
    0x464e4000u32,
];

/// Bits of the lowest frequency allowed in band `i`.
pub open spec fn band_min_frequency(i: int) -> u32 {
    if i == 0 { 0x41a00000 }        // 20
    else if i == 1 { 0x42c80000 }   // 100
    else if i == 2 { 0x43480000 }   // 200
    else if i == 3 { 0x43c80000 }   // 400
    else if i == 4 { 0x447a0000 }   // 1000
    else if i == 5 { 0x453b8000 }   // 3000
    else if i == 6 { 0x45bb8000 }   // 6000
    else { 0x463b8000 }             // 12000
}

/// Bits of the highest frequency allowed in band `i`.
pub open spec fn band_max_frequency(i: int) -> u32 {
    if i == 0 { 0x42c60000 }        // 99
    else if i == 1 { 0x43470000 }   // 199
    else if i == 2 { 0x43c78000 }   // 399
    else if i == 3 { 0x4479c000 }   // 999
    else if i == 4 { 0x453b7000 }   // 2999
    else if i == 5 { 0x45bb7800 }   // 5999
    else if i == 6 { 0x463b7c00 }   // 11999
    else { 0x469c4000 }             // 20000
}

pub const GAIN_MIN_DB: u32 = 0xc1400000;  // -12.0
pub const GAIN_MAX_DB: u32 = 0x41400000;  // 12.0
pub const Q_MIN: u32 = 0x3dcccccd;  // 0.1
pub const Q_MAX: u32 = 0x41200000;  // 10.0

/// Band `b` may stand at position `i` of a profile.
pub open spec fn band_ok(b: EqBand, i: int) -> bool {
    &&& f32_within(b.frequency_hz, band_min_frequency(i), band_max_frequency(i))
    &&& f32_within(b.gain_db, GAIN_MIN_DB, GAIN_MAX_DB)
    &&& f32_within(b.q, Q_MIN, Q_MAX)
}

pub fn band_frequency_range(i: usize) -> (r: (u32, u32))
    requires
        i < 8,
    ensures
        r == (band_min_frequency(i as int), band_max_frequency(i as int)),
{
    match i {
        0 => (0x41a00000, 0x42c60000),
        1 => (0x42c80000, 0x43470000),
        2 => (0x43480000, 0x43c78000),
        3 => (0x43c80000, 0x4479c000),
        4 => (0x447a0000, 0x453b7000),
        5 => (0x453b8000, 0x45bb7800),
        6 => (0x45bb8000, 0x463b7c00),
        _ => (0x463b8000, 0x469c4000),
    }
}

/// Whether a profile may be stored or sent.
pub open spec fn profile_check(name: Seq<char>, bands: Seq<EqBand>) -> Result<(), ProtocolError> {
    if trim_spec(name).len() == 0 || name.len() > 48 {
        Err(ProtocolError::InvalidValue("profile name"))
    } else if bands.len() != 8 {
        Err(ProtocolError::InvalidValue("advanced EQ band count"))
    } else if exists|i: int| 0 <= i < 8 && !band_ok(#[trigger] bands[i], i) {
        Err(ProtocolError::InvalidValue("advanced EQ band"))
    } else {
        Ok(())
    }
}

proof fn lemma_trim_start_blank(s: Seq<char>)
    ensures
        trim_start_spec(s).len() == 0 <==> forall|i: int| 0 <= i < s.len() ==> is_ws(#[trigger] s[i]),
        trim_start_spec(s).len() > 0 ==> !is_ws(trim_start_spec(s)[0]),
    decreases s.len(),
{
    if s.len() > 0 && is_ws(s[0]) {
        lemma_trim_start_blank(s.drop_first());
        if trim_start_spec(s).len() == 0 {
            assert forall|i: int| 0 <= i < s.len() implies is_ws(#[trigger] s[i]) by {
                if i > 0 {
                    assert(s[i] == s.drop_first()[i - 1]);
                }
            }
        } else {
            let i = choose|i: int| 0 <= i < s.drop_first().len() && !is_ws(s.drop_first()[i]);
            assert(s[i + 1] == s.drop_first()[i]);
        }
    }
}

proof fn lemma_trim_end_keeps_first(s: Seq<char>)
    requires
        s.len() > 0,
        !is_ws(s[0]),
    ensures
        trim_end_spec(s).len() > 0,
    decreases s.len(),
{
    if is_ws(s.last()) {
        if s.len() > 1 {
            lemma_trim_end_keeps_first(s.drop_last());
        }
    }
}

/// The trimmed string is empty exactly when every character is whitespace.
pub proof fn lemma_trim_blank(s: Seq<char>)
    ensures
        trim_spec(s).len() == 0 <==> forall|i: int| 0 <= i < s.len() ==> is_ws(#[trigger] s[i]),
{
    lemma_trim_start_blank(s);
    if trim_start_spec(s).len() > 0 {
        lemma_trim_end_keeps_first(trim_start_spec(s));
    }
}

/// Whether every character of `v` is whitespace.
pub fn all_whitespace(v: &[char]) -> (r: bool)
    ensures
        r == forall|i: int| 0 <= i < v@.len() ==> is_ws(#[trigger] v@[i]),
{
    let mut i: usize = 0;
    while i < v.len()
        invariant
            i <= v@.len(),
            forall|j: int| 0 <= j < i ==> is_ws(#[trigger] v@[j]),
        decreases v@.len() - i,
    {
        if !is_whitespace(v[i]) {
            return false;
        }
        i = i + 1;
    }
    true
}

impl AdvancedEqProfile {
    /// Refuses a blank or over-long name, a band count other than eight, and
    /// any band outside its frequency, gain or Q range.
    pub fn validate(&self) -> (r: Result<(), ProtocolError>)
        ensures
            r == profile_check(self.name@, self.bands@),
    {
        let name = chars_of(self.name.as_str());
        proof {
            lemma_trim_blank(name@);
        }
        if all_whitespace(name.as_slice()) || name.len() > 48 {
            return Err(ProtocolError::InvalidValue("profile name"));
        }
        if self.bands.len() != 8 {
            return Err(ProtocolError::InvalidValue("advanced EQ band count"));
        }
        let mut i: usize = 0;
        while i < 8
            invariant
                i <= 8,
                self.bands@.len() == 8,
                trim_spec(self.name@).len() != 0,
                self.name@.len() <= 48,
                forall|j: int| 0 <= j < i ==> band_ok(#[trigger] self.bands@[j], j),
            decreases 8 - i,
        {
            let band = self.bands[i];
            let (min_frequency, max_frequency) = band_frequency_range(i);
            if !f32_within_exec(band.frequency_hz, min_frequency, max_frequency)
                || !f32_within_exec(band.gain_db, GAIN_MIN_DB, GAIN_MAX_DB)
                || !f32_within_exec(band.q, Q_MIN, Q_MAX)
            {
                assert(!band_ok(self.bands@[i as int], i as int));
                return Err(ProtocolError::InvalidValue("advanced EQ band"));
            }
            i = i + 1;
        }
        Ok(())
    }

    pub fn copy(&self) -> (r: AdvancedEqProfile)
        ensures
            r@ == self@,
    {
        let mut bands: Vec<EqBand> = Vec::new();
        let mut i: usize = 0;
        while i < self.bands.len()
            invariant
                i <= self.bands@.len(),
                bands@ =~= self.bands@.take(i as int),
            decreases self.bands@.len() - i,
        {
            bands.push(self.bands[i]);
            i = i + 1;
        }
        assert(self.bands@.take(self.bands@.len() as int) =~= self.bands@);
        AdvancedEqProfile { name: self.name.clone(), bands }
    }
}

#[derive(Debug, Clone, Copy, PartialEq, Eq, Structural, PartialOrd, Ord, Hash)]
pub enum EarbudSide {
    Left,
    Right,
}

#[derive(Debug, Clone, Copy, PartialEq, Eq, Structural, PartialOrd, Ord, Hash)]
pub enum Gesture {
    SinglePinch,
    DoublePinch,
    TriplePinch,
    PinchAndHold,
    DoublePinchAndHold,
}

#[derive(Debug, Clone, Copy, PartialEq, Eq, Structural)]
pub enum GestureAction {
    PlayPause,
    SkipBack,
    SkipForward,
    VoiceAssistant,
    NoiseControl,
    VolumeUp,
    VolumeDown,
    NoAction,
}

/// The B171 allow-list of actions for each gesture.
pub open spec fn gesture_allows(g: Gesture, a: GestureAction) -> bool {
    match g {
        Gesture::SinglePinch => a == GestureAction::PlayPause,
        Gesture::DoublePinch | Gesture::TriplePinch => {
            ||| a == GestureAction::SkipBack
            ||| a == GestureAction::SkipForward
            ||| a == GestureAction::VoiceAssistant
            ||| a == GestureAction::NoAction
        },
        Gesture::PinchAndHold | Gesture::DoublePinchAndHold => {
            ||| a == GestureAction::NoiseControl
            ||| a == GestureAction::VolumeUp
            ||| a == GestureAction::VolumeDown
            ||| a == GestureAction::VoiceAssistant
            ||| a == GestureAction::NoAction
        },
    }
}

impl Gesture {
    pub fn allows(self, action: GestureAction) -> (r: bool)
        ensures
            r == gesture_allows(self, action),
    {
        match self {
            Gesture::SinglePinch => action == GestureAction::PlayPause,
            Gesture::DoublePinch | Gesture::TriplePinch => match action {
                GestureAction::SkipBack | GestureAction::SkipForward | GestureAction::VoiceAssistant
                | GestureAction::NoAction => true,
                _ => false,
            },
            Gesture::PinchAndHold | Gesture::DoublePinchAndHold => match action {
                GestureAction::NoiseControl | GestureAction::VolumeUp | GestureAction::VolumeDown
                | GestureAction::VoiceAssistant | GestureAction::NoAction => true,
                _ => false,
            },
        }
    }
}

/// Position of a side in key order.
pub open spec fn side_index(s: EarbudSide) -> int {
    match s {
        EarbudSide::Left => 0,
        EarbudSide::Right => 1,
    }
}

/// Position of a gesture in key order.
pub open spec fn gesture_index(g: Gesture) -> int {
    match g {
        Gesture::SinglePinch => 0,
        Gesture::DoublePinch => 1,
        Gesture::TriplePinch => 2,
        Gesture::PinchAndHold => 3,
        Gesture::DoublePinchAndHold => 4,
    }
}

/// Slot of a (side, gesture) key; slots follow the key order.
pub open spec fn slot_of(s: EarbudSide, g: Gesture) -> int {
    side_index(s) * 5 + gesture_index(g)
}

fn slot_index(s: EarbudSide, g: Gesture) -> (i: usize)
    ensures
        i == slot_of(s, g),
        i < 10,
{
    let side: usize = match s {
        EarbudSide::Left => 0,
        EarbudSide::Right => 1,
    };
    let gesture: usize = match g {
        Gesture::SinglePinch => 0,
        Gesture::DoublePinch => 1,
        Gesture::TriplePinch => 2,
        Gesture::PinchAndHold => 3,
        Gesture::DoublePinchAndHold => 4,
    };
    side * 5 + gesture
}

fn key_of_slot(i: usize) -> (k: (EarbudSide, Gesture))
    requires
        i < 10,
    ensures
        slot_of(k.0, k.1) == i,
{
    let side = if i < 5 { EarbudSide::Left } else { EarbudSide::Right };
    let gesture = match i % 5 {
        0 => Gesture::SinglePinch,
        1 => Gesture::DoublePinch,
        2 => Gesture::TriplePinch,
        3 => Gesture::PinchAndHold,
        _ => Gesture::DoublePinchAndHold,
    };
    (side, gesture)
}

proof fn lemma_slot_injective(a: (EarbudSide, Gesture), b: (EarbudSide, Gesture))
    ensures
        slot_of(a.0, a.1) == slot_of(b.0, b.1) ==> a == b,
        0 <= slot_of(a.0, a.1) < 10,
{
}

/// The action assigned to each (side, gesture) pair: one slot per pair of
/// the two sides and five gestures, so that the map is keyed by the pair
/// itself and iterates in the (side, gesture) order of the enums.
#[derive(Debug, Clone, Copy, PartialEq, Eq)]
pub struct GestureMap {
    slots: [Option<GestureAction>; 10],
}

impl View for GestureMap {
    type V = Map<(EarbudSide, Gesture), GestureAction>;

    closed spec fn view(&self) -> Map<(EarbudSide, Gesture), GestureAction> {
        Map::new(
            |k: (EarbudSide, Gesture)| self.slots@[slot_of(k.0, k.1)] is Some,
            |k: (EarbudSide, Gesture)| self.slots@[slot_of(k.0, k.1)]->Some_0,
        )
    }
}

/// Number of assigned slots among the first `n`.
spec fn count_some(s: Seq<Option<GestureAction>>, n: int) -> nat
    decreases n,
{
    if n <= 0 {
        0
    } else {
        count_some(s, n - 1) + if s[n - 1] is Some { 1nat } else { 0nat }
    }
}

proof fn lemma_count_none(s: Seq<Option<GestureAction>>, n: int)
    requires
        0 <= n <= s.len(),
        forall|i: int| 0 <= i < n ==> s[i] is None,
    ensures
        count_some(s, n) == 0,
    decreases n,
{
    if n > 0 {
        lemma_count_none(s, n - 1);
    }
}

impl GestureMap {
    /// Number of assigned pairs.
    pub closed spec fn size(&self) -> nat {
        count_some(self.slots@, 10)
    }

    pub fn new() -> (m: GestureMap)
        ensures
            m@ == Map::<(EarbudSide, Gesture), GestureAction>::empty(),
            m.size() == 0,
    {
        let m = GestureMap { slots: [None; 10] };
        assert(m@ =~= Map::<(EarbudSide, Gesture), GestureAction>::empty());
        proof {
            lemma_count_none(m.slots@, 10);
        }
        m
    }

    pub fn get(&self, side: EarbudSide, gesture: Gesture) -> (r: Option<GestureAction>)
        ensures
            r == (if self@.dom().contains((side, gesture)) {
                Some(self@[(side, gesture)])
            } else {
                None
            }),
    {
        self.slots[slot_index(side, gesture)]
    }

    pub fn insert(&mut self, side: EarbudSide, gesture: Gesture, action: GestureAction)
        ensures
            final(self)@ == old(self)@.insert((side, gesture), action),
    {
        let i = slot_index(side, gesture);
        self.slots[i] = Some(action);
        assert forall|k: (EarbudSide, Gesture)| #[trigger] final(self)@.dom().contains(k)
            == old(self)@.insert((side, gesture), action).dom().contains(k) by {
            lemma_slot_injective(k, (side, gesture));
        }
        assert forall|k: (EarbudSide, Gesture)| #[trigger] final(self)@.dom().contains(k) implies
            final(self)@[k] == old(self)@.insert((side, gesture), action)[k] by {
            lemma_slot_injective(k, (side, gesture));
        }
        assert(final(self)@ =~= old(self)@.insert((side, gesture), action));
    }

    /// Number of assigned (side, gesture) pairs.
    pub fn len(&self) -> (n: usize)
        ensures
            n == self.size(),
    {
        let mut n: usize = 0;
        let mut i: usize = 0;
        while i < 10
            invariant
                i <= 10,
                n == count_some(self.slots@, i as int),
                n <= i,
            decreases 10 - i,
        {
            if self.slots[i].is_some() {
                n = n + 1;
            }
            i = i + 1;
        }
        n
    }

    /// The assignments in key order (left before right, gestures in declaration order).
    pub fn entries(&self) -> (v: Vec<(EarbudSide, Gesture, GestureAction)>)
        ensures
            forall|j: int|
                0 <= j < v@.len() ==> {
                    let (s, g, a) = #[trigger] v@[j];
                    self@.dom().contains((s, g)) && self@[(s, g)] == a
                },
            forall|k: (EarbudSide, Gesture)|
                #[trigger] self@.dom().contains(k) ==> exists|j: int|
                    0 <= j < v@.len() && (#[trigger] v@[j]).0 == k.0 && v@[j].1 == k.1,
            forall|j1: int, j2: int|
                0 <= j1 < j2 < v@.len() ==> slot_of(v@[j1].0, v@[j1].1) < slot_of(v@[j2].0, v@[j2].1),
    {
        let mut v: Vec<(EarbudSide, Gesture, GestureAction)> = Vec::new();
        let mut i: usize = 0;
        while i < 10
            invariant
                i <= 10,
                forall|j: int|
                    0 <= j < v@.len() ==> {
                        let (s, g, a) = #[trigger] v@[j];
                        &&& self@.dom().contains((s, g))
                        &&& self@[(s, g)] == a
                        &&& slot_of(s, g) < i
                    },
                forall|k: (EarbudSide, Gesture)|
                    #[trigger] self@.dom().contains(k) && slot_of(k.0, k.1) < i ==> exists|j: int|
                        0 <= j < v@.len() && (#[trigger] v@[j]).0 == k.0 && v@[j].1 == k.1,
                forall|j1: int, j2: int|
                    0 <= j1 < j2 < v@.len() ==> slot_of(v@[j1].0, v@[j1].1) < slot_of(
                        v@[j2].0,
                        v@[j2].1,
                    ),
            decreases 10 - i,
        {
            let (side, gesture) = key_of_slot(i);
            let ghost old_v = v@;
            match self.slots[i] {
                Some(action) => {
                    v.push((side, gesture, action));
                    assert forall|k: (EarbudSide, Gesture)|
                        #[trigger] self@.dom().contains(k) && slot_of(k.0, k.1) < i + 1 implies exists|j: int|
                        0 <= j < v@.len() && (#[trigger] v@[j]).0 == k.0 && v@[j].1 == k.1 by {
                        lemma_slot_injective(k, (side, gesture));
                        if slot_of(k.0, k.1) < i {
                            let j = choose|j: int|
                                0 <= j < old_v.len() && (#[trigger] old_v[j]).0 == k.0 && old_v[j].1
                                    == k.1;
                            assert(v@[j] == old_v[j]);
                        } else {
                            assert(v@[old_v.len() as int] == (side, gesture, action));
                        }
                    }
                },
                None => {
                    assert forall|k: (EarbudSide, Gesture)|
                        #[trigger] self@.dom().contains(k) && slot_of(k.0, k.1) < i + 1 implies exists|j: int|
                        0 <= j < v@.len() && (#[trigger] v@[j]).0 == k.0 && v@[j].1 == k.1 by {
                        lemma_slot_injective(k, (side, gesture));
                    }
                },
            }
            i = i + 1;
        }
        proof {
            assert forall|k: (EarbudSide, Gesture)| #[trigger] self@.dom().contains(k) implies exists|j: int|
                0 <= j < v@.len() && (#[trigger] v@[j]).0 == k.0 && v@[j].1 == k.1 by {
                lemma_slot_injective(k, k);
            }
        }
        v
    }
}

/// Everything the app knows about the earbuds.
#[derive(Debug, Clone, PartialEq)]
pub struct DeviceSnapshot {
    pub connection: ConnectionState,
    pub battery: BatteryState,
    pub wear: WearState,
    pub anc_mode: AncMode,
    pub anc_level: AncLevel,
    pub eq_preset: EqPreset,
    /// Bass, mid and treble gains as binary32 bits.
    pub custom_eq: [u32; 3],
    pub advanced_eq_enabled: Option<bool>,
    pub advanced_eq_profile: Option<AdvancedEqProfile>,
    pub gestures: GestureMap,
    pub bass_enhance: Option<u8>,
    pub in_ear_detection: Option<bool>,
    pub low_lag: Option<bool>,
    pub audio_codec: Option<AudioCodec>,
    pub dual_connection: Option<bool>,
    pub dual_devices: Vec<DualConnectionDevice>,
    pub firmware: Option<String>,
    pub model: Option<String>,
}

pub struct SpecSnapshot {
    pub connection: ConnectionState,
    pub battery: BatteryState,
    pub wear: WearState,
    pub anc_mode: AncMode,
    pub anc_level: AncLevel,
    pub eq_preset: EqPreset,
    pub custom_eq: [u32; 3],
    pub advanced_eq_enabled: Option<bool>,
    pub advanced_eq_profile: Option<SpecProfile>,
    pub gestures: Map<(EarbudSide, Gesture), GestureAction>,
    pub bass_enhance: Option<u8>,
    pub in_ear_detection: Option<bool>,
    pub low_lag: Option<bool>,
    pub audio_codec: Option<AudioCodec>,
    pub dual_connection: Option<bool>,
    pub dual_devices: Seq<SpecDualDevice>,
    pub firmware: Option<Seq<char>>,
    pub model: Option<Seq<char>>,
}

pub open spec fn opt_string_view(s: Option<String>) -> Option<Seq<char>> {
    match s {
        Some(v) => Some(v@),
        None => None,
    }
}

pub open spec fn opt_profile_view(p: Option<AdvancedEqProfile>) -> Option<SpecProfile> {
    match p {
        Some(v) => Some(v@),
        None => None,
    }
}

impl View for DeviceSnapshot {
    type V = SpecSnapshot;

    open spec fn view(&self) -> SpecSnapshot {
        SpecSnapshot {
            connection: self.connection,
            battery: self.battery,
            wear: self.wear,
            anc_mode: self.anc_mode,
            anc_level: self.anc_level,
            eq_preset: self.eq_preset,
            custom_eq: self.custom_eq,
            advanced_eq_enabled: self.advanced_eq_enabled,
            advanced_eq_profile: opt_profile_view(self.advanced_eq_profile),
            gestures: self.gestures@,
            bass_enhance: self.bass_enhance,
            in_ear_detection: self.in_ear_detection,
            low_lag: self.low_lag,
            audio_codec: self.audio_codec,
            dual_connection: self.dual_connection,
            dual_devices: self.dual_devices.deep_view(),
            firmware: opt_string_view(self.firmware),
            model: opt_string_view(self.model),
        }
    }
}

/// The snapshot of a disconnected device that reported nothing yet.
pub open spec fn default_snapshot() -> SpecSnapshot {
    SpecSnapshot {
        connection: ConnectionState::Disconnected,
        battery: empty_battery(),
        wear: WearState { left: false, right: false },
        anc_mode: AncMode::Off,
        anc_level: AncLevel::High,
        eq_preset: EqPreset::Balanced,
        custom_eq: [0u32, 0u32, 0u32],
        advanced_eq_enabled: None,
        advanced_eq_profile: None,
        gestures: Map::empty(),
        bass_enhance: None,
        in_ear_detection: None,
        low_lag: None,
        audio_codec: None,
        dual_connection: None,
        dual_devices: Seq::empty(),
        firmware: None,
        model: None,
    }
}

fn copy_opt_string(s: &Option<String>) -> (r: Option<String>)
    ensures
        opt_string_view(r) == opt_string_view(*s),
{
    match s {
        Some(v) => Some(v.clone()),
        None => None,
    }
}

impl DeviceSnapshot {
    /// A field-by-field copy.
    pub fn copy(&self) -> (r: DeviceSnapshot)
        ensures
            r@ == self@,
    {
        let mut dual_devices: Vec<DualConnectionDevice> = Vec::new();
        let mut i: usize = 0;
        while i < self.dual_devices.len()
            invariant
                i <= self.dual_devices@.len(),
                dual_devices@.len() == i,
                dual_devices.deep_view() =~= self.dual_devices.deep_view().take(i as int),
            decreases self.dual_devices@.len() - i,
        {
            let ghost before = dual_devices@;
            let ghost before_dv = dual_devices.deep_view();
            let d = self.dual_devices[i].copy();
            dual_devices.push(d);
            assert(dual_devices@ == before.push(d));
            assert forall|j: int| 0 <= j < i + 1 implies #[trigger] dual_devices.deep_view()[j]
                == self.dual_devices.deep_view()[j] by {
                if j < i {
                    assert(dual_devices@[j] == before[j]);
                    assert(before_dv[j] == before[j].deep_view());
                    assert(before_dv[j] == self.dual_devices.deep_view()[j]);
                } else {
                    assert(self.dual_devices.deep_view()[j] == self.dual_devices@[j].deep_view());
                }
            }
            i = i + 1;
        }
        assert(self.dual_devices.deep_view().take(self.dual_devices@.len() as int)
            =~= self.dual_devices.deep_view());
        let advanced_eq_profile = match &self.advanced_eq_profile {
            Some(p) => Some(p.copy()),
            None => None,
        };
        DeviceSnapshot {
            connection: self.connection,
            battery: self.battery,
            wear: self.wear,
            anc_mode: self.anc_mode,
            anc_level: self.anc_level,
            eq_preset: self.eq_preset,
            custom_eq: self.custom_eq,
            advanced_eq_enabled: self.advanced_eq_enabled,
            advanced_eq_profile,
            gestures: self.gestures,
            bass_enhance: self.bass_enhance,
            in_ear_detection: self.in_ear_detection,
            low_lag: self.low_lag,
            audio_codec: self.audio_codec,
            dual_connection: self.dual_connection,
            dual_devices,
            firmware: copy_opt_string(&self.firmware),
            model: copy_opt_string(&self.model),
        }
    }
}

impl Default for DeviceSnapshot {
    fn default() -> (s: DeviceSnapshot)
        ensures
            s@ == default_snapshot(),
    {
        let s = DeviceSnapshot {
            connection: ConnectionState::Disconnected,
            battery: BatteryState { left: None, right: None, case: None },
            wear: WearState { left: false, right: false },
            anc_mode: AncMode::Off,
            anc_level: AncLevel::High,
            eq_preset: EqPreset::Balanced,
            custom_eq: [0, 0, 0],
            advanced_eq_enabled: None,
            advanced_eq_profile: None,
            gestures: GestureMap::new(),
            bass_enhance: None,
            in_ear_detection: None,
            low_lag: None,
            audio_codec: None,
            dual_connection: None,
            dual_devices: Vec::new(),
            firmware: None,
            model: None,
        };
        assert(s.dual_devices.deep_view() =~= Seq::<SpecDualDevice>::empty());
        assert(s.custom_eq =~= [0u32, 0u32, 0u32]);
        s
    }
}

/// A request from the user interface to the session.
#[derive(Debug, Clone, PartialEq)]
pub enum DeviceCommand {
    Activate,
    QueryBattery,
    QueryWear,
    QueryAnc,
    QueryEq,
    QueryCustomEq,
    QueryAdvancedEqProfile,
    QueryFirmware,
    QueryGestures,
    QueryInEarDetection,
    QueryLowLag,
    QueryBassEnhance,
    QueryAdvancedEq,
    QueryAudioCodec,
    QueryDualConnection,
    QueryDualConnectionDevices { page: u16 },
    SetAnc { mode: AncMode, level: AncLevel },
    SetEqPreset(EqPreset),
    /// Bass, mid and treble gains as binary32 bits.
    SetCustomEq([u32; 3]),
    SetAdvancedEqEnabled(bool),
    SetAdvancedEqProfile(Box<AdvancedEqProfile>),
    SetGesture { side: EarbudSide, gesture: Gesture, action: GestureAction },
    SetBassEnhance(Option<u8>),
    SetInEarDetection(bool),
    SetLowLag(bool),
    FindBud { side: EarbudSide, ringing: bool },
    StartFitTest,
    CancelFitTest,
    SetDualConnection(bool),
    SetDualConnectionDevice { connect: bool, address: [u8; 6] },
    SetAudioCodec(AudioCodec),
}

/// `a` and `b` are the same command; profiles are compared by value.
pub open spec fn same_command(a: DeviceCommand, b: DeviceCommand) -> bool {
    match (a, b) {
        (DeviceCommand::SetAdvancedEqProfile(p), DeviceCommand::SetAdvancedEqProfile(q)) => p@ == q@,
        _ => a == b,
    }
}

impl DeviceCommand {
    /// A copy of this command.
    pub fn clone_command(&self) -> (r: DeviceCommand)
        ensures
            same_command(r, *self),
    {
        match self {
            DeviceCommand::Activate => DeviceCommand::Activate,
            DeviceCommand::QueryBattery => DeviceCommand::QueryBattery,
            DeviceCommand::QueryWear => DeviceCommand::QueryWear,
            DeviceCommand::QueryAnc => DeviceCommand::QueryAnc,
            DeviceCommand::QueryEq => DeviceCommand::QueryEq,
            DeviceCommand::QueryCustomEq => DeviceCommand::QueryCustomEq,
            DeviceCommand::QueryAdvancedEqProfile => DeviceCommand::QueryAdvancedEqProfile,
            DeviceCommand::QueryFirmware => DeviceCommand::QueryFirmware,
            DeviceCommand::QueryGestures => DeviceCommand::QueryGestures,
            DeviceCommand::QueryInEarDetection => DeviceCommand::QueryInEarDetection,
            DeviceCommand::QueryLowLag => DeviceCommand::QueryLowLag,
            DeviceCommand::QueryBassEnhance => DeviceCommand::QueryBassEnhance,
            DeviceCommand::QueryAdvancedEq => DeviceCommand::QueryAdvancedEq,
            DeviceCommand::QueryAudioCodec => DeviceCommand::QueryAudioCodec,
            DeviceCommand::QueryDualConnection => DeviceCommand::QueryDualConnection,
            DeviceCommand::QueryDualConnectionDevices { page } => DeviceCommand::QueryDualConnectionDevices {
                page: *page,
            },
            DeviceCommand::SetAnc { mode, level } => DeviceCommand::SetAnc { mode: *mode, level: *level },
            DeviceCommand::SetEqPreset(v) => DeviceCommand::SetEqPreset(*v),
            DeviceCommand::SetCustomEq(v) => DeviceCommand::SetCustomEq(*v),
            DeviceCommand::SetAdvancedEqEnabled(v) => DeviceCommand::SetAdvancedEqEnabled(*v),
            DeviceCommand::SetAdvancedEqProfile(p) => DeviceCommand::SetAdvancedEqProfile(
                Box::new(p.copy()),
            ),
            DeviceCommand::SetGesture { side, gesture, action } => DeviceCommand::SetGesture {
                side: *side,
                gesture: *gesture,
                action: *action,
            },
            DeviceCommand::SetBassEnhance(v) => DeviceCommand::SetBassEnhance(*v),
            DeviceCommand::SetInEarDetection(v) => DeviceCommand::SetInEarDetection(*v),
            DeviceCommand::SetLowLag(v) => DeviceCommand::SetLowLag(*v),
            DeviceCommand::FindBud { side, ringing } => DeviceCommand::FindBud {
                side: *side,
                ringing: *ringing,
            },
            DeviceCommand::StartFitTest => DeviceCommand::StartFitTest,
            DeviceCommand::CancelFitTest => DeviceCommand::CancelFitTest,
            DeviceCommand::SetDualConnection(v) => DeviceCommand::SetDualConnection(*v),
            DeviceCommand::SetDualConnectionDevice { connect, address } => DeviceCommand::SetDualConnectionDevice {
                connect: *connect,
                address: *address,
            },
            DeviceCommand::SetAudioCodec(v) => DeviceCommand::SetAudioCodec(*v),
        }
    }
}

/// Something the session reports to the user interface.
#[derive(Debug, Clone, PartialEq)]
pub enum DeviceEvent {
    ConnectionChanged(ConnectionState),
    Snapshot(DeviceSnapshot),
    Battery(BatteryState),
    Wear(WearState),
    Anc { mode: AncMode, level: AncLevel },
    Eq(EqPreset),
    /// Bass, mid and treble gains as binary32 bits.
    CustomEq([u32; 3]),
    AdvancedEqEnabled(bool),
    AdvancedEqProfile(AdvancedEqProfile),
    Gestures(GestureMap),
    BassEnhance(Option<u8>),
    InEarDetection(bool),
    LowLag(bool),
    AudioCodec(AudioCodec),
    DualConnection(bool),
    DualConnectionDevicePage { total: u8, current: u8, devices: Vec<DualConnectionDevice> },
    DualConnectionDevices(Vec<DualConnectionDevice>),
    DualConnectionDeviceChanged { connected: bool, address: String, need_update: bool },
    DualConnectionSwitchChanged,
    Firmware(String),
    FitTestResult { left_ok: bool, right_ok: bool },
    Acknowledged { sequence: u8, command: u16 },
    CommandStarted { sequence: u8, command: DeviceCommand },
    CommandConfirmed { sequence: u8, command: DeviceCommand },
    CommandFailed { sequence: Option<u8>, command: DeviceCommand, reason: String },
}

/// Every failure the codec reports.
#[derive(Debug, Clone, PartialEq, Eq)]
pub enum ProtocolError {
    FrameTooLarge(usize),
    MalformedLength,
    BadCrc { received: u16, expected: u16 },
    UnsupportedCommand(&'static str),
    InvalidValue(&'static str),
    MalformedResponse(u16),
}

/// The human-readable description of an error.
pub open spec fn error_message(e: ProtocolError) -> Seq<char> {
    match e {
        ProtocolError::FrameTooLarge(n) => "payload exceeds the "@ + decimal(n as nat)
            + "-byte safety bound"@,
        ProtocolError::MalformedLength => "declared frame length is malformed"@,
        ProtocolError::BadCrc { received, expected } => "frame checksum mismatch: received "@
            + hex_word(received) + ", expected "@ + hex_word(expected),
        ProtocolError::UnsupportedCommand(what) => "unsupported command: "@ + what@,
        ProtocolError::InvalidValue(what) => "invalid "@ + what@,
        ProtocolError::MalformedResponse(id) => "malformed response for command "@ + hex_word(id),
    }
}

impl ProtocolError {
    /// The description shown to users, as `to_string` would give it.
    pub fn message(&self) -> (m: String)
        ensures
            m@ == error_message(*self),
    {
        let mut m = String::new();
        match self {
            ProtocolError::FrameTooLarge(n) => {
                push_str(&mut m, "payload exceeds the ");
                push_decimal(&mut m, *n as u64);
                push_str(&mut m, "-byte safety bound");
            },
            ProtocolError::MalformedLength => {
                push_str(&mut m, "declared frame length is malformed");
            },
            ProtocolError::BadCrc { received, expected } => {
                push_str(&mut m, "frame checksum mismatch: received ");
                push_hex_word(&mut m, *received);
                push_str(&mut m, ", expected ");
                push_hex_word(&mut m, *expected);
            },
            ProtocolError::UnsupportedCommand(what) => {
                push_str(&mut m, "unsupported command: ");
                push_str(&mut m, what);
            },
            ProtocolError::InvalidValue(what) => {
                push_str(&mut m, "invalid ");
                push_str(&mut m, what);
            },
            ProtocolError::MalformedResponse(id) => {
                push_str(&mut m, "malformed response for command ");
                push_hex_word(&mut m, *id);
            },
        }
        assert(m@ =~= error_message(*self));
        m
    }
}

} // verus!
