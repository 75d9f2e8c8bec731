//! What reading a setting back gives after writing it.
use crate::command;
use crate::commands::{
    advanced_eq_payload, band_bytes, bands_bytes, command_wire, custom_eq_payload,
    encode_command_spec, le32, le32_at, put,
};
use crate::commands::{action_wire_spec, anc_wire_spec, gesture_wire_spec, side_wire_spec};
use crate::decode::{
    anc_chunks, anc_step, band_at, chunk_count, decoded, normalize_spec, parse_advanced_eq_spec,
    parse_anc_spec, parse_gestures_spec,
};
use crate::frame::SpecFrame;
use crate::session::confirmation_spec;
use crate::text::is_ws;
use crate::types::{
    gesture_allows, lemma_trim_blank, profile_check, AncLevel, AncMode, DeviceCommand, DeviceEvent, EarbudSide,
    EqBand, Gesture, GestureAction,
};
use vstd::prelude::*;

verus! {

/// `r` reports the setting that write `c` made.
pub open spec fn reports_setting(c: DeviceCommand, r: Result<Option<DeviceEvent>, crate::types::ProtocolError>) -> bool {
    match c {
        DeviceCommand::SetAnc { mode, level } => r == Ok::<Option<DeviceEvent>, crate::types::ProtocolError>(
            Some(
                DeviceEvent::Anc {
                    mode,
                    level: if mode == AncMode::NoiseCancellation {
                        level
                    } else {
                        AncLevel::High
                    },
                },
            ),
        ),
        DeviceCommand::SetEqPreset(p) => r == Ok::<Option<DeviceEvent>, crate::types::ProtocolError>(
            Some(DeviceEvent::Eq(p)),
        ),
        DeviceCommand::SetCustomEq(g) => r == Ok::<Option<DeviceEvent>, crate::types::ProtocolError>(
            Some(DeviceEvent::CustomEq(g)),
        ),
        DeviceCommand::SetAdvancedEqEnabled(b) => r == Ok::<Option<DeviceEvent>, crate::types::ProtocolError>(
            Some(DeviceEvent::AdvancedEqEnabled(b)),
        ),
        DeviceCommand::SetAdvancedEqProfile(p) => r matches Ok(Some(DeviceEvent::AdvancedEqProfile(x)))
            && x.bands@ == p.bands@,
        DeviceCommand::SetGesture { side, gesture, action } => r matches Ok(
            Some(DeviceEvent::Gestures(m)),
        ) && m@ == Map::<(EarbudSide, Gesture), GestureAction>::empty().insert((side, gesture), action),
        DeviceCommand::SetBassEnhance(l) => r == Ok::<Option<DeviceEvent>, crate::types::ProtocolError>(
            Some(DeviceEvent::BassEnhance(l)),
        ),
        DeviceCommand::SetInEarDetection(b) => r == Ok::<Option<DeviceEvent>, crate::types::ProtocolError>(
            Some(DeviceEvent::InEarDetection(b)),
        ),
        DeviceCommand::SetLowLag(b) => r == Ok::<Option<DeviceEvent>, crate::types::ProtocolError>(
            Some(DeviceEvent::LowLag(b)),
        ),
        DeviceCommand::SetAudioCodec(a) => r == Ok::<Option<DeviceEvent>, crate::types::ProtocolError>(
            Some(DeviceEvent::AudioCodec(a)),
        ),
        DeviceCommand::SetDualConnection(b) => r == Ok::<Option<DeviceEvent>, crate::types::ProtocolError>(
            Some(DeviceEvent::DualConnection(b)),
        ),
        _ => false,
    }
}

proof fn lemma_le32(x: u32)
    ensures
        le32_at(le32(x), 0) == x,
{
    let s = le32(x);
    assert(s[0] == (x % 256) as u8);
    assert(s[1] == ((x / 256) % 256) as u8);
    assert(s[2] == ((x / 65536) % 256) as u8);
    assert(s[3] == (x / 16777216) as u8);
    assert(x % 256 + 256 * ((x / 256) % 256) + 65536 * ((x / 65536) % 256) + 16777216 * (x
        / 16777216) == x) by (nonlinear_arith);
}

/// Four bytes of `s` from `i` are `le32(x)`.
proof fn lemma_le32_at(s: Seq<u8>, i: int, x: u32)
    requires
        0 <= i,
        i + 4 <= s.len(),
        s.subrange(i, i + 4) == le32(x),
    ensures
        le32_at(s, i) == x,
{
    lemma_le32(x);
    assert(s[i] == le32(x)[0]);
    assert(s[i + 1] == le32(x)[1]);
    assert(s[i + 2] == le32(x)[2]);
    assert(s[i + 3] == le32(x)[3]);
}

proof fn lemma_put_sub(s: Seq<u8>, at: int, b: Seq<u8>, i: int, n: int)
    requires
        0 <= at,
        at + b.len() <= s.len(),
        0 <= i,
        0 <= n,
        i + n <= s.len(),
        i + n <= at || at + b.len() <= i,
    ensures
        put(s, at, b).subrange(i, i + n) == s.subrange(i, i + n),
{
    let q = put(s, at, b);
    assert(q.len() == s.len());
    assert forall|j: int| 0 <= j < n implies #[trigger] q.subrange(i, i + n)[j] == s.subrange(i, i + n)[j] by {
        let k = i + j;
        if k < at {
            assert(q[k] == s.take(at)[k]);
        } else {
            assert(q[k] == s.skip(at + b.len())[k - at - b.len()]);
        }
    }
    assert(q.subrange(i, i + n) =~= s.subrange(i, i + n));
}

proof fn lemma_put_own(s: Seq<u8>, at: int, b: Seq<u8>)
    requires
        0 <= at,
        at + b.len() <= s.len(),
    ensures
        put(s, at, b).subrange(at, at + b.len()) == b,
        put(s, at, b).len() == s.len(),
{
    assert(put(s, at, b).subrange(at, at + b.len()) =~= b);
}

proof fn lemma_custom_readback(g: [u32; 3])
    ensures
        custom_eq_payload(g).len() == 53,
        le32_at(custom_eq_payload(g), 6) == g[0],
        le32_at(custom_eq_payload(g), 19) == g[1],
        le32_at(custom_eq_payload(g), 32) == g[2],
{
    let t = crate::commands::CUSTOM_EQ_TEMPLATE@;
    let h = crate::commands::negate_bits(crate::commands::headroom(g@, 3));
    let p1 = put(t, 1, le32(h));
    let p2 = put(p1, 6, le32(g[0]));
    let p3 = put(p2, 19, le32(g[1]));
    let p4 = put(p3, 32, le32(g[2]));
    lemma_put_own(t, 1, le32(h));
    lemma_put_own(p1, 6, le32(g[0]));
    lemma_put_own(p2, 19, le32(g[1]));
    lemma_put_own(p3, 32, le32(g[2]));
    lemma_put_sub(p3, 32, le32(g[2]), 6, 4);
    lemma_put_sub(p2, 19, le32(g[1]), 6, 4);
    lemma_put_sub(p3, 32, le32(g[2]), 19, 4);
    lemma_le32_at(p4, 6, g[0]);
    lemma_le32_at(p4, 19, g[1]);
    lemma_le32_at(p4, 32, g[2]);
}

proof fn lemma_bands_bytes_at(bands: Seq<EqBand>, n: int, i: int)
    requires
        0 <= i < n <= bands.len(),
    ensures
        bands_bytes(bands, n).len() == 13 * n,
        bands_bytes(bands, n).subrange(13 * i, 13 * i + 13) == band_bytes(bands[i]),
    decreases n,
{
    let prev = bands_bytes(bands, n - 1);
    if n - 1 > 0 {
        if i < n - 1 {
            lemma_bands_bytes_at(bands, n - 1, i);
        } else {
            lemma_bands_bytes_at(bands, n - 1, 0);
        }
    }
    assert(prev.len() == 13 * (n - 1)) by {
        if n - 1 > 0 {
            lemma_bands_bytes_at(bands, n - 1, 0);
        }
    }
    if i < n - 1 {
        assert(bands_bytes(bands, n).subrange(13 * i, 13 * i + 13) =~= prev.subrange(13 * i, 13 * i + 13));
    } else {
        assert(bands_bytes(bands, n).subrange(13 * i, 13 * i + 13) =~= band_bytes(bands[i]));
    }
}

proof fn lemma_band_at(p: Seq<u8>, bands: Seq<EqBand>, i: int)
    requires
        bands.len() == 8,
        0 <= i < 8,
        p.len() == 110,
        p.skip(6) == bands_bytes(bands, 8),
    ensures
        band_at(p, i) == bands[i],
{
    lemma_bands_bytes_at(bands, 8, i);
    let at = 6 + 13 * i;
    let bb = band_bytes(bands[i]);
    assert(p.subrange(at, at + 13) =~= p.skip(6).subrange(13 * i, 13 * i + 13));
    assert(p.subrange(at + 1, at + 5) =~= bb.subrange(1, 5));
    assert(p.subrange(at + 5, at + 9) =~= bb.subrange(5, 9));
    assert(p.subrange(at + 9, at + 13) =~= bb.subrange(9, 13));
    assert(bb.subrange(1, 5) =~= le32(bands[i].gain_db));
    assert(bb.subrange(5, 9) =~= le32(bands[i].frequency_hz));
    assert(bb.subrange(9, 13) =~= le32(bands[i].q));
    lemma_le32_at(p, at + 1, bands[i].gain_db);
    lemma_le32_at(p, at + 5, bands[i].frequency_hz);
    lemma_le32_at(p, at + 9, bands[i].q);
}

proof fn lemma_advanced_readback(bands: Seq<EqBand>)
    requires
        bands.len() == 8,
    ensures
        advanced_eq_payload(bands).len() == 110,
        advanced_eq_payload(bands)[1] == 8,
        forall|i: int| 0 <= i < 8 ==> #[trigger] band_at(advanced_eq_payload(bands), i) == bands[i],
{
    let p = advanced_eq_payload(bands);
    let head = seq![0u8, 8u8] + le32(crate::commands::negate_bits(crate::commands::headroom(
        crate::commands::gains_of(bands),
        8,
    )));
    lemma_bands_bytes_at(bands, 8, 0);
    assert(p =~= head + bands_bytes(bands, 8));
    assert(p.skip(6) =~= bands_bytes(bands, 8));
    assert forall|i: int| 0 <= i < 8 implies #[trigger] band_at(p, i) == bands[i] by {
        lemma_band_at(p, bands, i);
    }
}

/// The identifier of the query that answers a read-back.
pub open spec fn query_id(q: DeviceCommand) -> u16 {
    command_wire(q)->Ok_0.0
}

/// Reading a setting back reports what was written: when a write is framed
/// and the earbuds answer its confirmation query with the payload the write
/// carried, the decoded report holds the written value (for noise control, the
/// level is reported only in noise-cancellation mode; an advanced-EQ profile
/// comes back with its bands, under the device's name for it).
#[verifier::rlimit(60)]
pub proof fn law_readback_reports_write(
    c: DeviceCommand,
    sequence: u8,
    reply: SpecFrame,
    r: Result<Option<DeviceEvent>, crate::types::ProtocolError>,
)
    requires
        confirmation_spec(c) is Some,
        encode_command_spec(c, sequence) is Ok,
        normalize_spec(reply.command) == query_id(confirmation_spec(c)->Some_0),
        reply.payload == encode_command_spec(c, sequence)->Ok_0.payload,
        decoded(reply, r),
    ensures
        reports_setting(c, r),
{
    let p = reply.payload;
    match c {
        DeviceCommand::SetCustomEq(g) => {
            lemma_custom_readback(g);
            assert([le32_at(p, 6), le32_at(p, 19), le32_at(p, 32)] =~= g);
        },
        DeviceCommand::SetAdvancedEqProfile(profile) => {
            let bands = profile.bands@;
            assert(profile_check(profile.name@, bands) is Ok);
            lemma_advanced_readback(bands);
            let parsed = Seq::new(8, |i: int| band_at(p, i));
            assert(parsed =~= bands);
            reveal_strlit("Device profile");
            lemma_trim_blank("Device profile"@);
            assert(!is_ws("Device profile"@[0]));
            assert(profile_check("Device profile"@, bands) is Ok);
            assert(parse_advanced_eq_spec(p) == Ok::<Seq<EqBand>, crate::types::ProtocolError>(bands));
        },
        DeviceCommand::SetGesture { side, gesture, action } => {
            let m = Map::<(EarbudSide, Gesture), GestureAction>::empty().insert((side, gesture), action);
            assert(crate::decode::gesture_items(p, 0) =~= Map::<(EarbudSide, Gesture), GestureAction>::empty());
            assert(crate::decode::gesture_items(p, 1) =~= m);
        },
        DeviceCommand::SetAnc { mode, level } => {
            assert(crate::decode::chunk_count(3) == 1);
            assert(crate::decode::anc_chunks(p, 0) == Ok::<(AncMode, AncLevel), crate::types::ProtocolError>(
                (AncMode::Off, AncLevel::High),
            ));
        },
        _ => {},
    }
}

/// A byte that names a noise-control state in a report.
pub open spec fn anc_code_valid(code: u8) -> bool {
    code <= 5 || code == 7
}

/// Noise control reads back as written: the report carrying a write's
/// payload gives its mode, and its level in noise-cancellation mode (High
/// otherwise).
pub proof fn law_anc_report_round_trip(mode: AncMode, level: AncLevel)
    ensures
        parse_anc_spec(seq![1u8, anc_wire_spec(mode, level), 0u8]) == Ok::<
            (AncMode, AncLevel),
            crate::types::ProtocolError,
        >((mode, if mode == AncMode::NoiseCancellation { level } else { AncLevel::High })),
{
    let p = seq![1u8, anc_wire_spec(mode, level), 0u8];
    assert(chunk_count(3) == 1);
    assert(anc_chunks(p, 0) == Ok::<(AncMode, AncLevel), crate::types::ProtocolError>(
        (AncMode::Off, AncLevel::High),
    ));
    assert(p[0] == 1 && p[1] == anc_wire_spec(mode, level) && p.len() == 3);
    assert(anc_chunks(p, 1) == anc_step((AncMode::Off, AncLevel::High), p[1]));
}

proof fn lemma_anc_chunks_errors(p: Seq<u8>, n: int, k: int)
    requires
        0 <= k < n,
        3 * k + 1 < p.len(),
        p[3 * k] == 1,
        !anc_code_valid(p[3 * k + 1]),
    ensures
        anc_chunks(p, n) == Err::<(AncMode, AncLevel), crate::types::ProtocolError>(
            crate::types::ProtocolError::InvalidValue("ANC mode"),
        ),
    decreases n,
{
    if k < n - 1 {
        lemma_anc_chunks_errors(p, n - 1, k);
    } else {
        lemma_anc_chunks_error_kind(p, n - 1);
    }
}

proof fn lemma_anc_chunks_error_kind(p: Seq<u8>, n: int)
    ensures
        anc_chunks(p, n) matches Err(e) ==> e == crate::types::ProtocolError::InvalidValue("ANC mode"),
    decreases n,
{
    if n > 0 {
        lemma_anc_chunks_error_kind(p, n - 1);
    }
}

/// A noise-control report shorter than two bytes is malformed, and one with a
/// state chunk naming no known state is refused as an invalid mode.
pub proof fn law_anc_report_errors(p: Seq<u8>)
    ensures
        p.len() < 2 ==> parse_anc_spec(p) == Err::<(AncMode, AncLevel), crate::types::ProtocolError>(
            crate::types::ProtocolError::MalformedResponse(command::QUERY_ANC),
        ),
        p.len() >= 2 && (exists|k: int|
            0 <= k < chunk_count(p.len() as int) && 3 * k + 1 < p.len() && #[trigger] p[3 * k] == 1
                && !anc_code_valid(p[3 * k + 1])) ==> parse_anc_spec(p) == Err::<
            (AncMode, AncLevel),
            crate::types::ProtocolError,
        >(crate::types::ProtocolError::InvalidValue("ANC mode")),
{
    if p.len() >= 2 && (exists|k: int|
        0 <= k < chunk_count(p.len() as int) && 3 * k + 1 < p.len() && #[trigger] p[3 * k] == 1
            && !anc_code_valid(p[3 * k + 1])) {
        let k = choose|k: int|
            0 <= k < chunk_count(p.len() as int) && 3 * k + 1 < p.len() && #[trigger] p[3 * k] == 1
                && !anc_code_valid(p[3 * k + 1]);
        lemma_anc_chunks_errors(p, chunk_count(p.len() as int), k);
    }
}

/// A gesture write reads back as a report holding exactly that assignment;
/// a gesture report that is empty or shorter than its item count says is
/// malformed.
pub proof fn law_gesture_report_round_trip(
    side: EarbudSide,
    gesture: Gesture,
    action: GestureAction,
    sequence: u8,
    p: Seq<u8>,
)
    requires
        gesture != Gesture::SinglePinch,
        gesture_allows(gesture, action),
    ensures
        encode_command_spec(DeviceCommand::SetGesture { side, gesture, action }, sequence) matches Ok(f)
            && f.payload == seq![1u8, side_wire_spec(side), 1u8, gesture_wire_spec(gesture), action_wire_spec(action)],
        parse_gestures_spec(
            seq![1u8, side_wire_spec(side), 1u8, gesture_wire_spec(gesture), action_wire_spec(action)],
        ) == Ok::<Map<(EarbudSide, Gesture), GestureAction>, crate::types::ProtocolError>(
            Map::empty().insert((side, gesture), action),
        ),
        p.len() == 0 || p.len() < 1 + 4 * p[0] ==> parse_gestures_spec(p) == Err::<
            Map<(EarbudSide, Gesture), GestureAction>,
            crate::types::ProtocolError,
        >(crate::types::ProtocolError::MalformedResponse(command::QUERY_GESTURES)),
{
    let q = seq![1u8, side_wire_spec(side), 1u8, gesture_wire_spec(gesture), action_wire_spec(action)];
    assert(q[0] == 1 && q[1] == side_wire_spec(side) && q[3] == gesture_wire_spec(gesture) && q[4]
        == action_wire_spec(action) && q.len() == 5);
    assert(crate::decode::side_of_wire(q[1]) == Some(side));
    assert(crate::decode::gesture_of_wire(q[3]) == Some(gesture));
    assert(crate::decode::action_of_wire(q[4]) == action);
    assert(crate::decode::gesture_items(q, 0) == Map::<(EarbudSide, Gesture), GestureAction>::empty());
    assert(crate::decode::gesture_items(q, 1) =~= Map::<(EarbudSide, Gesture), GestureAction>::empty().insert(
        (side, gesture),
        action,
    ));
}

/// Every write the session sends can be acknowledged: a frame from the
/// earbuds under the write's identifier (with or without the response bit)
/// decodes to the acknowledgement of that frame's sequence number.
pub proof fn law_every_write_can_be_acknowledged(
    c: DeviceCommand,
    sequence: u8,
    f: SpecFrame,
    r: Result<Option<DeviceEvent>, crate::types::ProtocolError>,
)
    requires
        !crate::session::is_read_only(c) || c is Activate,
        encode_command_spec(c, sequence) is Ok,
        normalize_spec(f.command) == encode_command_spec(c, sequence)->Ok_0.command,
        decoded(f, r),
    ensures
        r == Ok::<Option<DeviceEvent>, crate::types::ProtocolError>(
            Some(DeviceEvent::Acknowledged { sequence: f.sequence, command: normalize_spec(f.command) }),
        ),
{
}

/// Reading a write back refreshes the part of the window the write changed,
/// and once the report is confirmed the window shows the written value (for
/// noise control outside noise cancellation the earbuds report the level as
/// high, so a write of another level there is left out, as is an advanced-EQ
/// profile, which comes back under the device's name for it).
pub proof fn law_readback_shows_the_written_value(
    c: DeviceCommand,
    sequence: u8,
    reply: SpecFrame,
    r: Result<Option<DeviceEvent>, crate::types::ProtocolError>,
    s: crate::types::SpecSnapshot,
)
    requires
        confirmation_spec(c) is Some,
        encode_command_spec(c, sequence) is Ok,
        normalize_spec(reply.command) == query_id(confirmation_spec(c)->Some_0),
        reply.payload == encode_command_spec(c, sequence)->Ok_0.payload,
        decoded(reply, r),
        !(c is SetAdvancedEqProfile),
        c matches DeviceCommand::SetAnc { mode, level } ==> mode == AncMode::NoiseCancellation || level
            == AncLevel::High,
    ensures
        r matches Ok(Some(ev)) && crate::display::event_scope(ev) == crate::display::command_scope(c)
            && crate::display::shows_command(crate::display::confirm_spec(s, ev), c),
{
    law_readback_reports_write(c, sequence, reply, r);
}

} // verus!
