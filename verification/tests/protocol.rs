use nothing_core::command;
use nothing_core::types::ADVANCED_EQ_FREQUENCIES;
use nothing_core::{
    decode_event, encode_command, AdvancedEqProfile, AncLevel, AncMode, AudioCodec, ChargeLevel,
    DeviceCapabilities, DeviceCommand, DeviceDescriptor, DeviceEvent, EarbudSide, EqBand,
    EqPreset, Frame, Gesture, GestureAction, ProtocolError,
};

fn desk_profile(name: &str) -> AdvancedEqProfile {
    AdvancedEqProfile {
        name: name.into(),
        bands: [55.0f32, 110.0, 220.0, 440.0, 1_320.0, 3_300.0, 6_600.0, 13_200.0]
            .into_iter()
            .map(|frequency_hz: f32| EqBand {
                frequency_hz: frequency_hz.to_bits(),
                gain_db: 0.0f32.to_bits(),
                q: 1.0f32.to_bits(),
            })
            .collect(),
    }
}

#[test]
fn b171_gesture_allowlist_rejects_invalid_combinations() {
    assert!(Gesture::DoublePinch.allows(GestureAction::SkipForward));
    assert!(!Gesture::DoublePinch.allows(GestureAction::VolumeUp));
    assert!(Gesture::SinglePinch.allows(GestureAction::PlayPause));
    assert!(!Gesture::SinglePinch.allows(GestureAction::NoAction));
}

#[test]
fn validates_advanced_eq() {
    let profile = desk_profile("Desk");
    assert_eq!(profile.validate(), Ok(()));
}

#[test]
fn default_band_frequencies_are_the_binary32_values() {
    let expected = [55.0f32, 110.0, 220.0, 440.0, 1_320.0, 3_300.0, 6_600.0, 13_200.0];
    for (bits, value) in ADVANCED_EQ_FREQUENCIES.iter().zip(expected) {
        assert_eq!(*bits, value.to_bits());
    }
}

#[test]
fn advanced_eq_validation_errors() {
    let mut blank = desk_profile("   ");
    assert_eq!(blank.validate(), Err(ProtocolError::InvalidValue("profile name")));
    blank.name = "x".repeat(49);
    assert_eq!(blank.validate(), Err(ProtocolError::InvalidValue("profile name")));
    let mut short = desk_profile("Desk");
    short.bands.pop();
    assert_eq!(
        short.validate(),
        Err(ProtocolError::InvalidValue("advanced EQ band count"))
    );
    let mut loud = desk_profile("Desk");
    loud.bands[3].gain_db = 12.5f32.to_bits();
    assert_eq!(loud.validate(), Err(ProtocolError::InvalidValue("advanced EQ band")));
    let mut nan = desk_profile("Desk");
    nan.bands[0].q = f32::NAN.to_bits();
    assert_eq!(nan.validate(), Err(ProtocolError::InvalidValue("advanced EQ band")));
    let mut edge = desk_profile("Desk");
    edge.bands[7].frequency_hz = 20_000.0f32.to_bits();
    edge.bands[0].gain_db = (-12.0f32).to_bits();
    edge.bands[1].q = 0.1f32.to_bits();
    assert_eq!(edge.validate(), Ok(()));
}

#[test]
fn charge_level_above_one_hundred_is_refused() {
    assert_eq!(
        ChargeLevel::new(100, true),
        Ok(ChargeLevel { percent: 100, charging: true })
    );
    assert_eq!(
        ChargeLevel::new(101, false),
        Err(ProtocolError::InvalidValue("battery percentage"))
    );
}

#[test]
fn capabilities_of_b171_and_unknown_models() {
    let b171 = DeviceCapabilities::b171();
    assert_eq!(b171.model, "B171");
    assert!(b171.anc && b171.advanced_eq && b171.dual_connection && !b171.personalized_anc);
    let other = DeviceCapabilities::unknown("B999");
    assert_eq!(other.model, "B999");
    assert!(!other.anc && !other.gestures && !other.fit_test);
}

#[test]
fn redacted_address_keeps_only_the_last_octet() {
    let device = DeviceDescriptor {
        address: "AA:BB:CC:DD:EE:FF".into(),
        alias: "Nothing Ear".into(),
        model: None,
        paired: true,
        connected: false,
        vendor_service: true,
    };
    assert_eq!(device.redacted_address(), "XX:XX:XX:XX:XX:FF");
}

#[test]
fn all_verified_b171_payloads_encode() {
    let commands = [
        DeviceCommand::QueryBattery,
        DeviceCommand::QueryWear,
        DeviceCommand::QueryAnc,
        DeviceCommand::QueryEq,
        DeviceCommand::QueryCustomEq,
        DeviceCommand::QueryAdvancedEqProfile,
        DeviceCommand::QueryFirmware,
        DeviceCommand::QueryGestures,
        DeviceCommand::QueryInEarDetection,
        DeviceCommand::QueryLowLag,
        DeviceCommand::QueryBassEnhance,
        DeviceCommand::QueryAdvancedEq,
        DeviceCommand::QueryAudioCodec,
        DeviceCommand::QueryDualConnection,
        DeviceCommand::SetAnc {
            mode: AncMode::NoiseCancellation,
            level: AncLevel::Adaptive,
        },
        DeviceCommand::SetEqPreset(EqPreset::Voice),
        DeviceCommand::SetCustomEq([(-2.0f32).to_bits(), 0.0f32.to_bits(), 3.0f32.to_bits()]),
        DeviceCommand::SetAdvancedEqEnabled(true),
        DeviceCommand::SetBassEnhance(Some(5)),
        DeviceCommand::SetInEarDetection(true),
        DeviceCommand::SetLowLag(false),
        DeviceCommand::SetAudioCodec(AudioCodec::Ldac),
        DeviceCommand::SetDualConnection(true),
        DeviceCommand::FindBud {
            side: EarbudSide::Left,
            ringing: true,
        },
        DeviceCommand::StartFitTest,
    ];
    for (index, command) in commands.iter().enumerate() {
        assert!(encode_command(command, index as u8).is_ok(), "{command:?}");
    }
}

#[test]
fn parses_battery_and_gestures() {
    let battery = Frame::new(0x4007, 1, vec![3, 2, 80, 3, 0x94, 4, 60])
        .unwrap_or_else(|e| panic!("{}", e.message()));
    let Some(DeviceEvent::Battery(state)) =
        decode_event(&battery).unwrap_or_else(|e| panic!("{}", e.message()))
    else {
        panic!("wrong event")
    };
    assert_eq!(state.left.map(|v| v.percent), Some(80));
    assert_eq!(state.right.map(|v| v.charging), Some(true));
    let gestures = Frame::new(0x4018, 2, vec![2, 2, 1, 2, 9, 3, 1, 7, 18])
        .unwrap_or_else(|e| panic!("{}", e.message()));
    let Some(DeviceEvent::Gestures(map)) =
        decode_event(&gestures).unwrap_or_else(|e| panic!("{}", e.message()))
    else {
        panic!("wrong event")
    };
    assert_eq!(map.len(), 2);
}

#[test]
fn parses_live_wear_event() {
    let wear = Frame::new(0xe002, 3, vec![2, 2, 0x80, 3, 0x84])
        .unwrap_or_else(|e| panic!("{}", e.message()));
    let Some(DeviceEvent::Wear(state)) =
        decode_event(&wear).unwrap_or_else(|e| panic!("{}", e.message()))
    else {
        panic!("wrong event")
    };
    assert!(!state.left);
    assert!(state.right);
}

#[test]
fn encodes_high_quality_and_dual_connection_controls() {
    let high_quality = encode_command(&DeviceCommand::SetAudioCodec(AudioCodec::Ldac), 7)
        .unwrap_or_else(|e| panic!("{}", e.message()));
    assert_eq!(high_quality.command, command::SET_AUDIO_CODEC);
    assert_eq!(high_quality.payload, [2]);

    let dual_connection = encode_command(&DeviceCommand::SetDualConnection(false), 8)
        .unwrap_or_else(|e| panic!("{}", e.message()));
    assert_eq!(dual_connection.command, command::SET_DUAL_CONNECTION);
    assert_eq!(dual_connection.payload, [0]);
}

#[test]
fn encodes_fixed_eq_payloads_from_b171_app() {
    let more_bass = encode_command(&DeviceCommand::SetEqPreset(EqPreset::MoreBass), 1)
        .unwrap_or_else(|e| panic!("{}", e.message()));
    assert_eq!(more_bass.payload, [3]);

    let custom = encode_command(&DeviceCommand::SetEqPreset(EqPreset::Custom), 2)
        .unwrap_or_else(|e| panic!("{}", e.message()));
    assert_eq!(custom.payload, [5]);

    let advanced = encode_command(&DeviceCommand::SetAdvancedEqEnabled(true), 3)
        .unwrap_or_else(|e| panic!("{}", e.message()));
    assert_eq!(advanced.payload, [1]);
}

#[test]
fn sequence_rollover_is_caller_safe() {
    let mut seq = 255_u8;
    seq = seq.wrapping_add(1);
    assert_eq!(
        encode_command(&DeviceCommand::QueryBattery, seq)
            .unwrap_or_else(|e| panic!("{}", e.message()))
            .sequence,
        0
    );
}

#[test]
fn unverified_commands_are_refused_before_framing() {
    assert!(matches!(
        encode_command(&DeviceCommand::QueryDualConnectionDevices { page: 0 }, 1),
        Err(ProtocolError::UnsupportedCommand(_))
    ));
    assert!(matches!(
        encode_command(&DeviceCommand::SetBassEnhance(Some(9)), 1),
        Err(ProtocolError::InvalidValue(_))
    ));
    assert!(matches!(
        encode_command(
            &DeviceCommand::SetGesture {
                side: EarbudSide::Left,
                gesture: Gesture::SinglePinch,
                action: GestureAction::VolumeUp,
            },
            1
        ),
        Err(ProtocolError::InvalidValue(_))
    ));
}

#[test]
fn reading_a_preset_back_reports_the_written_preset() {
    for preset in [EqPreset::Balanced, EqPreset::MoreBass, EqPreset::Voice, EqPreset::Custom] {
        let write = encode_command(&DeviceCommand::SetEqPreset(preset), 9).unwrap();
        let reply = Frame::new(0x401f, 10, write.payload.clone()).unwrap();
        assert_eq!(decode_event(&reply), Ok(Some(DeviceEvent::Eq(preset))));
    }
    let write = encode_command(
        &DeviceCommand::SetAnc {
            mode: AncMode::NoiseCancellation,
            level: AncLevel::Mid,
        },
        3,
    )
    .unwrap();
    let reply = Frame::new(0x401e, 4, write.payload.clone()).unwrap();
    assert_eq!(
        decode_event(&reply),
        Ok(Some(DeviceEvent::Anc {
            mode: AncMode::NoiseCancellation,
            level: AncLevel::Mid
        }))
    );
}

#[test]
fn reading_custom_gains_back_reports_the_written_gains() {
    let gains = [(-2.5f32).to_bits(), 1.0f32.to_bits(), 6.0f32.to_bits()];
    let write = encode_command(&DeviceCommand::SetCustomEq(gains), 1).unwrap();
    let reply = Frame::new(0x4044, 2, write.payload.clone()).unwrap();
    assert_eq!(decode_event(&reply), Ok(Some(DeviceEvent::CustomEq(gains))));
}

#[test]
fn acknowledgements_decode_with_the_request_id() {
    let ack = Frame::new(0x700f, 12, vec![]).unwrap();
    assert_eq!(
        decode_event(&ack),
        Ok(Some(DeviceEvent::Acknowledged {
            sequence: 12,
            command: command::SET_ANC
        }))
    );
}
