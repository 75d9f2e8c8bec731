use nothing_core::command;
use nothing_core::runner::{BLOCKED_REASON, COMMAND_TIMEOUT_MS, TIMEOUT_REASON};
use nothing_core::session::{
    confirmation_query, identify_model, next_sequence, BatteryAlert, BatterySlot,
    LowBatteryCycles,
};
use nothing_core::{
    decode_event, AncLevel, AncMode, BatteryState, ChargeLevel, ConnectionState, DeviceCommand,
    DeviceEvent, EqPreset, Frame, FrameDecoder, ProtocolError, Session, SessionAction,
    SessionFault,
};

#[test]
fn model_identification_is_not_name_based() {
    assert_eq!(
        identify_model(b"1,4,SH00690000000000\n").as_deref(),
        Some("B171")
    );
    assert_eq!(identify_model(b"1,4,SH00630000000000\n"), None);
}

#[test]
fn every_b171_sku_is_identified() {
    for sku in ["61", "62", "69", "70", "74", "75"] {
        let line = format!("1,4,SH00{sku}0000000000\r\n");
        assert_eq!(identify_model(line.as_bytes()).as_deref(), Some("B171"), "{sku}");
    }
    assert_eq!(identify_model(b"1,5,SH00610000000000\n"), None);
    assert_eq!(identify_model(b""), None);
}

#[test]
fn set_requires_readback_mapping() {
    assert_eq!(
        confirmation_query(&DeviceCommand::SetEqPreset(EqPreset::Balanced)),
        Some(DeviceCommand::QueryEq)
    );
    assert_eq!(
        confirmation_query(&DeviceCommand::SetCustomEq([0; 3])),
        Some(DeviceCommand::QueryCustomEq)
    );
}

#[test]
fn sequence_numbers_wrap_around() {
    let mut sequence = 254u8;
    assert_eq!(next_sequence(&mut sequence), 255);
    assert_eq!(next_sequence(&mut sequence), 0);
    assert_eq!(sequence, 0);
}

/// What the test earbuds answer to a request, as (response id, payload).
fn answer(request: u16) -> Option<(u16, Vec<u8>)> {
    Some(match request {
        command::QUERY_PROTOCOL => (0x4001, b"1.0".to_vec()),
        command::ACTIVATE => (0x7001, vec![]),
        command::QUERY_REMOTE_CONFIG => (0x4006, b"1,4,SH00610000000000\n".to_vec()),
        command::QUERY_BATTERY => (0x4007, vec![3, 2, 80, 3, 79, 4, 60]),
        command::QUERY_WEAR => (0x400a, vec![2, 2, 0x84, 3, 0x80]),
        command::QUERY_ANC => (0x401e, vec![1, 5, 0]),
        command::QUERY_EQ => (0x401f, vec![0]),
        command::QUERY_FIRMWARE => (0x4042, b"1.2.3".to_vec()),
        command::QUERY_GESTURES => (0x4018, vec![0]),
        command::QUERY_IN_EAR => (0x400e, vec![1, 1, 1]),
        command::QUERY_LOW_LAG => (0x4041, vec![2]),
        command::QUERY_BASS => (0x404e, vec![1, 6]),
        command::QUERY_ADVANCED_EQ => (0x404c, vec![0]),
        command::QUERY_AUDIO_CODEC => (0x4029, vec![2]),
        command::QUERY_DUAL_CONNECTION => (0x4027, vec![1]),
        command::SET_ANC => (0x700f, vec![]),
        _ => return None,
    })
}

/// Feeds the session's writes to the test earbuds and their answers back,
/// until nothing is left to answer; returns every emitted event.
fn converse(session: &mut Session, mut actions: Vec<SessionAction>, now: u64) -> Vec<DeviceEvent> {
    let mut events = Vec::new();
    let mut device = FrameDecoder::new();
    while !actions.is_empty() {
        let mut replies = Vec::new();
        for action in actions.drain(..) {
            match action {
                SessionAction::Write(bytes) => {
                    for frame in device.push(&bytes).unwrap() {
                        if let Some((id, payload)) = answer(frame.command) {
                            replies.extend(Frame::new(id, frame.sequence, payload).unwrap().encode().unwrap());
                        }
                    }
                }
                SessionAction::Emit(event) => events.push(event),
                SessionAction::Notify(_) => {}
            }
        }
        if !replies.is_empty() {
            let (next, fault) = session.on_bytes(&replies, now);
            assert!(fault.is_none());
            actions = next;
        }
    }
    events
}

#[test]
fn activation_sync_and_acknowledged_write() {
    let (mut session, actions) = Session::start(0);
    let events = converse(&mut session, actions, 10);
    assert!(events.contains(&DeviceEvent::ConnectionChanged(ConnectionState::Ready)));
    assert_eq!(session.snapshot().connection, ConnectionState::Ready);
    assert_eq!(session.snapshot().model.as_deref(), Some("B171"));
    assert_eq!(session.snapshot().firmware.as_deref(), Some("1.2.3"));
    let write = session.on_command(
        DeviceCommand::SetAnc {
            mode: AncMode::Off,
            level: AncLevel::High,
        },
        20,
    );
    assert!(write.iter().any(|a| matches!(
        a,
        SessionAction::Emit(DeviceEvent::CommandStarted { .. })
    )));
    let events = converse(&mut session, write, 30);
    assert!(events.iter().any(|e| matches!(
        e,
        DeviceEvent::Acknowledged {
            command: command::SET_ANC,
            ..
        }
    )));
    assert!(events
        .iter()
        .any(|e| matches!(e, DeviceEvent::CommandConfirmed { .. })));
}

#[test]
fn writes_are_blocked_until_the_model_is_known() {
    let (mut session, _) = Session::start(0);
    let actions = session.on_command(DeviceCommand::SetLowLag(true), 1);
    assert_eq!(actions.len(), 1);
    match &actions[0] {
        SessionAction::Emit(DeviceEvent::CommandFailed {
            sequence,
            command,
            reason,
        }) => {
            assert_eq!(*sequence, None);
            assert_eq!(*command, DeviceCommand::SetLowLag(true));
            assert_eq!(reason, BLOCKED_REASON);
        }
        other => panic!("unexpected {other:?}"),
    }
    let query = session.on_command(DeviceCommand::QueryBattery, 1);
    assert!(matches!(query[0], SessionAction::Write(_)));
}

#[test]
fn silent_earbuds_end_the_session_after_the_activation_timeout() {
    let (mut session, _) = Session::start(1_000);
    let (actions, fault) = session.on_tick(1_000 + COMMAND_TIMEOUT_MS - 1);
    assert!(actions.is_empty() && fault.is_none());
    let (_, fault) = session.on_tick(1_000 + COMMAND_TIMEOUT_MS);
    assert_eq!(fault, Some(SessionFault::ActivationTimeout));
}

#[test]
fn an_unacknowledged_write_fails_after_four_seconds() {
    let (mut session, actions) = Session::start(0);
    converse(&mut session, actions, 0);
    let sent = session.on_command(DeviceCommand::SetLowLag(true), 100);
    assert!(matches!(sent[0], SessionAction::Write(_)));
    let (early, _) = session.on_tick(100 + COMMAND_TIMEOUT_MS - 1);
    assert!(early.is_empty());
    let (late, fault) = session.on_tick(100 + COMMAND_TIMEOUT_MS);
    assert!(fault.is_none());
    assert_eq!(late.len(), 1);
    match &late[0] {
        SessionAction::Emit(DeviceEvent::CommandFailed {
            sequence: Some(_),
            command,
            reason,
        }) => {
            assert_eq!(*command, DeviceCommand::SetLowLag(true));
            assert_eq!(reason, TIMEOUT_REASON);
        }
        other => panic!("unexpected {other:?}"),
    }
    let (again, _) = session.on_tick(100 + 2 * COMMAND_TIMEOUT_MS);
    assert!(again.is_empty());
}

#[test]
fn an_unknown_model_stays_read_only() {
    let (mut session, _) = Session::start(0);
    let reply = Frame::new(0x4006, 3, b"1,4,SH00630000000000\n".to_vec())
        .unwrap()
        .encode()
        .unwrap();
    let (actions, fault) = session.on_bytes(&reply, 1);
    assert!(fault.is_none());
    assert!(actions.contains(&SessionAction::Emit(DeviceEvent::ConnectionChanged(
        ConnectionState::Unsupported
    ))));
    let blocked = session.on_command(DeviceCommand::SetDualConnection(true), 2);
    assert!(matches!(
        blocked[0],
        SessionAction::Emit(DeviceEvent::CommandFailed { .. })
    ));
}

#[test]
fn a_discharging_battery_alerts_once_per_cycle() {
    let level = |percent: u8, charging: bool| BatteryState {
        left: Some(ChargeLevel { percent, charging }),
        right: None,
        case: None,
    };
    let mut cycles = LowBatteryCycles::default();
    assert_eq!(
        cycles.update(&level(20, false)),
        vec![BatteryAlert { slot: BatterySlot::Left, percent: 20 }]
    );
    assert!(cycles.update(&level(15, false)).is_empty());
    assert!(cycles.update(&level(24, false)).is_empty());
    assert!(cycles.update(&level(30, false)).is_empty());
    let again = cycles.update(&level(18, false));
    assert_eq!(again.len(), 1);
    assert_eq!(again[0].body(), "Left earbud: 18% remaining");
    assert!(cycles.update(&level(10, true)).is_empty());
    assert_eq!(cycles.update(&level(10, false)).len(), 1);
}

#[test]
fn battery_reports_above_one_hundred_percent_are_refused() {
    let frame = Frame::new(0x4007, 1, vec![1, 2, 101]).unwrap();
    assert_eq!(
        decode_event(&frame),
        Err(ProtocolError::InvalidValue("battery percentage"))
    );
    let charging_full = Frame::new(0xe001, 1, vec![1, 4, 0x80 | 100]).unwrap();
    match decode_event(&charging_full) {
        Ok(Some(DeviceEvent::Battery(state))) => {
            assert_eq!(state.case.map(|c| (c.percent, c.charging)), Some((100, true)))
        }
        other => panic!("unexpected {other:?}"),
    }
}

#[test]
fn writes_stay_blocked_across_ticks_and_reads_without_identity() {
    let (mut session, _) = Session::start(0);
    let (ticked, fault) = session.on_tick(10);
    assert!(ticked.is_empty() && fault.is_none());
    let version = Frame::new(0x4001, 1, b"1.0".to_vec()).unwrap().encode().unwrap();
    let (read, fault) = session.on_bytes(&version, 20);
    assert!(fault.is_none());
    assert!(matches!(read[0], SessionAction::Write(_)));
    let blocked = session.on_command(DeviceCommand::SetInEarDetection(false), 30);
    assert_eq!(blocked.len(), 1);
    match &blocked[0] {
        SessionAction::Emit(DeviceEvent::CommandFailed { sequence, reason, .. }) => {
            assert_eq!(*sequence, None);
            assert_eq!(reason, BLOCKED_REASON);
        }
        other => panic!("unexpected {other:?}"),
    }
}

#[test]
fn an_acknowledged_write_is_read_back_with_the_next_sequence_number() {
    let (mut session, actions) = Session::start(0);
    converse(&mut session, actions, 0);
    let sent = session.on_command(
        DeviceCommand::SetAnc {
            mode: AncMode::Off,
            level: AncLevel::High,
        },
        100,
    );
    let sequence = match &sent[1] {
        SessionAction::Emit(DeviceEvent::CommandStarted { sequence, .. }) => *sequence,
        other => panic!("unexpected {other:?}"),
    };
    let ack = Frame::new(0x700f, sequence, vec![]).unwrap().encode().unwrap();
    let (answer, fault) = session.on_bytes(&ack, 200);
    assert!(fault.is_none());
    assert_eq!(answer.len(), 3);
    assert!(matches!(
        &answer[0],
        SessionAction::Emit(DeviceEvent::CommandConfirmed { sequence: s, .. }) if *s == sequence
    ));
    match &answer[1] {
        SessionAction::Write(bytes) => {
            let frames = FrameDecoder::new().push(bytes).unwrap();
            assert_eq!(frames.len(), 1);
            assert_eq!(frames[0].command, command::QUERY_ANC);
            assert_eq!(frames[0].sequence, sequence.wrapping_add(1));
        }
        other => panic!("unexpected {other:?}"),
    }
    assert!(matches!(
        &answer[2],
        SessionAction::Emit(DeviceEvent::Acknowledged { sequence: s, command: command::SET_ANC }) if *s == sequence
    ));
    let (late, fault) = session.on_tick(100 + COMMAND_TIMEOUT_MS);
    assert!(fault.is_none());
    assert!(late.is_empty());
}
