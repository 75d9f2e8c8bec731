use nothing_core::display::{
    apply_confirmed_event, apply_optimistic_command, remove_pending, scope_for_command,
    scope_for_event,
};
use nothing_core::{
    AncLevel, AncMode, ConnectionState, DeviceCommand, DeviceEvent, DeviceSnapshot,
    DisplayModel, DualConnectionDevice, PendingCommand, RefreshScope,
};

#[test]
fn pending_commands_overlay_and_rollback_to_confirmed_state() {
    let confirmed = DeviceSnapshot {
        bass_enhance: Some(2),
        ..DeviceSnapshot::default()
    };
    let mut pending = vec![PendingCommand {
        sequence: 7,
        command: DeviceCommand::SetBassEnhance(Some(5)),
    }];
    let mut displayed = confirmed.clone();
    for command in pending.iter() {
        apply_optimistic_command(&mut displayed, &command.command);
    }
    assert_eq!(displayed.bass_enhance, Some(5));

    remove_pending(&mut pending, Some(7), &DeviceCommand::SetBassEnhance(Some(5)));
    let mut displayed = confirmed;
    for command in pending.iter() {
        apply_optimistic_command(&mut displayed, &command.command);
    }
    assert_eq!(displayed.bass_enhance, Some(2));
}

#[test]
fn a_failed_command_rolls_the_display_back() {
    let mut model = DisplayModel::new();
    model.apply_event(DeviceEvent::ConnectionChanged(ConnectionState::Ready));
    let scope = model.apply_event(DeviceEvent::CommandStarted {
        sequence: 4,
        command: DeviceCommand::SetAnc {
            mode: AncMode::NoiseCancellation,
            level: AncLevel::Low,
        },
    });
    assert_eq!(scope, RefreshScope::Anc);
    assert!(model.updating());
    assert_eq!(model.displayed().anc_mode, AncMode::NoiseCancellation);
    assert_eq!(model.confirmed().anc_mode, AncMode::Off);
    model.apply_event(DeviceEvent::CommandFailed {
        sequence: Some(4),
        command: DeviceCommand::SetAnc {
            mode: AncMode::NoiseCancellation,
            level: AncLevel::Low,
        },
        reason: "timeout".into(),
    });
    assert!(!model.updating());
    assert_eq!(model.displayed(), *model.confirmed());
}

#[test]
fn a_lost_connection_drops_commands_in_flight() {
    let mut model = DisplayModel::new();
    model.apply_event(DeviceEvent::CommandStarted {
        sequence: 1,
        command: DeviceCommand::SetLowLag(true),
    });
    assert_eq!(model.displayed().low_lag, Some(true));
    let scope = model.apply_event(DeviceEvent::ConnectionChanged(ConnectionState::Recovering));
    assert_eq!(scope, RefreshScope::All);
    assert!(!model.updating());
    assert_eq!(model.displayed().low_lag, None);
    assert_eq!(model.displayed().connection, ConnectionState::Recovering);
}

#[test]
fn settlement_without_sequence_matches_by_command() {
    let mut pending = vec![
        PendingCommand { sequence: 1, command: DeviceCommand::SetLowLag(true) },
        PendingCommand { sequence: 2, command: DeviceCommand::SetInEarDetection(false) },
    ];
    remove_pending(&mut pending, None, &DeviceCommand::SetInEarDetection(false));
    assert_eq!(pending.len(), 1);
    assert_eq!(pending[0].sequence, 1);
    remove_pending(&mut pending, Some(9), &DeviceCommand::SetLowLag(false));
    assert_eq!(pending.len(), 1);
}

#[test]
fn a_snapshot_without_devices_keeps_the_known_list() {
    let device = DualConnectionDevice {
        address: "0A:1B:2C:3D:4E:5F".into(),
        address_bytes: [0x0a, 0x1b, 0x2c, 0x3d, 0x4e, 0x5f],
        name: "Laptop".into(),
        connected: false,
        owner_device: false,
    };
    let mut confirmed = DeviceSnapshot::default();
    apply_confirmed_event(&mut confirmed, &DeviceEvent::DualConnectionDevices(vec![device]));
    let fresh = DeviceSnapshot {
        firmware: Some("2.0".into()),
        ..DeviceSnapshot::default()
    };
    apply_confirmed_event(&mut confirmed, &DeviceEvent::Snapshot(fresh));
    assert_eq!(confirmed.firmware.as_deref(), Some("2.0"));
    assert_eq!(confirmed.dual_devices.len(), 1);
    let mut shown = confirmed.clone();
    apply_optimistic_command(
        &mut shown,
        &DeviceCommand::SetDualConnectionDevice {
            connect: true,
            address: [0x0a, 0x1b, 0x2c, 0x3d, 0x4e, 0x5f],
        },
    );
    assert!(shown.dual_devices[0].connected);
}

#[test]
fn scopes_name_the_changed_part_of_the_window() {
    assert_eq!(scope_for_event(&DeviceEvent::Firmware("1".into())), RefreshScope::Firmware);
    assert_eq!(
        scope_for_event(&DeviceEvent::Acknowledged { sequence: 1, command: 2 }),
        RefreshScope::Header
    );
    assert_eq!(
        scope_for_command(&DeviceCommand::SetBassEnhance(None)),
        RefreshScope::Bass
    );
    assert_eq!(scope_for_command(&DeviceCommand::StartFitTest), RefreshScope::Header);
}

#[test]
fn stale_reports_do_not_move_a_control_in_flight() {
    let mut model = DisplayModel::new();
    model.apply_event(DeviceEvent::ConnectionChanged(ConnectionState::Ready));
    model.apply_event(DeviceEvent::CommandStarted {
        sequence: 8,
        command: DeviceCommand::SetAnc {
            mode: AncMode::Transparency,
            level: AncLevel::High,
        },
    });
    model.apply_event(DeviceEvent::Anc {
        mode: AncMode::NoiseCancellation,
        level: AncLevel::Mid,
    });
    assert_eq!(model.confirmed().anc_mode, AncMode::NoiseCancellation);
    assert_eq!(model.displayed().anc_mode, AncMode::Transparency);
    model.apply_event(DeviceEvent::CommandConfirmed {
        sequence: 8,
        command: DeviceCommand::SetAnc {
            mode: AncMode::Transparency,
            level: AncLevel::High,
        },
    });
    assert_eq!(model.displayed().anc_mode, AncMode::NoiseCancellation);
}
