use nothing_core::{
    failure_message, map_snapshot, ConnectionState, DeviceCapabilities, DeviceCommand,
    DeviceEvent, DeviceSnapshot,
};

#[test]
fn gates_controls_until_ready() {
    let mut snapshot = DeviceSnapshot::default();
    assert!(!map_snapshot(&snapshot, &DeviceCapabilities::b171()).controls_enabled);
    snapshot.connection = ConnectionState::Ready;
    assert!(map_snapshot(&snapshot, &DeviceCapabilities::b171()).controls_enabled);
}

#[test]
fn unknown_profile_never_enables_writes() {
    let snapshot = DeviceSnapshot {
        connection: ConnectionState::Ready,
        ..DeviceSnapshot::default()
    };
    assert!(!map_snapshot(&snapshot, &DeviceCapabilities::unknown("B999")).controls_enabled);
}

#[test]
fn status_and_spinner_follow_the_connection() {
    let mut snapshot = DeviceSnapshot::default();
    let caps = DeviceCapabilities::b171();
    snapshot.connection = ConnectionState::Syncing;
    let view = map_snapshot(&snapshot, &caps);
    assert_eq!(view.status, "Reading settings…");
    assert!(view.spinner);
    assert_eq!(view.unsupported_reason, None);
    snapshot.connection = ConnectionState::Unsupported;
    snapshot.model = Some("B163".into());
    let view = map_snapshot(&snapshot, &caps);
    assert_eq!(view.status, "Unsupported device");
    assert!(!view.spinner);
    assert_eq!(
        view.unsupported_reason.as_deref(),
        Some("B163 has no verified write profile")
    );
    snapshot.model = None;
    assert_eq!(
        map_snapshot(&snapshot, &caps).unsupported_reason.as_deref(),
        Some("This model has no verified write profile")
    );
}

#[test]
fn only_failed_commands_carry_a_message() {
    let failed = DeviceEvent::CommandFailed {
        sequence: Some(3),
        command: DeviceCommand::SetLowLag(true),
        reason: "nope".into(),
    };
    assert_eq!(failure_message(&failed).as_deref(), Some("nope"));
    assert_eq!(
        failure_message(&DeviceEvent::ConnectionChanged(ConnectionState::Ready)),
        None
    );
}
