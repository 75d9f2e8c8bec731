use nothing_core::labels::{
    battery_text, dual_device_count, dual_device_name, dual_device_subtitle, dual_device_toggle,
    gesture_choices, gesture_name, next_profile_name, wear_text,
};
use nothing_core::locator::{Locator, LocatorStep, WORN_WARNING};
use nothing_core::persistence::neutral_profile;
use nothing_core::{
    ChargeLevel, ConnectionState, DeviceCommand, DualConnectionDevice, EarbudSide, EqProfileStore,
    Gesture, Reconnect, ReconnectStep, SessionOutcome, WearState,
};

#[test]
fn backoff_grows_to_thirty_seconds_and_resets_after_a_clean_session() {
    let mut policy = Reconnect::new();
    assert_eq!(policy.attempt_state(), ConnectionState::Connecting);
    let failed = SessionOutcome::Failed { stale_link: false };
    let mut delays = Vec::new();
    for _ in 0..7 {
        match policy.after_session(failed, true, 0) {
            ReconnectStep::Sleep(ms) => delays.push(ms),
            ReconnectStep::Repair => panic!("no stale link"),
        }
    }
    assert_eq!(delays, vec![1000, 2000, 5000, 10000, 30000, 30000, 30000]);
    assert_eq!(policy.attempt_state(), ConnectionState::Recovering);
    assert_eq!(
        policy.after_session(SessionOutcome::Closed, true, 0),
        ReconnectStep::Sleep(1000)
    );
}

#[test]
fn stale_links_are_repaired_at_most_every_thirty_seconds() {
    let mut policy = Reconnect::new();
    let stale = SessionOutcome::Failed { stale_link: true };
    assert_eq!(policy.after_session(stale, true, 1_000), ReconnectStep::Repair);
    assert_eq!(policy.after_repair(false), ReconnectStep::Sleep(1000));
    assert_eq!(policy.after_session(stale, true, 20_000), ReconnectStep::Sleep(2000));
    assert_eq!(policy.after_session(stale, true, 31_000), ReconnectStep::Repair);
    assert_eq!(policy.after_repair(true), ReconnectStep::Sleep(1000));
    assert_eq!(policy.attempt_state(), ConnectionState::Connecting);
    let mut unmanaged = Reconnect::new();
    assert_eq!(unmanaged.after_session(stale, false, 0), ReconnectStep::Sleep(1000));
}

#[test]
fn battery_and_wear_texts() {
    assert_eq!(battery_text("LEFT", None), "LEFT —");
    assert_eq!(
        battery_text("CASE", Some(ChargeLevel { percent: 45, charging: true })),
        "CASE 45% ⚡"
    );
    assert_eq!(
        battery_text("RIGHT", Some(ChargeLevel { percent: 0, charging: false })),
        "RIGHT 0%"
    );
    assert_eq!(
        wear_text(WearState { left: true, right: false }),
        "Left: in ear  ·  Right: not worn"
    );
    assert_eq!(gesture_name(Gesture::DoublePinchAndHold), "Double pinch and hold");
}

#[test]
fn new_profiles_take_the_first_free_custom_name() {
    let mut store = EqProfileStore::default();
    assert_eq!(next_profile_name(&store), "Custom 1");
    store.push(neutral_profile("Custom 1")).unwrap();
    store.push(neutral_profile("Custom 3")).unwrap();
    assert_eq!(next_profile_name(&store), "Custom 2");
    let full = EqProfileStore((1..=20).map(|i| neutral_profile(&format!("Custom {i}"))).collect());
    assert_eq!(next_profile_name(&full), "Custom");
}

#[test]
fn dual_devices_show_a_name_and_the_current_one() {
    let mut device = DualConnectionDevice {
        address: "00:11:22:33:44:55".into(),
        address_bytes: [0, 0x11, 0x22, 0x33, 0x44, 0x55],
        name: "  Phone ".into(),
        connected: true,
        owner_device: true,
    };
    assert_eq!(dual_device_name(&device), "Phone");
    assert_eq!(dual_device_subtitle(&device), Some("Current"));
    device.name = "   ".into();
    device.owner_device = false;
    assert_eq!(dual_device_name(&device), "Nothing audio device");
    assert_eq!(dual_device_subtitle(&device), None);
}

#[test]
fn the_locator_never_rings_a_worn_earbud() {
    let worn_left = WearState { left: true, right: false };
    let mut left = Locator::new(EarbudSide::Left);
    assert_eq!(left.label(), "Left · Play");
    assert_eq!(left.press(worn_left), LocatorStep::RefuseWorn);
    assert!(!left.ringing);
    let mut right = Locator::new(EarbudSide::Right);
    assert_eq!(
        right.press(worn_left),
        LocatorStep::Send(DeviceCommand::FindBud { side: EarbudSide::Right, ringing: true })
    );
    assert_eq!(right.label(), "Right · Pause");
    assert_eq!(
        right.press(WearState { left: true, right: true }),
        LocatorStep::Send(DeviceCommand::FindBud { side: EarbudSide::Right, ringing: false })
    );
    assert!(!right.ringing);
    assert!(WORN_WARNING.starts_with("This earbud is reported as worn."));
}

#[test]
fn the_dual_connection_list_counts_at_most_two() {
    let device = |connected: bool, last: u8| DualConnectionDevice {
        address: format!("00:11:22:33:44:{last:02X}"),
        address_bytes: [0, 0x11, 0x22, 0x33, 0x44, last],
        name: "Phone".into(),
        connected,
        owner_device: false,
    };
    assert_eq!(dual_device_count(&[]), "(0/2)");
    assert_eq!(dual_device_count(&[device(true, 1), device(false, 2)]), "(1/2)");
    assert_eq!(
        dual_device_count(&[device(true, 1), device(true, 2), device(true, 3)]),
        "(2/2)"
    );
    assert_eq!(
        dual_device_toggle(&device(true, 9)),
        DeviceCommand::SetDualConnectionDevice {
            connect: false,
            address: [0, 0x11, 0x22, 0x33, 0x44, 9]
        }
    );
}

#[test]
fn gesture_menus_offer_only_accepted_actions() {
    for gesture in [
        Gesture::DoublePinch,
        Gesture::TriplePinch,
        Gesture::PinchAndHold,
        Gesture::DoublePinchAndHold,
    ] {
        let choices = gesture_choices(gesture);
        assert!(choices.iter().all(|(_, action)| gesture.allows(*action)));
        assert_eq!(choices.last().map(|(label, _)| *label), Some("None"));
    }
    assert_eq!(gesture_choices(Gesture::DoublePinch).len(), 4);
    assert_eq!(gesture_choices(Gesture::PinchAndHold)[0].0, "Noise control");
}
