//! What the window shows for a device snapshot.
use crate::text::push_str;
use crate::types::{ConnectionState, DeviceCapabilities, DeviceEvent, DeviceSnapshot};
use vstd::prelude::*;

verus! {

/// The header status, whether controls are usable, the spinner, and why a
/// device is unsupported.
#[derive(Debug, Clone, PartialEq, Eq)]
pub struct ViewState {
    pub status: String,
    pub controls_enabled: bool,
    pub spinner: bool,
    pub unsupported_reason: Option<String>,
}

/// The status text of a connection state.
pub open spec fn status_text(c: ConnectionState) -> Seq<char> {
    match c {
        ConnectionState::Disconnected => "Disconnected"@,
        ConnectionState::Connecting => "Connecting…"@,
        ConnectionState::Activating => "Activating secure control…"@,
        ConnectionState::Syncing => "Reading settings…"@,
        ConnectionState::Ready => "Connected"@,
        ConnectionState::Recovering => "Reconnecting…"@,
        ConnectionState::Unsupported => "Unsupported device"@,
    }
}

/// Whether the state shows a spinner.
pub open spec fn busy(c: ConnectionState) -> bool {
    match c {
        ConnectionState::Connecting | ConnectionState::Activating | ConnectionState::Syncing
        | ConnectionState::Recovering => true,
        _ => false,
    }
}

/// Why an unsupported model cannot be controlled.
pub open spec fn unsupported_text(model: Option<String>) -> Seq<char> {
    let name = match model {
        Some(m) => m@,
        None => "This model"@,
    };
    name + " has no verified write profile"@
}

fn status_of(c: ConnectionState) -> (r: (String, bool))
    ensures
        r.0@ == status_text(c),
        r.1 == busy(c),
{
    match c {
        ConnectionState::Disconnected => (String::from_str("Disconnected"), false),
        ConnectionState::Connecting => (String::from_str("Connecting…"), true),
        ConnectionState::Activating => (String::from_str("Activating secure control…"), true),
        ConnectionState::Syncing => (String::from_str("Reading settings…"), true),
        ConnectionState::Ready => (String::from_str("Connected"), false),
        ConnectionState::Recovering => (String::from_str("Reconnecting…"), true),
        ConnectionState::Unsupported => (String::from_str("Unsupported device"), false),
    }
}

/// The view of a snapshot. Controls are enabled only when the session is
/// ready and the model's capabilities are the verified B171 ones.
pub fn map_snapshot(snapshot: &DeviceSnapshot, capabilities: &DeviceCapabilities) -> (v: ViewState)
    ensures
        v.status@ == status_text(snapshot.connection),
        v.spinner == busy(snapshot.connection),
        v.controls_enabled == (snapshot.connection == ConnectionState::Ready && capabilities.model@
            == "B171"@),
        match v.unsupported_reason {
            Some(r) => snapshot.connection == ConnectionState::Unsupported && r@ == unsupported_text(
                snapshot.model,
            ),
            None => snapshot.connection != ConnectionState::Unsupported,
        },
{
    let (status, spinner) = status_of(snapshot.connection);
    let unsupported_reason = if snapshot.connection == ConnectionState::Unsupported {
        let mut reason = String::new();
        match &snapshot.model {
            Some(m) => push_str(&mut reason, m.as_str()),
            None => push_str(&mut reason, "This model"),
        }
        push_str(&mut reason, " has no verified write profile");
        Some(reason)
    } else {
        None
    };
    let b171 = String::from_str("B171");
    let controls_enabled = snapshot.connection == ConnectionState::Ready && capabilities.model
        == b171;
    ViewState { status, controls_enabled, spinner, unsupported_reason }
}

/// The reason of a failed command, to show to the user.
pub fn failure_message(event: &DeviceEvent) -> (r: Option<String>)
    ensures
        match event {
            DeviceEvent::CommandFailed { reason, .. } => r matches Some(m) && m@ == reason@,
            _ => r is None,
        },
{
    match event {
        DeviceEvent::CommandFailed { reason, .. } => Some(reason.clone()),
        _ => None,
    }
}

} // verus!
