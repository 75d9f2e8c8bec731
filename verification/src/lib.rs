//! Verified codec, session logic and application state for the Nothing Ear
//! (B171) vendor RFCOMM protocol.

pub mod command;
pub mod commands;
pub mod decode;
pub mod discovery;
pub mod display;
pub mod equalizer;
pub mod frame;
pub mod labels;
pub mod locator;
pub mod paths;
pub mod persistence;
pub mod readback;
pub mod reconnect;
pub mod runner;
pub mod session_run;
pub mod session;
pub mod text;
pub mod tray;
pub mod types;
pub mod view;

pub use commands::encode_command;
pub use decode::decode_event;
pub use discovery::{
    classify_device, has_b171_alias, is_b171_advertisement, preferred_device, vendor_uuid,
    DiscoveryMatch, NOTHING_SERVICE_UUID,
};
pub use display::{DisplayModel, PendingCommand, RefreshScope};
pub use frame::{crc16_arc, Frame, FrameDecoder, CRC_FLAG, HOST_CONTROL, MAX_PAYLOAD, START_BYTE};
pub use persistence::{
    redact_sensitive, AppConfig, EqProfileStore, Paths, PersistenceError,
};
pub use reconnect::{Reconnect, ReconnectStep, SessionOutcome};
pub use runner::{Session, SessionAction, SessionFault};
pub use tray::{TrayAction, TrayItem};
pub use types::{
    AdvancedEqProfile, AncLevel, AncMode, AudioCodec, BatteryState, ChargeLevel, ConnectionState,
    DeviceCapabilities, DeviceCommand, DeviceDescriptor, DeviceEvent, DeviceSnapshot,
    DualConnectionDevice, EarbudSide, EqBand, EqPreset, Gesture, GestureAction, GestureMap,
    ProtocolError, WearState,
};
pub use view::{failure_message, map_snapshot, ViewState};
