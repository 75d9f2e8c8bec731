//! Command identifiers of the vendor protocol.
use vstd::prelude::*;

verus! {

pub const QUERY_PROTOCOL: u16 = 0xc001;
pub const QUERY_REMOTE_CONFIG: u16 = 0xc006;
pub const QUERY_BATTERY: u16 = 0xc007;
pub const QUERY_WEAR: u16 = 0xc00a;
pub const QUERY_IN_EAR: u16 = 0xc00e;
pub const QUERY_GESTURES: u16 = 0xc018;
pub const QUERY_ANC: u16 = 0xc01e;
pub const QUERY_EQ: u16 = 0xc01f;
pub const QUERY_LOW_LAG: u16 = 0xc041;
pub const QUERY_FIRMWARE: u16 = 0xc042;
pub const QUERY_CUSTOM_EQ: u16 = 0xc044;
pub const QUERY_ADVANCED_EQ: u16 = 0xc04c;
pub const QUERY_ADVANCED_EQ_PROFILE: u16 = 0xc04d;
pub const QUERY_BASS: u16 = 0xc04e;
pub const QUERY_AUDIO_CODEC: u16 = 0xc029;
pub const QUERY_DUAL_CONNECTION: u16 = 0xc027;
pub const ACTIVATE: u16 = 0xf001;
pub const FIND_BUD: u16 = 0xf002;
pub const SET_GESTURE: u16 = 0xf003;
pub const SET_IN_EAR: u16 = 0xf004;
pub const SET_ANC: u16 = 0xf00f;
pub const SET_EQ: u16 = 0xf010;
pub const START_FIT_TEST: u16 = 0xf014;
pub const SET_LOW_LAG: u16 = 0xf040;
pub const SET_CUSTOM_EQ: u16 = 0xf041;
pub const SET_ADVANCED_EQ: u16 = 0xf04f;
pub const SET_ADVANCED_EQ_PROFILE: u16 = 0xf050;
pub const SET_AUDIO_CODEC: u16 = 0xf01c;
pub const SET_BASS: u16 = 0xf051;
pub const SET_DUAL_CONNECTION: u16 = 0xf01a;
pub const EVENT_BATTERY: u16 = 0xe001;
pub const EVENT_WEAR: u16 = 0xe002;
pub const EVENT_ANC: u16 = 0xe003;
pub const EVENT_FIT_TEST: u16 = 0xe00d;

} // verus!
