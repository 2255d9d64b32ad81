//! Verified core of the SayAll remote-control bridge: remote button decoding,
//! gesture recognition, per-application profiles and voice-key handling.
use vstd::prelude::*;

pub mod app_profiles;
pub mod button_gestures;
pub mod default_capture;
pub mod diagnostics;
pub mod dsp;
pub mod hotkey;
pub mod ime_hotkey;
pub mod json;
pub mod key_suppressor;
pub mod log_fields;
pub mod mapping_import;
pub mod platform_state;
pub mod presets;
pub mod raw_input;
pub mod rc003_hook;
pub mod remote_profile;
pub mod send_input;
pub mod text;
pub mod theme;

verus! {

} // verus!
