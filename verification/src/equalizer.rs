//! The command sequences the equalizer page sends.
use crate::types::{DeviceCommand, EqPreset};
use vstd::prelude::*;

verus! {

/// The commands a preset button sends, in order: leave advanced EQ, select
/// `preset`, and for the custom preset also the current simple gains
/// (binary32 bits).
pub fn preset_selection_commands(preset: EqPreset, custom_gains: [u32; 3]) -> (r: Vec<DeviceCommand>)
    ensures
        r@.len() == if preset == EqPreset::Custom { 3int } else { 2int },
        r@[0] == DeviceCommand::SetAdvancedEqEnabled(false),
        r@[1] == DeviceCommand::SetEqPreset(preset),
        preset == EqPreset::Custom ==> r@[2] == DeviceCommand::SetCustomEq(custom_gains),
{
    let mut r: Vec<DeviceCommand> = Vec::new();
    r.push(DeviceCommand::SetAdvancedEqEnabled(false));
    r.push(DeviceCommand::SetEqPreset(preset));
    if preset == EqPreset::Custom {
        r.push(DeviceCommand::SetCustomEq(custom_gains));
    }
    r
}

/// The commands a change of the simple bass, mid or treble gains sends, in
/// order: the gains, leave advanced EQ, select the custom preset.
pub fn simple_custom_commands(gains: [u32; 3]) -> (r: Vec<DeviceCommand>)
    ensures
        r@ == seq![
            DeviceCommand::SetCustomEq(gains),
            DeviceCommand::SetAdvancedEqEnabled(false),
            DeviceCommand::SetEqPreset(EqPreset::Custom),
        ],
{
    let mut r: Vec<DeviceCommand> = Vec::new();
    r.push(DeviceCommand::SetCustomEq(gains));
    r.push(DeviceCommand::SetAdvancedEqEnabled(false));
    r.push(DeviceCommand::SetEqPreset(EqPreset::Custom));
    r
}

} // verus!
