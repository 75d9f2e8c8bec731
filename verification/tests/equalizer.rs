use nothing_core::equalizer::{preset_selection_commands, simple_custom_commands};
use nothing_core::{DeviceCommand, EqPreset};

#[test]
fn a_preset_button_leaves_advanced_eq_then_selects_the_preset() {
    assert_eq!(
        preset_selection_commands(EqPreset::Voice, [1, 2, 3]),
        vec![
            DeviceCommand::SetAdvancedEqEnabled(false),
            DeviceCommand::SetEqPreset(EqPreset::Voice),
        ]
    );
}

#[test]
fn the_custom_preset_button_also_sends_the_simple_gains() {
    let gains = [1.5f32.to_bits(), 0.0f32.to_bits(), (-2.0f32).to_bits()];
    assert_eq!(
        preset_selection_commands(EqPreset::Custom, gains),
        vec![
            DeviceCommand::SetAdvancedEqEnabled(false),
            DeviceCommand::SetEqPreset(EqPreset::Custom),
            DeviceCommand::SetCustomEq(gains),
        ]
    );
}

#[test]
fn a_simple_gain_change_selects_the_custom_preset() {
    assert_eq!(
        simple_custom_commands([7, 8, 9]),
        vec![
            DeviceCommand::SetCustomEq([7, 8, 9]),
            DeviceCommand::SetAdvancedEqEnabled(false),
            DeviceCommand::SetEqPreset(EqPreset::Custom),
        ]
    );
}
