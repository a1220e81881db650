//! Controller input clean-up.
use vstd::prelude::*;

verus! {

/// A button of the standard controller.
#[derive(Clone, Copy, PartialEq, Eq, Structural, Debug)]
pub enum StandardControllerButton {
    A,
    B,
    Select,
    Start,
    DPadUp,
    DPadDown,
    DPadLeft,
    DPadRight,
}

/// Drops the D-pad direction opposite to the one pressed last from a
/// controller byte (bit 4 up, 5 down, 6 left, 7 right), so that opposite
/// directions are never held together.
pub fn fix_dpad(controller_byte: u8, last_button_pressed: StandardControllerButton) -> (r: u8)
    ensures
        r == (match last_button_pressed {
            StandardControllerButton::DPadUp => controller_byte & 0b1101_1111,
            StandardControllerButton::DPadDown => controller_byte & 0b1110_1111,
            StandardControllerButton::DPadLeft => controller_byte & 0b0111_1111,
            StandardControllerButton::DPadRight => controller_byte & 0b1011_1111,
            _ => controller_byte,
        }),
{
    match last_button_pressed {
        StandardControllerButton::DPadUp => controller_byte & 0b1101_1111,
        StandardControllerButton::DPadDown => controller_byte & 0b1110_1111,
        StandardControllerButton::DPadLeft => controller_byte & 0b0111_1111,
        StandardControllerButton::DPadRight => controller_byte & 0b1011_1111,
        _ => controller_byte,
    }
}

} // verus!
