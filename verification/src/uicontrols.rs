//! The abstract steering input and the control scheme.
//!
//! Keyboard keys, buttons and touch areas all collapse to one signal per
//! tick: steer left, steer right, or nothing. On-screen button input takes
//! precedence over the keyboard, and the right key over the left.

use vstd::prelude::*;

verus! {

/// The abstract steering signal.
#[derive(Clone, Copy, PartialEq, Eq, Structural, Debug)]
pub enum UiControlType {
    Left,
    Right,
}

/// Which input devices the interface offers.
#[derive(Clone, Copy, PartialEq, Eq, Structural, Debug)]
pub enum ControlSchemeType {
    Mobile,
    Desktop,
}

/// The selected control scheme.
#[derive(Clone, Copy, PartialEq, Eq, Structural, Debug)]
pub struct ControlScheme {
    pub kind: ControlSchemeType,
}

impl ControlScheme {
    pub fn set_mobile(&mut self)
        ensures
            final(self).kind == ControlSchemeType::Mobile,
    {
        self.kind = ControlSchemeType::Mobile;
    }

    pub fn set_desktop(&mut self)
        ensures
            final(self).kind == ControlSchemeType::Desktop,
    {
        self.kind = ControlSchemeType::Desktop;
    }

    pub fn is_mobile(&self) -> (r: bool)
        ensures
            r == (self.kind == ControlSchemeType::Mobile),
    {
        matches!(self.kind, ControlSchemeType::Mobile)
    }

    pub fn is_desktop(&self) -> (r: bool)
        ensures
            r == (self.kind == ControlSchemeType::Desktop),
    {
        matches!(self.kind, ControlSchemeType::Desktop)
    }
}

/// The steering signal this tick's raw inputs collapse to, starting from
/// the signal already recorded.
pub open spec fn spec_player_input(
    current: Option<UiControlType>,
    key_left: bool,
    key_right: bool,
    ui_button: Option<UiControlType>,
) -> Option<UiControlType> {
    let after_left = if key_left {
        Some(UiControlType::Left)
    } else {
        current
    };
    let after_right = if key_right {
        Some(UiControlType::Right)
    } else {
        after_left
    };
    match ui_button {
        Some(b) => Some(b),
        None => after_right,
    }
}

/// Collapse this tick's raw inputs to one steering signal.
pub fn player_input(
    current: Option<UiControlType>,
    key_left: bool,
    key_right: bool,
    ui_button: Option<UiControlType>,
) -> (control: Option<UiControlType>)
    ensures
        control == spec_player_input(current, key_left, key_right, ui_button),
{
    let mut control = current;
    if key_left {
        control = Some(UiControlType::Left);
    }
    if key_right {
        control = Some(UiControlType::Right);
    }
    match ui_button {
        Some(b) => Some(b),
        None => control,
    }
}

} // verus!
