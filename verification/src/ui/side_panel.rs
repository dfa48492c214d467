use vstd::prelude::*;

verus! {

/// What a click in the world does.
#[derive(Debug, Copy, Clone, PartialEq, Eq, Structural)]
pub enum UiMode {
    Select,
    AddCube,
    ShootBalls,
    AddFox,
}

/// The mode once the toggle button of `mode`, shown pressed when `current`
/// is `mode`, was left pressed (`pressed`) or not.
pub open spec fn toggled_mode(current: UiMode, mode: UiMode, pressed: bool) -> UiMode {
    if pressed {
        mode
    } else if current == mode {
        UiMode::Select
    } else {
        current
    }
}

/// Applies the toggle button of `mode` to the panel's mode: a pressed button
/// selects `mode`; releasing the button of the current mode returns to
/// selection.
pub fn ui_mode_toggle(current: &mut UiMode, mode: UiMode, pressed: bool)
    ensures
        *final(current) == toggled_mode(*old(current), mode, pressed),
{
    let val1 = *current == mode;
    if pressed {
        *current = mode;
    } else if val1 {
        *current = UiMode::Select;
    }
}

/// A button shown as it stands changes nothing: pressed for the current
/// mode, released for any other.
pub proof fn law_toggle_untouched(current: UiMode, mode: UiMode)
    ensures
        toggled_mode(current, mode, current == mode) == current,
{
}

/// Releasing a mode's button twice is the same as once, and always leaves a
/// mode other than that one (or selection).
pub proof fn law_toggle_off(current: UiMode, mode: UiMode)
    ensures
        toggled_mode(toggled_mode(current, mode, false), mode, false) == toggled_mode(current, mode, false),
        toggled_mode(current, mode, false) != mode || mode == UiMode::Select,
{
}

} // verus!
