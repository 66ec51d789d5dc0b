//! What a fired shortcut does to the calibration.
//!
//! The library decides which setting moves and in which direction; the
//! arithmetic on the settings themselves is the caller's.

use crate::hotkeys::HotkeyAction;
use crate::profiles::ProfileManager;
use vstd::prelude::*;

verus! {

/// One of the three calibration settings.
#[derive(Debug, Clone, Copy, PartialEq, Eq, Structural)]
pub enum Control {
    Gamma,
    Brightness,
    Contrast,
}

/// The direction of one step.
#[derive(Debug, Clone, Copy, PartialEq, Eq, Structural)]
pub enum Direction {
    Up,
    Down,
}

/// The change that an action asks for.
#[derive(Debug, Clone, Copy, PartialEq, Eq, Structural)]
pub enum Effect {
    /// Move `control` by its step size in `direction`, and clamp the result
    /// into the range of the control.
    Step { control: Control, direction: Direction },
    /// Put all three settings back to their defaults.
    Reset,
    /// Take the settings of the profile at `index`, which the list holds.
    Load { index: usize },
    /// Leave the settings as they are.
    Keep,
}

/// The change that `action` asks for when the profile list holds `count`
/// profiles. A profile action whose index lies past the end of the list
/// changes nothing.
pub open spec fn effect_of(action: HotkeyAction, count: nat) -> Effect {
    match action {
        HotkeyAction::IncreaseGamma => Effect::Step {
            control: Control::Gamma,
            direction: Direction::Up,
        },
        HotkeyAction::DecreaseGamma => Effect::Step {
            control: Control::Gamma,
            direction: Direction::Down,
        },
        HotkeyAction::IncreaseBrightness => Effect::Step {
            control: Control::Brightness,
            direction: Direction::Up,
        },
        HotkeyAction::DecreaseBrightness => Effect::Step {
            control: Control::Brightness,
            direction: Direction::Down,
        },
        HotkeyAction::IncreaseContrast => Effect::Step {
            control: Control::Contrast,
            direction: Direction::Up,
        },
        HotkeyAction::DecreaseContrast => Effect::Step {
            control: Control::Contrast,
            direction: Direction::Down,
        },
        HotkeyAction::Reset => Effect::Reset,
        HotkeyAction::LoadProfile(index) => if index < count {
            Effect::Load { index }
        } else {
            Effect::Keep
        },
    }
}

/// What a shortcut event does: nothing at all when the key was released;
/// when it was pressed, the change that the bound action asks for.
pub open spec fn dispatched(action: HotkeyAction, pressed: bool, count: nat) -> Option<Effect> {
    if pressed {
        Some(effect_of(action, count))
    } else {
        None
    }
}

/// Resolves one event of the shortcut registry for the action bound to the
/// chord. `None` says that the event is to be ignored; after any other
/// result the settings are applied and saved.
pub fn on_hotkey<S>(action: HotkeyAction, pressed: bool, profiles: &ProfileManager<S>) -> (effect:
    Option<Effect>)
    ensures
        effect == dispatched(action, pressed, profiles@.len()),
{
    if !pressed {
        return None;
    }
    let effect = match action {
        HotkeyAction::IncreaseGamma => Effect::Step {
            control: Control::Gamma,
            direction: Direction::Up,
        },
        HotkeyAction::DecreaseGamma => Effect::Step {
            control: Control::Gamma,
            direction: Direction::Down,
        },
        HotkeyAction::IncreaseBrightness => Effect::Step {
            control: Control::Brightness,
            direction: Direction::Up,
        },
        HotkeyAction::DecreaseBrightness => Effect::Step {
            control: Control::Brightness,
            direction: Direction::Down,
        },
        HotkeyAction::IncreaseContrast => Effect::Step {
            control: Control::Contrast,
            direction: Direction::Up,
        },
        HotkeyAction::DecreaseContrast => Effect::Step {
            control: Control::Contrast,
            direction: Direction::Down,
        },
        HotkeyAction::Reset => Effect::Reset,
        HotkeyAction::LoadProfile(index) => if index < profiles.profile_count() {
            Effect::Load { index }
        } else {
            Effect::Keep
        },
    };
    Some(effect)
}

/// A profile action that points past the end of the profile list leaves the
/// settings as they are, and so does every release of a key.
pub proof fn lemma_dangling_profile_changes_nothing(index: usize, count: nat)
    requires
        index >= count,
    ensures
        effect_of(HotkeyAction::LoadProfile(index), count) == Effect::Keep,
        dispatched(HotkeyAction::LoadProfile(index), true, count) == Some(Effect::Keep),
{
}

} // verus!
