//! The rules of a per-monitor display calibration tool: which monitor is the
//! target, what a shortcut does, how a shortcut is recorded, stored and
//! registered, and what the gamma ramp looks like that goes to the hardware.
//!
//! The library does no input or output and holds no floating-point number.
//! The program around it enumerates the monitors, computes the 256 values of
//! a ramp channel from gamma, brightness and contrast, talks to the operating
//! system and keeps the configuration file; it hands the library plain values
//! and does what the library decides.
//!
//! - [`text`]: comparing strings with fixed words, decimal notation.
//! - [`hotkeys`]: the actions, their labels and their stored text form.
//! - [`keybind`]: key chords and the canonical token of a key press.
//! - [`recorder`]: the recording of a new shortcut, key press by key press.
//! - [`keymap`]: the bindings, at most one chord for each action.
//! - [`registration`]: which bindings the shortcut registry can take.
//! - [`profiles`]: the list of named settings.
//! - [`dispatch`]: what a fired shortcut asks for.
//! - [`monitor`]: the attached displays and the choice of the target.
//! - [`gamma`]: the ramp table and the steps of applying it.

pub mod dispatch;
pub mod gamma;
pub mod hotkeys;
pub mod keybind;
pub mod keymap;
pub mod monitor;
pub mod profiles;
pub mod recorder;
pub mod registration;
pub mod text;
