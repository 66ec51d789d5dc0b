use gammar::hotkeys::HotkeyAction;
use gammar::recorder::{CaptureOutcome, Modifier, Recorder};

#[test]
fn a_new_recorder_is_idle() {
    let recorder = Recorder::new();
    assert!(!recorder.is_recording());
    assert_eq!(recorder.target(), None);
    assert!(recorder.modifiers().is_empty());
}

#[test]
fn keys_outside_a_recording_do_nothing() {
    let mut recorder = Recorder::new();
    assert!(matches!(recorder.key_down("a", "KeyA"), CaptureOutcome::Inactive));
    assert!(matches!(recorder.key_down("Escape", "Escape"), CaptureOutcome::Inactive));
    assert!(!recorder.is_recording());
}

#[test]
fn begin_starts_with_no_modifier() {
    let mut recorder = Recorder::new();
    recorder.begin(HotkeyAction::Reset);
    assert!(recorder.is_recording());
    assert_eq!(recorder.target(), Some(HotkeyAction::Reset));
    assert!(recorder.modifiers().is_empty());
}

#[test]
fn escape_cancels() {
    let mut recorder = Recorder::new();
    recorder.begin(HotkeyAction::IncreaseGamma);
    assert!(matches!(recorder.key_down("Control", "ControlLeft"), CaptureOutcome::ModifierHeld));
    assert!(matches!(recorder.key_down("Escape", "Escape"), CaptureOutcome::Cancelled));
    assert!(!recorder.is_recording());
    assert!(recorder.modifiers().is_empty());
}

#[test]
fn modifiers_are_collected_in_order_and_once() {
    let mut recorder = Recorder::new();
    recorder.begin(HotkeyAction::IncreaseGamma);
    for (key, code) in [
        ("Shift", "ShiftLeft"),
        ("Control", "ControlLeft"),
        ("Shift", "ShiftRight"),
        ("Meta", "MetaLeft"),
        ("Control", "ControlRight"),
        ("Alt", "AltLeft"),
        ("Alt", "AltLeft"),
    ] {
        assert!(matches!(recorder.key_down(key, code), CaptureOutcome::ModifierHeld));
    }
    assert_eq!(
        recorder.modifiers(),
        &[Modifier::Shift, Modifier::Ctrl, Modifier::Win, Modifier::Alt]
    );
    assert!(recorder.is_recording());
}

#[test]
fn a_key_without_token_is_passed_over() {
    let mut recorder = Recorder::new();
    recorder.begin(HotkeyAction::DecreaseContrast);
    assert!(matches!(recorder.key_down("Control", "ControlLeft"), CaptureOutcome::ModifierHeld));
    assert!(matches!(recorder.key_down("@", "Unknown"), CaptureOutcome::Ignored));
    assert!(recorder.is_recording());
    assert_eq!(recorder.target(), Some(HotkeyAction::DecreaseContrast));
    assert_eq!(recorder.modifiers(), &[Modifier::Ctrl]);
}

#[test]
fn the_first_bindable_key_commits() {
    let mut recorder = Recorder::new();
    recorder.begin(HotkeyAction::LoadProfile(3));
    recorder.key_down("Control", "ControlLeft");
    recorder.key_down("Shift", "ShiftLeft");
    match recorder.key_down("!", "Digit1") {
        CaptureOutcome::Committed { action, keybind } => {
            assert_eq!(action, HotkeyAction::LoadProfile(3));
            assert_eq!(keybind.modifiers, vec!["Ctrl".to_string(), "Shift".to_string()]);
            assert_eq!(keybind.key, "1");
            assert_eq!(keybind.to_shortcut_string(), "Ctrl+Shift+1");
        }
        other => panic!("{other:?}"),
    }
    assert!(!recorder.is_recording());
    assert!(recorder.modifiers().is_empty());
}

#[test]
fn a_key_alone_commits_without_modifiers() {
    let mut recorder = Recorder::new();
    recorder.begin(HotkeyAction::Reset);
    match recorder.key_down("F5", "F5") {
        CaptureOutcome::Committed { action, keybind } => {
            assert_eq!(action, HotkeyAction::Reset);
            assert!(keybind.modifiers.is_empty());
            assert_eq!(keybind.key, "F5");
        }
        other => panic!("{other:?}"),
    }
}

#[test]
fn begin_again_gives_up_what_was_held() {
    let mut recorder = Recorder::new();
    recorder.begin(HotkeyAction::Reset);
    recorder.key_down("Alt", "AltLeft");
    recorder.begin(HotkeyAction::IncreaseBrightness);
    assert_eq!(recorder.target(), Some(HotkeyAction::IncreaseBrightness));
    assert!(recorder.modifiers().is_empty());
}

#[test]
fn cancel_ends_the_recording() {
    let mut recorder = Recorder::new();
    recorder.begin(HotkeyAction::Reset);
    recorder.key_down("Alt", "AltLeft");
    recorder.cancel();
    assert!(!recorder.is_recording());
    assert!(matches!(recorder.key_down("a", "KeyA"), CaptureOutcome::Inactive));
}

#[test]
fn modifier_names() {
    assert_eq!(Modifier::from_key("Control"), Some(Modifier::Ctrl));
    assert_eq!(Modifier::from_key("Shift"), Some(Modifier::Shift));
    assert_eq!(Modifier::from_key("Alt"), Some(Modifier::Alt));
    assert_eq!(Modifier::from_key("Meta"), Some(Modifier::Win));
    assert_eq!(Modifier::from_key("Ctrl"), None);
    assert_eq!(Modifier::from_key("control"), None);
    assert_eq!(Modifier::from_key(""), None);
    assert_eq!(Modifier::Ctrl.label(), "Ctrl");
    assert_eq!(Modifier::Shift.label(), "Shift");
    assert_eq!(Modifier::Alt.label(), "Alt");
    assert_eq!(Modifier::Win.label(), "Win");
}
