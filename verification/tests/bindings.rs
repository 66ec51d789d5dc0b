use gammar::hotkeys::HotkeyAction;
use gammar::keybind::KeybindConfig;
use gammar::keymap::{deserialize_keybinds, serialize_keybinds, Keybinds};
use gammar::registration::{registration_plan, RegistrationPlan, RegistryCommand};

fn chord(modifiers: &[&str], key: &str) -> KeybindConfig {
    KeybindConfig::new(modifiers.iter().map(|m| m.to_string()).collect(), key.to_string())
}

fn shortcuts(keybinds: &Keybinds) -> Vec<(HotkeyAction, String)> {
    keybinds.entries().iter().map(|b| (b.action, b.keybind.to_shortcut_string())).collect()
}

#[test]
fn a_new_map_binds_nothing() {
    let keybinds = Keybinds::new();
    assert_eq!(keybinds.len(), 0);
    assert!(keybinds.get(HotkeyAction::Reset).is_none());
    assert!(keybinds.entries().is_empty());
}

#[test]
fn insert_binds_and_replaces() {
    let mut keybinds = Keybinds::new();
    assert!(keybinds.insert(HotkeyAction::Reset, chord(&["Ctrl"], "R")).is_none());
    assert!(keybinds.insert(HotkeyAction::IncreaseGamma, chord(&["Ctrl"], "UP")).is_none());
    assert_eq!(keybinds.len(), 2);
    let previous = keybinds.insert(HotkeyAction::Reset, chord(&["Alt"], "F1")).unwrap();
    assert_eq!(previous.to_shortcut_string(), "Ctrl+R");
    assert_eq!(keybinds.len(), 2);
    assert_eq!(keybinds.get(HotkeyAction::Reset).unwrap().to_shortcut_string(), "Alt+F1");
    assert_eq!(
        shortcuts(&keybinds),
        vec![
            (HotkeyAction::Reset, "Alt+F1".to_string()),
            (HotkeyAction::IncreaseGamma, "Ctrl+UP".to_string()),
        ]
    );
}

#[test]
fn profile_actions_are_told_apart_by_index() {
    let mut keybinds = Keybinds::new();
    keybinds.insert(HotkeyAction::LoadProfile(0), chord(&["Ctrl"], "1"));
    keybinds.insert(HotkeyAction::LoadProfile(1), chord(&["Ctrl"], "2"));
    assert_eq!(keybinds.len(), 2);
    assert_eq!(keybinds.get(HotkeyAction::LoadProfile(1)).unwrap().key, "2");
    assert!(keybinds.get(HotkeyAction::LoadProfile(2)).is_none());
}

#[test]
fn remove_unbinds() {
    let mut keybinds = Keybinds::new();
    keybinds.insert(HotkeyAction::Reset, chord(&["Ctrl"], "R"));
    keybinds.insert(HotkeyAction::IncreaseGamma, chord(&["Ctrl"], "UP"));
    keybinds.insert(HotkeyAction::DecreaseGamma, chord(&["Ctrl"], "DOWN"));
    assert!(keybinds.remove(HotkeyAction::IncreaseContrast).is_none());
    assert_eq!(keybinds.len(), 3);
    let removed = keybinds.remove(HotkeyAction::IncreaseGamma).unwrap();
    assert_eq!(removed.to_shortcut_string(), "Ctrl+UP");
    assert!(keybinds.get(HotkeyAction::IncreaseGamma).is_none());
    assert_eq!(
        shortcuts(&keybinds),
        vec![
            (HotkeyAction::Reset, "Ctrl+R".to_string()),
            (HotkeyAction::DecreaseGamma, "Ctrl+DOWN".to_string()),
        ]
    );
}

#[test]
fn bindings_are_stored_under_the_text_of_their_action() {
    let mut keybinds = Keybinds::new();
    keybinds.insert(HotkeyAction::Reset, chord(&["Ctrl"], "R"));
    keybinds.insert(HotkeyAction::LoadProfile(42), chord(&["Ctrl", "Alt"], "4"));
    let stored = serialize_keybinds(&keybinds);
    let texts: Vec<(String, String)> =
        stored.iter().map(|(action, bind)| (action.clone(), bind.to_shortcut_string())).collect();
    assert_eq!(
        texts,
        vec![
            ("Reset".to_string(), "Ctrl+R".to_string()),
            ("LoadProfile(42)".to_string(), "Ctrl+Alt+4".to_string()),
        ]
    );
}

#[test]
fn stored_bindings_load_back() {
    let mut keybinds = Keybinds::new();
    keybinds.insert(HotkeyAction::Reset, chord(&["Ctrl"], "R"));
    keybinds.insert(HotkeyAction::LoadProfile(0), chord(&["Ctrl"], "1"));
    keybinds.insert(HotkeyAction::DecreaseBrightness, chord(&[], "F9"));
    let loaded = deserialize_keybinds(&serialize_keybinds(&keybinds));
    assert_eq!(shortcuts(&loaded), shortcuts(&keybinds));
}

#[test]
fn unrecognized_entries_are_dropped_on_load() {
    let stored = vec![
        ("Reset".to_string(), chord(&["Ctrl"], "R")),
        ("Bogus".to_string(), chord(&["Ctrl"], "B")),
        ("LoadProfile(x)".to_string(), chord(&["Ctrl"], "X")),
        ("LoadProfile(2)".to_string(), chord(&["Ctrl"], "2")),
    ];
    let loaded = deserialize_keybinds(&stored);
    assert_eq!(
        shortcuts(&loaded),
        vec![
            (HotkeyAction::Reset, "Ctrl+R".to_string()),
            (HotkeyAction::LoadProfile(2), "Ctrl+2".to_string()),
        ]
    );
}

#[test]
fn the_later_of_two_entries_for_one_action_counts() {
    let stored = vec![
        ("LoadProfile(1)".to_string(), chord(&["Ctrl"], "A")),
        ("Reset".to_string(), chord(&["Ctrl"], "R")),
        ("LoadProfile(+1)".to_string(), chord(&["Ctrl"], "B")),
    ];
    let loaded = deserialize_keybinds(&stored);
    assert_eq!(loaded.len(), 2);
    assert_eq!(loaded.get(HotkeyAction::LoadProfile(1)).unwrap().key, "B");
}

#[test]
fn chords_that_parse_are_registered_and_the_others_skipped() {
    let mut keybinds = Keybinds::new();
    keybinds.insert(HotkeyAction::IncreaseGamma, chord(&["Ctrl", "Shift"], "F1"));
    keybinds.insert(HotkeyAction::DecreaseGamma, chord(&["Ctrl"], "PLUS"));
    keybinds.insert(HotkeyAction::Reset, chord(&["Alt"], "Numpad5"));
    keybinds.insert(HotkeyAction::LoadProfile(0), chord(&["Ctrl"], ""));
    keybinds.insert(HotkeyAction::IncreaseContrast, chord(&[], "UP"));
    keybinds.insert(HotkeyAction::DecreaseContrast, chord(&["Ctrl", "A"], "B"));
    let plan = registration_plan(&keybinds);
    let register: Vec<(HotkeyAction, &str)> =
        plan.register.iter().map(|r| (r.action, r.shortcut.as_str())).collect();
    let skipped: Vec<(HotkeyAction, &str)> =
        plan.skipped.iter().map(|r| (r.action, r.shortcut.as_str())).collect();
    assert_eq!(
        register,
        vec![
            (HotkeyAction::IncreaseGamma, "Ctrl+Shift+F1"),
            (HotkeyAction::Reset, "Alt+Numpad5"),
            (HotkeyAction::IncreaseContrast, "UP"),
        ]
    );
    assert_eq!(
        skipped,
        vec![
            (HotkeyAction::DecreaseGamma, "Ctrl+PLUS"),
            (HotkeyAction::LoadProfile(0), "Ctrl+"),
            (HotkeyAction::DecreaseContrast, "Ctrl+A+B"),
        ]
    );
}

#[test]
fn the_plan_follows_the_hotkey_parser() {
    for shortcut in ["Ctrl+Shift+F1", "Ctrl+PLUS", "Shift+Ctrl", "F12", "", "Ctrl+MINUS", "Alt+RETURN"] {
        let mut keybinds = Keybinds::new();
        let mut parts: Vec<String> = shortcut.split('+').map(|p| p.to_string()).collect();
        let key = parts.pop().unwrap();
        keybinds.insert(HotkeyAction::Reset, KeybindConfig::new(parts, key));
        let plan = registration_plan(&keybinds);
        let parses = shortcut.parse::<global_hotkey::hotkey::HotKey>().is_ok();
        assert_eq!(plan.register.len(), if parses { 1 } else { 0 }, "{shortcut:?}");
        assert_eq!(plan.skipped.len(), if parses { 0 } else { 1 }, "{shortcut:?}");
    }
}

#[test]
fn an_empty_map_gives_an_empty_plan() {
    let plan = registration_plan(&Keybinds::new());
    assert!(plan.register.is_empty());
    assert!(plan.skipped.is_empty());
}

#[test]
fn noting_a_chord_puts_it_on_one_list() {
    let mut plan = RegistrationPlan::new();
    plan.note(HotkeyAction::Reset, "Ctrl+R".to_string(), true);
    plan.note(HotkeyAction::IncreaseGamma, "Ctrl+PLUS".to_string(), false);
    plan.note(HotkeyAction::DecreaseGamma, "Ctrl+D".to_string(), true);
    assert_eq!(plan.register.len(), 2);
    assert_eq!(plan.register[0].shortcut, "Ctrl+R");
    assert_eq!(plan.register[1].action, HotkeyAction::DecreaseGamma);
    assert_eq!(plan.skipped.len(), 1);
    assert_eq!(plan.skipped[0].shortcut, "Ctrl+PLUS");
}

#[test]
fn an_unbound_action_shows_as_not_set() {
    let mut keybinds = Keybinds::new();
    keybinds.insert(HotkeyAction::Reset, chord(&["Ctrl", "Shift"], "R"));
    assert_eq!(gammar::keymap::binding_label(&keybinds, HotkeyAction::Reset), "Ctrl + Shift + R");
    assert_eq!(gammar::keymap::binding_label(&keybinds, HotkeyAction::IncreaseGamma), "Not set");
}

#[test]
fn a_copy_of_the_map_holds_the_same_bindings() {
    let mut keybinds = Keybinds::new();
    keybinds.insert(HotkeyAction::Reset, chord(&["Ctrl"], "R"));
    keybinds.insert(HotkeyAction::LoadProfile(7), chord(&[], "F7"));
    let mut copy = keybinds.clone();
    assert_eq!(shortcuts(&copy), shortcuts(&keybinds));
    copy.remove(HotkeyAction::Reset);
    assert_eq!(keybinds.len(), 2);
    assert_eq!(Keybinds::default().len(), 0);
}

#[test]
fn the_registry_is_emptied_before_anything_is_registered() {
    let mut keybinds = Keybinds::new();
    keybinds.insert(HotkeyAction::IncreaseGamma, chord(&["Ctrl", "Shift"], "F1"));
    keybinds.insert(HotkeyAction::DecreaseGamma, chord(&["Ctrl"], "PLUS"));
    keybinds.insert(HotkeyAction::Reset, chord(&["Alt"], "F2"));
    let commands = registration_plan(&keybinds).commands();
    assert_eq!(commands.len(), 3);
    assert!(matches!(commands[0], RegistryCommand::UnregisterAll));
    match (&commands[1], &commands[2]) {
        (RegistryCommand::Register(first), RegistryCommand::Register(second)) => {
            assert_eq!((first.action, first.shortcut.as_str()), (HotkeyAction::IncreaseGamma, "Ctrl+Shift+F1"));
            assert_eq!((second.action, second.shortcut.as_str()), (HotkeyAction::Reset, "Alt+F2"));
        }
        other => panic!("{other:?}"),
    }
    let empty = registration_plan(&Keybinds::new()).commands();
    assert_eq!(empty.len(), 1);
    assert!(matches!(empty[0], RegistryCommand::UnregisterAll));
}
