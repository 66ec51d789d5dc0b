use gammar::keybind::{format_keybind, KeybindConfig};

fn chord(modifiers: &[&str], key: &str) -> KeybindConfig {
    KeybindConfig::new(modifiers.iter().map(|m| m.to_string()).collect(), key.to_string())
}

#[test]
fn digit_row_uses_the_physical_digit() {
    assert_eq!(KeybindConfig::normalize_key_with_code("1", "Digit1"), "1");
}

#[test]
fn physical_digit_wins_over_the_shifted_symbol() {
    assert_eq!(KeybindConfig::normalize_key_with_code("!", "Digit1"), "1");
    assert_eq!(KeybindConfig::normalize_key_with_code("@", "Digit2"), "2");
    assert_eq!(KeybindConfig::normalize_key_with_code(")", "Digit0"), "0");
}

#[test]
fn letter_code_gives_the_capital() {
    assert_eq!(KeybindConfig::normalize_key_with_code("a", "KeyA"), "A");
    assert_eq!(KeybindConfig::normalize_key_with_code("A", "KeyA"), "A");
    assert_eq!(KeybindConfig::normalize_key_with_code("q", "Keyq"), "Q");
    assert_eq!(KeybindConfig::normalize_key_with_code("!", "Keyz"), "Z");
    assert_eq!(KeybindConfig::normalize_key_with_code("\u{444}", "KeyA"), "A");
}

#[test]
fn numpad_digit_keeps_its_code() {
    assert_eq!(KeybindConfig::normalize_key_with_code("5", "Numpad5"), "Numpad5");
    assert_eq!(KeybindConfig::normalize_key_with_code("End", "Numpad1"), "Numpad1");
    for digit in 0..10 {
        let code = format!("Numpad{digit}");
        assert_eq!(KeybindConfig::normalize_key_with_code("x", &code), code);
    }
}

#[test]
fn numpad_operators_have_their_names() {
    assert_eq!(KeybindConfig::normalize_key_with_code("+", "NumpadAdd"), "NumpadPLUS");
    assert_eq!(KeybindConfig::normalize_key_with_code("-", "NumpadSubtract"), "NumpadMINUS");
    assert_eq!(KeybindConfig::normalize_key_with_code("*", "NumpadMultiply"), "NumpadMULTIPLY");
    assert_eq!(KeybindConfig::normalize_key_with_code("/", "NumpadDivide"), "NumpadDIVIDE");
    assert_eq!(KeybindConfig::normalize_key_with_code(".", "NumpadDecimal"), "NumpadDECIMAL");
}

#[test]
fn other_numpad_codes_fall_back_to_the_logical_key() {
    assert_eq!(KeybindConfig::normalize_key_with_code("Enter", "NumpadEnter"), "RETURN");
    assert_eq!(KeybindConfig::normalize_key_with_code("=", "NumpadEqual"), "");
    assert_eq!(KeybindConfig::normalize_key_with_code("5", "Numpad55"), "5");
    assert_eq!(KeybindConfig::normalize_key_with_code("a", "Numpad"), "A");
}

#[test]
fn arrow_up_is_up() {
    assert_eq!(KeybindConfig::normalize_key_with_code("ArrowUp", "ArrowUp"), "UP");
}

#[test]
fn unknown_symbol_is_not_bindable() {
    assert_eq!(KeybindConfig::normalize_key_with_code("@", "Unknown"), "");
}

#[test]
fn a_digit_code_is_the_word_digit_and_one_digit() {
    for digit in 0..10 {
        let code = format!("Digit{digit}");
        assert_eq!(KeybindConfig::normalize_key_with_code("x", &code), digit.to_string());
    }
    assert_eq!(KeybindConfig::normalize_key_with_code("a", "Digit"), "A");
    assert_eq!(KeybindConfig::normalize_key_with_code("x", "Digit12"), "X");
    assert_eq!(KeybindConfig::normalize_key_with_code("x", "DigitAB"), "X");
    assert_eq!(KeybindConfig::normalize_key_with_code("@", "DigitA"), "");
    assert_eq!(KeybindConfig::normalize_key_with_code("F3", "Digit\u{e9}"), "F3");
    assert_eq!(KeybindConfig::normalize_key_with_code("Tab", "Digit\u{661}"), "TAB");
    assert_eq!(KeybindConfig::normalize_key_with_code("x", "digit1"), "X");
}

#[test]
fn a_letter_code_is_the_word_key_and_one_letter() {
    for c in ('a'..='z').chain('A'..='Z') {
        let code = format!("Key{c}");
        assert_eq!(
            KeybindConfig::normalize_key_with_code("F1", &code),
            c.to_ascii_uppercase().to_string()
        );
    }
    assert_eq!(KeybindConfig::normalize_key_with_code("F1", "Key"), "F1");
    assert_eq!(KeybindConfig::normalize_key_with_code("F1", "KeyAB"), "F1");
    assert_eq!(KeybindConfig::normalize_key_with_code("F1", "Key\u{e9}"), "F1");
    assert_eq!(KeybindConfig::normalize_key_with_code("F1", "Key1"), "F1");
    assert_eq!(KeybindConfig::normalize_key_with_code("@", "Key+"), "");
    assert_eq!(KeybindConfig::normalize_key_with_code("-", "Key "), "MINUS");
    assert_eq!(KeybindConfig::normalize_key_with_code("F1", "keyA"), "F1");
}

fn is_token(token: &str) -> bool {
    let named = [
        "UP", "DOWN", "LEFT", "RIGHT", "PAGEUP", "PAGEDOWN", "HOME", "END", "INSERT", "DELETE",
        "BACKSPACE", "RETURN", "TAB", "SPACE", "PLUS", "MINUS", "NumpadPLUS", "NumpadMINUS",
        "NumpadMULTIPLY", "NumpadDIVIDE", "NumpadDECIMAL",
    ];
    let single = token.len() == 1
        && token.chars().all(|c| c.is_ascii_digit() || c.is_ascii_uppercase());
    let function = (1..=12).any(|n| token == format!("F{n}"));
    let numpad = (0..10).any(|n| token == format!("Numpad{n}"));
    named.contains(&token) || single || function || numpad
}

#[test]
fn every_result_is_empty_or_a_canonical_token() {
    let keys = [
        "", " ", "+", "-", "@", "!", "a", "Z", "7", "ab", "F1", "F12", "F13", "Enter", "Tab",
        "Space", "ArrowUp", "Escape", "Control", "\u{e9}", "\t", "a+b", "A B",
    ];
    let codes = [
        "", "Unknown", "Key", "KeyA", "Keyz", "Key+", "Key ", "Key1", "KeyAB", "Key\u{e9}",
        "Digit", "Digit0", "Digit9", "Digit+", "Digit ", "DigitA", "Digit12", "Numpad",
        "Numpad5", "Numpad+", "Numpad55", "NumpadAdd", "NumpadSubtract", "NumpadMultiply",
        "NumpadDivide", "NumpadDecimal", "NumpadEnter", "Numpad ", "Space", "+", " ",
    ];
    for key in keys {
        for code in codes {
            let token = KeybindConfig::normalize_key_with_code(key, code);
            assert!(token.is_empty() || is_token(&token), "{key:?} {code:?} {token:?}");
            assert!(!token.contains('+'), "{key:?} {code:?}");
            assert!(!token.chars().any(char::is_whitespace), "{key:?} {code:?}");
        }
        let token = KeybindConfig::normalize_key(key);
        assert!(token.is_empty() || is_token(&token), "{key:?} {token:?}");
    }
}

#[test]
fn function_keys_pass_through() {
    for n in 1..=12 {
        let key = format!("F{n}");
        assert_eq!(KeybindConfig::normalize_key(&key), key);
    }
    assert_eq!(KeybindConfig::normalize_key("F13"), "");
    assert_eq!(KeybindConfig::normalize_key("F0"), "");
    assert_eq!(KeybindConfig::normalize_key("f1"), "");
}

#[test]
fn named_keys_have_fixed_tokens() {
    for (key, token) in [
        ("ArrowUp", "UP"),
        ("ArrowDown", "DOWN"),
        ("ArrowLeft", "LEFT"),
        ("ArrowRight", "RIGHT"),
        ("PageUp", "PAGEUP"),
        ("PageDown", "PAGEDOWN"),
        ("Home", "HOME"),
        ("End", "END"),
        ("Insert", "INSERT"),
        ("Delete", "DELETE"),
        ("Backspace", "BACKSPACE"),
        ("Enter", "RETURN"),
        ("Tab", "TAB"),
        ("Space", "SPACE"),
    ] {
        assert_eq!(KeybindConfig::normalize_key(key), token);
    }
}

#[test]
fn single_letters_and_digits_are_capitalised() {
    for c in ('a'..='z').chain('A'..='Z').chain('0'..='9') {
        let key = c.to_string();
        assert_eq!(KeybindConfig::normalize_key(&key), key.to_uppercase());
    }
}

#[test]
fn plus_and_minus_are_spelled_out() {
    assert_eq!(KeybindConfig::normalize_key("+"), "PLUS");
    assert_eq!(KeybindConfig::normalize_key("-"), "MINUS");
}

#[test]
fn other_keys_are_not_bindable() {
    for key in ["", " ", "@", "!", "ab", "Escape", "Control", "arrowup", "\u{e9}", "\u{df}", "\u{661}"] {
        assert_eq!(KeybindConfig::normalize_key(key), "", "{key:?}");
    }
}

#[test]
fn new_keeps_what_it_is_given() {
    let bind = chord(&["Ctrl", "Shift"], "F1");
    assert_eq!(bind.modifiers, vec!["Ctrl".to_string(), "Shift".to_string()]);
    assert_eq!(bind.key, "F1");
}

#[test]
fn shortcut_string_joins_with_plus() {
    assert_eq!(chord(&["Ctrl", "Shift"], "F1").to_shortcut_string(), "Ctrl+Shift+F1");
    assert_eq!(chord(&["Alt"], "A").to_shortcut_string(), "Alt+A");
    assert_eq!(chord(&[], "F5").to_shortcut_string(), "F5");
    assert_eq!(chord(&[""], "F5").to_shortcut_string(), "+F5");
    assert_eq!(chord(&["Ctrl"], "").to_shortcut_string(), "Ctrl+");
}

#[test]
fn display_form_joins_with_spaced_plus() {
    assert_eq!(chord(&["Ctrl", "Shift"], "F1").format(), "Ctrl + Shift + F1");
    assert_eq!(chord(&["Win"], "UP").format(), "Win + UP");
    assert_eq!(chord(&[], "F5").format(), "F5");
    assert_eq!(format_keybind(&chord(&["Ctrl", "Alt", "Win"], "Numpad5")), "Ctrl + Alt + Win + Numpad5");
}

#[test]
fn modifiers_that_write_out_to_nothing_show_the_key_alone() {
    assert_eq!(chord(&[""], "F5").format(), "F5");
    assert_eq!(chord(&["", ""], "F5").format(), " +  + F5");
}

#[test]
fn clone_keeps_the_chord() {
    let bind = chord(&["Ctrl", "Shift"], "F1");
    let copy = bind.clone();
    assert_eq!(copy.modifiers, bind.modifiers);
    assert_eq!(copy.key, bind.key);
}
