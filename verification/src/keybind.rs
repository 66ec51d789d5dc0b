//! Key chords: the canonical token of a pressed key, and a binding's
//! modifiers and key in the forms shown to the user and handed to the
//! shortcut registry.

use crate::text::{
    alphanumeric_check, begins_with, chars_of, digit_check, is_ascii_alphanumeric, is_digit,
    is_letter, is_white_space, join, joined, letter_check, spells, string_of, texts, to_upper,
    upper,
};
use vstd::prelude::*;
use vstd::slice::slice_subrange;

verus! {

/// A key combination: modifier names in the order they were pressed, and the
/// token of the one key that is no modifier.
#[derive(Debug)]
pub struct KeybindConfig {
    pub modifiers: Vec<String>,
    pub key: String,
}

/// What a binding holds, as character sequences.
pub struct KeybindView {
    pub modifiers: Seq<Seq<char>>,
    pub key: Seq<char>,
}

impl View for KeybindConfig {
    type V = KeybindView;

    open spec fn view(&self) -> KeybindView {
        KeybindView { modifiers: texts(self.modifiers@), key: self.key@ }
    }
}

impl Clone for KeybindConfig {
    fn clone(&self) -> (copy: Self)
        ensures
            copy@ == self@,
    {
        let mut modifiers: Vec<String> = Vec::new();
        let mut i: usize = 0;
        while i < self.modifiers.len()
            invariant
                i <= self.modifiers.len(),
                texts(modifiers@) == texts(self.modifiers@).take(i as int),
            decreases self.modifiers.len() - i,
        {
            let ghost before = modifiers@;
            let name = self.modifiers[i].clone();
            modifiers.push(name);
            assert(texts(modifiers@) =~= texts(before).push(self.modifiers@[i as int]@));
            i += 1;
        }
        assert(texts(self.modifiers@).take(i as int) =~= texts(self.modifiers@));
        KeybindConfig { modifiers, key: self.key.clone() }
    }
}

/// Whether `key` names one of the function keys F1 to F12.
pub open spec fn is_function_key(key: Seq<char>) -> bool {
    ||| key == "F1"@
    ||| key == "F2"@
    ||| key == "F3"@
    ||| key == "F4"@
    ||| key == "F5"@
    ||| key == "F6"@
    ||| key == "F7"@
    ||| key == "F8"@
    ||| key == "F9"@
    ||| key == "F10"@
    ||| key == "F11"@
    ||| key == "F12"@
}

/// The token of a navigation or editing key that is known by name.
pub open spec fn named_key_token(key: Seq<char>) -> Option<Seq<char>> {
    if key == "ArrowUp"@ {
        Some("UP"@)
    } else if key == "ArrowDown"@ {
        Some("DOWN"@)
    } else if key == "ArrowLeft"@ {
        Some("LEFT"@)
    } else if key == "ArrowRight"@ {
        Some("RIGHT"@)
    } else if key == "PageUp"@ {
        Some("PAGEUP"@)
    } else if key == "PageDown"@ {
        Some("PAGEDOWN"@)
    } else if key == "Home"@ {
        Some("HOME"@)
    } else if key == "End"@ {
        Some("END"@)
    } else if key == "Insert"@ {
        Some("INSERT"@)
    } else if key == "Delete"@ {
        Some("DELETE"@)
    } else if key == "Backspace"@ {
        Some("BACKSPACE"@)
    } else if key == "Enter"@ {
        Some("RETURN"@)
    } else if key == "Tab"@ {
        Some("TAB"@)
    } else if key == "Space"@ {
        Some("SPACE"@)
    } else {
        None
    }
}

/// The canonical token of a logical key; the empty sequence for a key that
/// cannot be bound. In order: a function key stands for itself; a named key
/// has its fixed token; a single ASCII letter or digit gives its capital;
/// plus and minus are spelled out.
pub open spec fn normalized_key(key: Seq<char>) -> Seq<char> {
    if is_function_key(key) {
        key
    } else if named_key_token(key) is Some {
        named_key_token(key).unwrap()
    } else if key.len() == 1 && is_ascii_alphanumeric(key[0]) {
        seq![upper(key[0])]
    } else if key == "+"@ {
        "PLUS"@
    } else if key == "-"@ {
        "MINUS"@
    } else {
        Seq::empty()
    }
}

/// The token of a key of the numeric pad, told by its physical code: a digit
/// keeps its code, the five operators have their names. Any other code gives
/// nothing.
pub open spec fn numpad_token(code: Seq<char>) -> Option<Seq<char>> {
    let rest = code.skip("Numpad"@.len() as int);
    if !"Numpad"@.is_prefix_of(code) {
        None
    } else if rest.len() == 1 && is_digit(rest[0]) {
        Some("Numpad"@ + rest)
    } else if rest == "Add"@ {
        Some("NumpadPLUS"@)
    } else if rest == "Subtract"@ {
        Some("NumpadMINUS"@)
    } else if rest == "Multiply"@ {
        Some("NumpadMULTIPLY"@)
    } else if rest == "Divide"@ {
        Some("NumpadDIVIDE"@)
    } else if rest == "Decimal"@ {
        Some("NumpadDECIMAL"@)
    } else {
        None
    }
}

/// Whether `code` is the physical code of a key of the digit row: the word
/// `Digit` and one ASCII digit.
pub open spec fn is_digit_code(code: Seq<char>) -> bool {
    "Digit"@.is_prefix_of(code) && code.len() == "Digit"@.len() + 1 && is_digit(code.last())
}

/// Whether `code` is the physical code of a letter key: the word `Key` and
/// one ASCII letter.
pub open spec fn is_letter_code(code: Seq<char>) -> bool {
    "Key"@.is_prefix_of(code) && code.len() == "Key"@.len() + 1 && is_letter(code.last())
}

/// The canonical token of a key press, from its logical key and its physical
/// code; the empty sequence for a press that cannot be bound. The first rule
/// that applies decides: a numeric-pad code gives its pad token; a digit-row
/// code gives its digit, whatever the logical key says; a letter code gives
/// the capital of its letter. Every other code leaves the decision to the
/// logical key.
pub open spec fn normalized_chord_key(key: Seq<char>, code: Seq<char>) -> Seq<char> {
    if numpad_token(code) is Some {
        numpad_token(code).unwrap()
    } else if is_digit_code(code) {
        seq![code.last()]
    } else if is_letter_code(code) {
        seq![upper(code.last())]
    } else {
        normalized_key(key)
    }
}

/// Whether `token` is the token of a named navigation or editing key.
pub open spec fn is_named_token(token: Seq<char>) -> bool {
    ||| token == "UP"@
    ||| token == "DOWN"@
    ||| token == "LEFT"@
    ||| token == "RIGHT"@
    ||| token == "PAGEUP"@
    ||| token == "PAGEDOWN"@
    ||| token == "HOME"@
    ||| token == "END"@
    ||| token == "INSERT"@
    ||| token == "DELETE"@
    ||| token == "BACKSPACE"@
    ||| token == "RETURN"@
    ||| token == "TAB"@
    ||| token == "SPACE"@
}

/// Whether `token` is the token of a key of the numeric pad.
pub open spec fn is_numpad_token(token: Seq<char>) -> bool {
    ||| "Numpad"@.is_prefix_of(token) && token.len() == "Numpad"@.len() + 1 && is_digit(
        token.last(),
    )
    ||| token == "NumpadPLUS"@
    ||| token == "NumpadMINUS"@
    ||| token == "NumpadMULTIPLY"@
    ||| token == "NumpadDIVIDE"@
    ||| token == "NumpadDECIMAL"@
}

/// Whether `token` is a canonical key token: a function key F1 to F12, the
/// token of a named key, `PLUS` or `MINUS`, one ASCII digit, one ASCII capital
/// letter, or a numeric-pad token. The empty sequence is no token.
pub open spec fn is_key_token(token: Seq<char>) -> bool {
    ||| is_function_key(token)
    ||| is_named_token(token)
    ||| token == "PLUS"@
    ||| token == "MINUS"@
    ||| token.len() == 1 && (is_digit(token[0]) || 'A' <= token[0] <= 'Z')
    ||| is_numpad_token(token)
}

/// What the logical key alone gives is empty or a canonical key token.
pub proof fn lemma_normalized_key_is_token(key: Seq<char>)
    ensures
        normalized_key(key).len() == 0 || is_key_token(normalized_key(key)),
{
    let token = normalized_key(key);
    if !is_function_key(key) && named_key_token(key) is None && key.len() == 1
        && is_ascii_alphanumeric(key[0]) {
        assert(token[0] == upper(key[0]));
    }
}

/// What a key press gives is empty or a canonical key token, whatever the
/// logical key and the physical code are.
pub proof fn lemma_chord_key_is_token(key: Seq<char>, code: Seq<char>)
    ensures
        normalized_chord_key(key, code).len() == 0 || is_key_token(normalized_chord_key(key, code)),
{
    let token = normalized_chord_key(key, code);
    if numpad_token(code) is Some {
        let rest = code.skip("Numpad"@.len() as int);
        if rest.len() == 1 && is_digit(rest[0]) {
            assert(token =~= "Numpad"@ + rest);
            assert("Numpad"@ =~= token.subrange(0, "Numpad"@.len() as int));
            assert(token.last() == rest[0]);
        }
        assert(is_numpad_token(token));
    } else if is_digit_code(code) {
        assert(token[0] == code.last());
    } else if is_letter_code(code) {
        assert(token[0] == upper(code.last()));
    } else {
        lemma_normalized_key_is_token(key);
    }
}

/// A canonical key token is not empty and is made of ASCII letters and
/// digits only: it holds no plus sign and no white space, so it can stand in
/// a chord whose parts are joined by plus signs.
pub proof fn lemma_token_is_plain(token: Seq<char>)
    requires
        is_key_token(token),
    ensures
        token.len() > 0,
        forall|i: int| 0 <= i < token.len() ==> is_ascii_alphanumeric(#[trigger] token[i]),
        forall|i: int| 0 <= i < token.len() ==> token[i] != '+' && !is_white_space(#[trigger] token[i]),
{
    reveal_strlit("F1");
    reveal_strlit("F2");
    reveal_strlit("F3");
    reveal_strlit("F4");
    reveal_strlit("F5");
    reveal_strlit("F6");
    reveal_strlit("F7");
    reveal_strlit("F8");
    reveal_strlit("F9");
    reveal_strlit("F10");
    reveal_strlit("F11");
    reveal_strlit("F12");
    reveal_strlit("UP");
    reveal_strlit("DOWN");
    reveal_strlit("LEFT");
    reveal_strlit("RIGHT");
    reveal_strlit("PAGEUP");
    reveal_strlit("PAGEDOWN");
    reveal_strlit("HOME");
    reveal_strlit("END");
    reveal_strlit("INSERT");
    reveal_strlit("DELETE");
    reveal_strlit("BACKSPACE");
    reveal_strlit("RETURN");
    reveal_strlit("TAB");
    reveal_strlit("SPACE");
    reveal_strlit("PLUS");
    reveal_strlit("MINUS");
    reveal_strlit("Numpad");
    reveal_strlit("NumpadPLUS");
    reveal_strlit("NumpadMINUS");
    reveal_strlit("NumpadMULTIPLY");
    reveal_strlit("NumpadDIVIDE");
    reveal_strlit("NumpadDECIMAL");
    assert forall|i: int| 0 <= i < token.len() implies is_ascii_alphanumeric(
        #[trigger] token[i],
    ) by {
        if "Numpad"@.is_prefix_of(token) && token.len() == 7 && i < 6 {
            assert(token[i] == token.subrange(0, 6)[i]);
        }
    }
}

/// What a key press gives holds no plus sign and no white space.
pub proof fn lemma_chord_key_has_no_separator(key: Seq<char>, code: Seq<char>)
    ensures
        forall|i: int|
            0 <= i < normalized_chord_key(key, code).len() ==> {
                let c = #[trigger] normalized_chord_key(key, code)[i];
                c != '+' && !is_white_space(c)
            },
{
    lemma_chord_key_is_token(key, code);
    if normalized_chord_key(key, code).len() > 0 {
        lemma_token_is_plain(normalized_chord_key(key, code));
    }
}

/// Whether `name` is the name of one of the four modifiers.
pub open spec fn is_modifier_name(name: Seq<char>) -> bool {
    name == "Ctrl"@ || name == "Shift"@ || name == "Alt"@ || name == "Win"@
}

/// Whether a binding is as a recording leaves it: for key a canonical key
/// token, and for modifiers the names of the four modifiers, none of them
/// twice. A binding that was built or loaded by other means need not be so.
pub open spec fn canonical(bind: KeybindView) -> bool {
    &&& is_key_token(bind.key)
    &&& bind.modifiers.no_duplicates()
    &&& forall|i: int| 0 <= i < bind.modifiers.len() ==> is_modifier_name(#[trigger] bind.modifiers[i])
}

/// The chord as the shortcut registry reads it: modifiers and key joined by
/// plus signs.
pub open spec fn shortcut_text(bind: KeybindView) -> Seq<char> {
    joined(bind.modifiers.push(bind.key), "+"@)
}

/// The chord as shown to the user: modifiers and key joined by a spaced plus
/// sign, or the key alone where the modifiers write out to nothing.
pub open spec fn display_text(bind: KeybindView) -> Seq<char> {
    let mods = joined(bind.modifiers, " + "@);
    if mods.len() == 0 {
        bind.key
    } else {
        mods + " + "@ + bind.key
    }
}

fn function_key_check(key: &[char]) -> (yes: bool)
    ensures
        yes == is_function_key(key@),
{
    spells(key, "F1") || spells(key, "F2") || spells(key, "F3") || spells(key, "F4")
        || spells(key, "F5") || spells(key, "F6") || spells(key, "F7") || spells(key, "F8")
        || spells(key, "F9") || spells(key, "F10") || spells(key, "F11") || spells(key, "F12")
}

fn named_key(key: &[char]) -> (token: Option<&'static str>)
    ensures
        token is Some == named_key_token(key@) is Some,
        token is Some ==> token.unwrap()@ == named_key_token(key@).unwrap(),
{
    if spells(key, "ArrowUp") {
        Some("UP")
    } else if spells(key, "ArrowDown") {
        Some("DOWN")
    } else if spells(key, "ArrowLeft") {
        Some("LEFT")
    } else if spells(key, "ArrowRight") {
        Some("RIGHT")
    } else if spells(key, "PageUp") {
        Some("PAGEUP")
    } else if spells(key, "PageDown") {
        Some("PAGEDOWN")
    } else if spells(key, "Home") {
        Some("HOME")
    } else if spells(key, "End") {
        Some("END")
    } else if spells(key, "Insert") {
        Some("INSERT")
    } else if spells(key, "Delete") {
        Some("DELETE")
    } else if spells(key, "Backspace") {
        Some("BACKSPACE")
    } else if spells(key, "Enter") {
        Some("RETURN")
    } else if spells(key, "Tab") {
        Some("TAB")
    } else if spells(key, "Space") {
        Some("SPACE")
    } else {
        None
    }
}

fn normalize_key_chars(key: &[char]) -> (token: String)
    ensures
        token@ == normalized_key(key@),
{
    if function_key_check(key) {
        return string_of(key);
    }
    if let Some(token) = named_key(key) {
        return token.to_string();
    }
    if key.len() == 1 && alphanumeric_check(key[0]) {
        let mut token = String::new();
        token.push(to_upper(key[0]));
        return token;
    }
    if spells(key, "+") {
        "PLUS".to_string()
    } else if spells(key, "-") {
        "MINUS".to_string()
    } else {
        String::new()
    }
}

fn numpad_key(code: &[char]) -> (token: Option<String>)
    ensures
        token is Some == numpad_token(code@) is Some,
        token is Some ==> token.unwrap()@ == numpad_token(code@).unwrap(),
{
    proof {
        reveal_strlit("Numpad");
    }
    if !begins_with(code, "Numpad") {
        return None;
    }
    let rest = slice_subrange(code, 6, code.len());
    if rest.len() == 1 && digit_check(rest[0]) {
        let mut token = "Numpad".to_string();
        token.push(rest[0]);
        Some(token)
    } else if spells(rest, "Add") {
        Some("NumpadPLUS".to_string())
    } else if spells(rest, "Subtract") {
        Some("NumpadMINUS".to_string())
    } else if spells(rest, "Multiply") {
        Some("NumpadMULTIPLY".to_string())
    } else if spells(rest, "Divide") {
        Some("NumpadDIVIDE".to_string())
    } else if spells(rest, "Decimal") {
        Some("NumpadDECIMAL".to_string())
    } else {
        None
    }
}

impl KeybindConfig {
    /// The chord of these modifiers and this key, taken as they are.
    pub fn new(modifiers: Vec<String>, key: String) -> (bind: Self)
        ensures
            bind.modifiers == modifiers,
            bind.key == key,
    {
        Self { modifiers, key }
    }

    /// The chord in the form the shortcut registry reads, such as
    /// `Ctrl+Shift+F1`.
    pub fn to_shortcut_string(&self) -> (line: String)
        ensures
            line@ == shortcut_text(self@),
    {
        let mut line = join(self.modifiers.as_slice(), "+");
        if self.modifiers.len() > 0 {
            line.append("+");
        }
        line.append(self.key.as_str());
        assert(self@.modifiers.push(self@.key).drop_last() =~= self@.modifiers);
        line
    }

    /// The chord in the form shown to the user, such as `Ctrl + Shift + F1`.
    pub fn format(&self) -> (line: String)
        ensures
            line@ == display_text(self@),
    {
        let mods = join(self.modifiers.as_slice(), " + ");
        if mods.as_str().is_empty() {
            return self.key.clone();
        }
        mods.concat(" + ").concat(self.key.as_str())
    }

    /// The canonical token of a logical key, or the empty string for a key
    /// that cannot be bound.
    pub fn normalize_key(key: &str) -> (token: String)
        ensures
            token@ == normalized_key(key@),
    {
        let chars = chars_of(key);
        normalize_key_chars(chars.as_slice())
    }

    /// The canonical token of a key press, or the empty string for a key that
    /// cannot be bound. The physical code decides for the numeric pad, the
    /// digit row and the letters; the logical key decides for every other
    /// code.
    pub fn normalize_key_with_code(key: &str, code: &str) -> (token: String)
        ensures
            token@ == normalized_chord_key(key@, code@),
    {
        let code_chars = chars_of(code);
        let code_chars = code_chars.as_slice();
        if let Some(token) = numpad_key(code_chars) {
            return token;
        }
        proof {
            reveal_strlit("Digit");
            reveal_strlit("Key");
        }
        if begins_with(code_chars, "Digit") && code_chars.len() == 6 && digit_check(code_chars[5]) {
            let mut token = String::new();
            token.push(code_chars[5]);
            return token;
        }
        if begins_with(code_chars, "Key") && code_chars.len() == 4 && letter_check(code_chars[3]) {
            let mut token = String::new();
            token.push(to_upper(code_chars[3]));
            return token;
        }
        Self::normalize_key(key)
    }
}

/// Format a binding for display.
pub fn format_keybind(keybind: &KeybindConfig) -> (line: String)
    ensures
        line@ == display_text(keybind@),
{
    keybind.format()
}

} // verus!
