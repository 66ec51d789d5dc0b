//! The actions that a global shortcut can trigger, their labels, and the
//! text form under which a binding's action is stored.

use crate::text::{
    begins_with, chars_of, decimal, decimal_string, lemma_decimal_digits, lemma_parse_decimal,
    parse_index, parsed_index, spells,
};
use vstd::prelude::*;
use vstd::slice::slice_subrange;

verus! {

/// What a shortcut does to the calibration when it is pressed.
#[derive(Debug, Clone, Copy, PartialEq, Eq, Hash, Structural)]
pub enum HotkeyAction {
    IncreaseGamma,
    DecreaseGamma,
    IncreaseBrightness,
    DecreaseBrightness,
    IncreaseContrast,
    DecreaseContrast,
    Reset,
    /// Load the profile at this position of the profile list. The position is
    /// not checked here: it may point past the end of the list.
    LoadProfile(usize),
}

impl HotkeyAction {
    /// The label shown to the user. Profiles are counted from one.
    pub open spec fn label(self) -> Seq<char> {
        match self {
            HotkeyAction::IncreaseGamma => "Increase gamma"@,
            HotkeyAction::DecreaseGamma => "Decrease gamma"@,
            HotkeyAction::IncreaseBrightness => "Increase brightness"@,
            HotkeyAction::DecreaseBrightness => "Decrease brightness"@,
            HotkeyAction::IncreaseContrast => "Increase contrast"@,
            HotkeyAction::DecreaseContrast => "Decrease contrast"@,
            HotkeyAction::Reset => "Reset to default"@,
            HotkeyAction::LoadProfile(index) => "Load profile "@ + decimal((index + 1) as nat),
        }
    }

    /// The text under which the action is stored: the variant's name, and for
    /// a profile its index in decimal between round brackets.
    pub open spec fn encoded(self) -> Seq<char> {
        match self {
            HotkeyAction::IncreaseGamma => "IncreaseGamma"@,
            HotkeyAction::DecreaseGamma => "DecreaseGamma"@,
            HotkeyAction::IncreaseBrightness => "IncreaseBrightness"@,
            HotkeyAction::DecreaseBrightness => "DecreaseBrightness"@,
            HotkeyAction::IncreaseContrast => "IncreaseContrast"@,
            HotkeyAction::DecreaseContrast => "DecreaseContrast"@,
            HotkeyAction::Reset => "Reset"@,
            HotkeyAction::LoadProfile(index) => "LoadProfile("@ + decimal(index as nat) + ")"@,
        }
    }

    /// Format the action as a user-friendly label.
    pub fn format(&self) -> (label: String)
        ensures
            label@ == self.label(),
    {
        match self {
            HotkeyAction::IncreaseGamma => "Increase gamma".to_string(),
            HotkeyAction::DecreaseGamma => "Decrease gamma".to_string(),
            HotkeyAction::IncreaseBrightness => "Increase brightness".to_string(),
            HotkeyAction::DecreaseBrightness => "Decrease brightness".to_string(),
            HotkeyAction::IncreaseContrast => "Increase contrast".to_string(),
            HotkeyAction::DecreaseContrast => "Decrease contrast".to_string(),
            HotkeyAction::Reset => "Reset to default".to_string(),
            HotkeyAction::LoadProfile(index) => {
                let number = decimal_string(*index as u128 + 1);
                "Load profile ".to_string().concat(number.as_str())
            },
        }
    }
}

/// Whether `s` has the shape of a stored profile action: the opening word,
/// something, and a closing round bracket.
pub open spec fn is_profile_form(s: Seq<char>) -> bool {
    "LoadProfile("@.is_prefix_of(s) && s.len() > "LoadProfile("@.len() && s.last() == ')'
}

/// What stands between the opening word and the closing bracket.
pub open spec fn profile_digits(s: Seq<char>) -> Seq<char> {
    s.subrange("LoadProfile("@.len() as int, s.len() - 1)
}

/// The action that a stored text denotes, if it denotes one. A variant's name
/// denotes that variant. The profile form denotes a profile action when what
/// stands between the brackets reads as an index.
pub open spec fn decoded(s: Seq<char>) -> Option<HotkeyAction> {
    if s == "IncreaseGamma"@ {
        Some(HotkeyAction::IncreaseGamma)
    } else if s == "DecreaseGamma"@ {
        Some(HotkeyAction::DecreaseGamma)
    } else if s == "IncreaseBrightness"@ {
        Some(HotkeyAction::IncreaseBrightness)
    } else if s == "DecreaseBrightness"@ {
        Some(HotkeyAction::DecreaseBrightness)
    } else if s == "IncreaseContrast"@ {
        Some(HotkeyAction::IncreaseContrast)
    } else if s == "DecreaseContrast"@ {
        Some(HotkeyAction::DecreaseContrast)
    } else if s == "Reset"@ {
        Some(HotkeyAction::Reset)
    } else if is_profile_form(s) {
        match parsed_index(profile_digits(s)) {
            Some(index) => Some(HotkeyAction::LoadProfile(index)),
            None => None,
        }
    } else {
        None
    }
}

/// Convert an action to the text under which it is stored.
pub fn action_to_string(action: &HotkeyAction) -> (text: String)
    ensures
        text@ == action.encoded(),
{
    match action {
        HotkeyAction::IncreaseGamma => "IncreaseGamma".to_string(),
        HotkeyAction::DecreaseGamma => "DecreaseGamma".to_string(),
        HotkeyAction::IncreaseBrightness => "IncreaseBrightness".to_string(),
        HotkeyAction::DecreaseBrightness => "DecreaseBrightness".to_string(),
        HotkeyAction::IncreaseContrast => "IncreaseContrast".to_string(),
        HotkeyAction::DecreaseContrast => "DecreaseContrast".to_string(),
        HotkeyAction::Reset => "Reset".to_string(),
        HotkeyAction::LoadProfile(index) => {
            let number = decimal_string(*index as u128);
            "LoadProfile(".to_string().concat(number.as_str()).concat(")")
        },
    }
}

/// Convert a stored text back to its action. A text that denotes no action
/// gives `None`.
pub fn string_to_action(s: &str) -> (action: Option<HotkeyAction>)
    ensures
        action == decoded(s@),
{
    let chars = chars_of(s);
    let chars = chars.as_slice();
    if spells(chars, "IncreaseGamma") {
        Some(HotkeyAction::IncreaseGamma)
    } else if spells(chars, "DecreaseGamma") {
        Some(HotkeyAction::DecreaseGamma)
    } else if spells(chars, "IncreaseBrightness") {
        Some(HotkeyAction::IncreaseBrightness)
    } else if spells(chars, "DecreaseBrightness") {
        Some(HotkeyAction::DecreaseBrightness)
    } else if spells(chars, "IncreaseContrast") {
        Some(HotkeyAction::IncreaseContrast)
    } else if spells(chars, "DecreaseContrast") {
        Some(HotkeyAction::DecreaseContrast)
    } else if spells(chars, "Reset") {
        Some(HotkeyAction::Reset)
    } else {
        proof {
            reveal_strlit("LoadProfile(");
        }
        if begins_with(chars, "LoadProfile(") && chars.len() > 12 && chars[chars.len() - 1] == ')' {
            match parse_index(slice_subrange(chars, 12, chars.len() - 1)) {
                Some(index) => Some(HotkeyAction::LoadProfile(index)),
                None => None,
            }
        } else {
            None
        }
    }
}

/// Format an action as a user-friendly label.
pub fn format_action(action: HotkeyAction) -> (label: String)
    ensures
        label@ == action.label(),
{
    action.format()
}

/// The actions that need no profile, in the order in which they are listed.
pub open spec fn fixed_action_list() -> Seq<HotkeyAction> {
    seq![
        HotkeyAction::IncreaseGamma,
        HotkeyAction::DecreaseGamma,
        HotkeyAction::IncreaseBrightness,
        HotkeyAction::DecreaseBrightness,
        HotkeyAction::IncreaseContrast,
        HotkeyAction::DecreaseContrast,
        HotkeyAction::Reset,
    ]
}

/// The profile actions for a list of `count` profiles, one for each index.
pub open spec fn profile_action_list(count: nat) -> Seq<HotkeyAction> {
    Seq::new(count, |i: int| HotkeyAction::LoadProfile(i as usize))
}

/// The actions that can be bound whatever profiles there are.
pub fn fixed_actions() -> (actions: [HotkeyAction; 7])
    ensures
        actions@ == fixed_action_list(),
{
    let actions = [
        HotkeyAction::IncreaseGamma,
        HotkeyAction::DecreaseGamma,
        HotkeyAction::IncreaseBrightness,
        HotkeyAction::DecreaseBrightness,
        HotkeyAction::IncreaseContrast,
        HotkeyAction::DecreaseContrast,
        HotkeyAction::Reset,
    ];
    actions
}

/// The actions that load one of `count` profiles, by rising index.
pub fn profile_actions(count: usize) -> (actions: Vec<HotkeyAction>)
    ensures
        actions@ == profile_action_list(count as nat),
{
    let mut actions: Vec<HotkeyAction> = Vec::new();
    let mut index: usize = 0;
    while index < count
        invariant
            index <= count,
            actions@ == profile_action_list(index as nat),
        decreases count - index,
    {
        actions.push(HotkeyAction::LoadProfile(index));
        index += 1;
    }
    actions
}

/// Storing an action and reading it back gives the same action, for every
/// variant and every profile index.
pub proof fn lemma_action_round_trip(action: HotkeyAction)
    ensures
        decoded(action.encoded()) == Some(action),
{
    reveal_strlit("IncreaseGamma");
    reveal_strlit("DecreaseGamma");
    reveal_strlit("IncreaseBrightness");
    reveal_strlit("DecreaseBrightness");
    reveal_strlit("IncreaseContrast");
    reveal_strlit("DecreaseContrast");
    reveal_strlit("Reset");
    reveal_strlit("LoadProfile(");
    reveal_strlit(")");
    match action {
        HotkeyAction::LoadProfile(index) => {
            let digits = decimal(index as nat);
            let s = action.encoded();
            lemma_decimal_digits(index as nat);
            lemma_parse_decimal(index);
            // No variant's name ends in a closing bracket.
            assert(s.last() == ')');
            assert("IncreaseGamma"@.last() != ')');
            assert("DecreaseGamma"@.last() != ')');
            assert("IncreaseBrightness"@.last() != ')');
            assert("DecreaseBrightness"@.last() != ')');
            assert("IncreaseContrast"@.last() != ')');
            assert("DecreaseContrast"@.last() != ')');
            assert("Reset"@.last() != ')');
            assert("LoadProfile("@ =~= s.subrange(0, 12));
            assert(profile_digits(s) =~= digits);
        },
        HotkeyAction::IncreaseGamma => {},
        HotkeyAction::DecreaseGamma => {
            assert("DecreaseGamma"@[0] != "IncreaseGamma"@[0]);
        },
        HotkeyAction::IncreaseBrightness => {},
        HotkeyAction::DecreaseBrightness => {
            assert("DecreaseBrightness"@[0] != "IncreaseBrightness"@[0]);
        },
        HotkeyAction::IncreaseContrast => {},
        HotkeyAction::DecreaseContrast => {
            assert("DecreaseContrast"@[0] != "IncreaseContrast"@[0]);
        },
        HotkeyAction::Reset => {},
    }
}

/// A text that denotes an action is the stored form of no other action: two
/// actions with the same stored form are the same action.
pub proof fn lemma_encoding_injective(a: HotkeyAction, b: HotkeyAction)
    requires
        a.encoded() == b.encoded(),
    ensures
        a == b,
{
    lemma_action_round_trip(a);
    lemma_action_round_trip(b);
}

} // verus!
