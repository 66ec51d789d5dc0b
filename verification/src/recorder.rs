//! Recording a new shortcut: a session collects the modifiers that are held
//! and ends with the first key that can be bound, or with Escape.

use crate::hotkeys::HotkeyAction;
use crate::keybind::{
    canonical, lemma_chord_key_is_token, normalized_chord_key, KeybindConfig, KeybindView,
};
use crate::text::{chars_of, spells, texts};
use vstd::prelude::*;
use vstd::slice::slice_to_vec;

verus! {

/// A modifier key of a chord.
#[derive(Debug, Clone, Copy, PartialEq, Eq, Hash, Structural)]
pub enum Modifier {
    Ctrl,
    Shift,
    Alt,
    Win,
}

impl Modifier {
    /// The name under which the modifier stands in a binding.
    pub open spec fn name(self) -> Seq<char> {
        match self {
            Modifier::Ctrl => "Ctrl"@,
            Modifier::Shift => "Shift"@,
            Modifier::Alt => "Alt"@,
            Modifier::Win => "Win"@,
        }
    }

    /// The modifier that a logical key reports, if the key is a modifier.
    pub open spec fn of_key(key: Seq<char>) -> Option<Modifier> {
        if key == "Control"@ {
            Some(Modifier::Ctrl)
        } else if key == "Shift"@ {
            Some(Modifier::Shift)
        } else if key == "Alt"@ {
            Some(Modifier::Alt)
        } else if key == "Meta"@ {
            Some(Modifier::Win)
        } else {
            None
        }
    }

    /// The modifier that the logical key `key` reports.
    pub fn from_key(key: &str) -> (modifier: Option<Modifier>)
        ensures
            modifier == Modifier::of_key(key@),
    {
        let chars = chars_of(key);
        let chars = chars.as_slice();
        if spells(chars, "Control") {
            Some(Modifier::Ctrl)
        } else if spells(chars, "Shift") {
            Some(Modifier::Shift)
        } else if spells(chars, "Alt") {
            Some(Modifier::Alt)
        } else if spells(chars, "Meta") {
            Some(Modifier::Win)
        } else {
            None
        }
    }

    /// The modifier's name.
    pub fn label(self) -> (name: String)
        ensures
            name@ == self.name(),
    {
        match self {
            Modifier::Ctrl => "Ctrl".to_string(),
            Modifier::Shift => "Shift".to_string(),
            Modifier::Alt => "Alt".to_string(),
            Modifier::Win => "Win".to_string(),
        }
    }
}

/// The names of a run of modifiers, in the same order.
pub open spec fn modifier_names(modifiers: Seq<Modifier>) -> Seq<Seq<char>> {
    modifiers.map_values(|m: Modifier| m.name())
}

/// Where a recording stands.
pub enum RecorderState {
    /// No shortcut is being recorded.
    Idle,
    /// A shortcut for `action` is being recorded; `modifiers` were pressed so
    /// far, in this order.
    Recording { action: HotkeyAction, modifiers: Seq<Modifier> },
}

/// What a key press did to a recording.
#[derive(Debug)]
pub enum CaptureOutcome {
    /// No recording was under way; nothing happened.
    Inactive,
    /// Escape ended the recording; nothing is bound.
    Cancelled,
    /// A modifier was pressed; the recording goes on.
    ModifierHeld,
    /// The key cannot be bound; the recording goes on.
    Ignored,
    /// The recording ended: `action` is to be bound to `keybind`, and the
    /// bindings are to be saved.
    Committed { action: HotkeyAction, keybind: KeybindConfig },
}

/// A `CaptureOutcome` with its binding as character sequences.
pub enum OutcomeView {
    Inactive,
    Cancelled,
    ModifierHeld,
    Ignored,
    Committed { action: HotkeyAction, keybind: KeybindView },
}

impl View for CaptureOutcome {
    type V = OutcomeView;

    open spec fn view(&self) -> OutcomeView {
        match self {
            CaptureOutcome::Inactive => OutcomeView::Inactive,
            CaptureOutcome::Cancelled => OutcomeView::Cancelled,
            CaptureOutcome::ModifierHeld => OutcomeView::ModifierHeld,
            CaptureOutcome::Ignored => OutcomeView::Ignored,
            CaptureOutcome::Committed { action, keybind } => OutcomeView::Committed {
                action: *action,
                keybind: keybind@,
            },
        }
    }
}

/// `modifiers` with `modifier` added at the end, unless it is there already.
pub open spec fn with_modifier(modifiers: Seq<Modifier>, modifier: Modifier) -> Seq<Modifier> {
    if modifiers.contains(modifier) {
        modifiers
    } else {
        modifiers.push(modifier)
    }
}

/// The state after a key press, and what the press did. Outside a recording
/// nothing happens. In a recording Escape cancels; a modifier joins the held
/// ones; a key without a token is passed over; any other key ends the
/// recording with a binding of the held modifiers and the key's token.
pub open spec fn after_key(state: RecorderState, key: Seq<char>, code: Seq<char>) -> (
    RecorderState,
    OutcomeView,
) {
    match state {
        RecorderState::Idle => (RecorderState::Idle, OutcomeView::Inactive),
        RecorderState::Recording { action, modifiers } => {
            let token = normalized_chord_key(key, code);
            if key == "Escape"@ {
                (RecorderState::Idle, OutcomeView::Cancelled)
            } else if let Some(modifier) = Modifier::of_key(key) {
                (
                    RecorderState::Recording {
                        action,
                        modifiers: with_modifier(modifiers, modifier),
                    },
                    OutcomeView::ModifierHeld,
                )
            } else if token.len() == 0 {
                (state, OutcomeView::Ignored)
            } else {
                (
                    RecorderState::Idle,
                    OutcomeView::Committed {
                        action,
                        keybind: KeybindView { modifiers: modifier_names(modifiers), key: token },
                    },
                )
            }
        },
    }
}

/// A state whose held modifiers hold none twice.
pub open spec fn distinct_modifiers(state: RecorderState) -> bool {
    match state {
        RecorderState::Idle => true,
        RecorderState::Recording { modifiers, .. } => modifiers.no_duplicates(),
    }
}

/// A key press never makes a modifier occur twice among the held ones.
pub proof fn lemma_key_keeps_modifiers_distinct(
    state: RecorderState,
    key: Seq<char>,
    code: Seq<char>,
)
    requires
        distinct_modifiers(state),
    ensures
        distinct_modifiers(after_key(state, key, code).0),
{
}

/// Reporting a modifier a second time changes nothing: the state after two
/// presses of the same modifier key is the state after one.
pub proof fn lemma_modifier_twice(state: RecorderState, key: Seq<char>, code: Seq<char>)
    requires
        Modifier::of_key(key) is Some,
    ensures
        after_key(after_key(state, key, code).0, key, code).0 == after_key(state, key, code).0,
{
    reveal_strlit("Escape");
    reveal_strlit("Control");
    reveal_strlit("Shift");
    reveal_strlit("Alt");
    reveal_strlit("Meta");
    assert(key != "Escape"@) by {
        assert("Escape"@.len() == 6 && "Control"@.len() == 7 && "Shift"@.len() == 5);
        assert("Alt"@.len() == 3 && "Meta"@.len() == 4);
    }
    if let RecorderState::Recording { modifiers, .. } = state {
        let modifier = Modifier::of_key(key).unwrap();
        let held = with_modifier(modifiers, modifier);
        if !modifiers.contains(modifier) {
            assert(held[modifiers.len() as int] == modifier);
        }
    }
}

/// Two modifiers with the same name are the same modifier.
pub proof fn lemma_modifier_names_differ(a: Modifier, b: Modifier)
    requires
        a.name() == b.name(),
    ensures
        a == b,
{
    reveal_strlit("Ctrl");
    reveal_strlit("Shift");
    reveal_strlit("Alt");
    reveal_strlit("Win");
    assert("Ctrl"@.len() == 4 && "Shift"@.len() == 5 && "Alt"@.len() == 3 && "Win"@.len() == 3);
    assert("Alt"@[0] != "Win"@[0]);
}

/// The binding that ends a recording is canonical: its key is a canonical key
/// token, and its modifiers are names of the four modifiers, none of them
/// twice.
pub proof fn lemma_committed_binding(state: RecorderState, key: Seq<char>, code: Seq<char>)
    requires
        distinct_modifiers(state),
        after_key(state, key, code).1 is Committed,
    ensures
        canonical(after_key(state, key, code).1->keybind),
        after_key(state, key, code).1->keybind.modifiers.len() <= 4,
{
    lemma_chord_key_is_token(key, code);
    let held = state->modifiers;
    let names = modifier_names(held);
    assert forall|i: int, j: int| 0 <= i < names.len() && 0 <= j < names.len() && i != j implies names[i]
        != names[j] by {
        if names[i] == names[j] {
            lemma_modifier_names_differ(held[i], held[j]);
        }
    }
    lemma_at_most_four(held);
}

/// A run of modifiers that holds none twice holds four at most.
pub proof fn lemma_at_most_four(held: Seq<Modifier>)
    requires
        held.no_duplicates(),
    ensures
        held.len() <= 4,
{
    if held.len() > 4 {
        // Five places hold four values at most: two of them agree.
        let (a, b, c, d, e) = (held[0], held[1], held[2], held[3], held[4]);
        assert(a != b && a != c && a != d && a != e && b != c && b != d && b != e && c != d && c
            != e && d != e);
    }
}

/// The one recording session of the program.
#[derive(Debug)]
pub struct Recorder {
    target: Option<HotkeyAction>,
    held: Vec<Modifier>,
}

impl Recorder {
    #[verifier::type_invariant]
    spec fn inv(self) -> bool {
        &&& self.held@.no_duplicates()
        &&& self.target is None ==> self.held@.len() == 0
    }

    /// The session's state.
    pub closed spec fn view(&self) -> RecorderState {
        match self.target {
            None => RecorderState::Idle,
            Some(action) => RecorderState::Recording { action, modifiers: self.held@ },
        }
    }

    /// A session in which nothing is being recorded.
    pub fn new() -> (recorder: Self)
        ensures
            recorder@ == RecorderState::Idle,
    {
        Recorder { target: None, held: Vec::new() }
    }

    /// Starts recording a shortcut for `action`, with no modifier held. A
    /// recording that was under way is given up.
    pub fn begin(&mut self, action: HotkeyAction)
        ensures
            final(self)@ == (RecorderState::Recording { action, modifiers: Seq::empty() }),
    {
        *self = Recorder { target: Some(action), held: Vec::new() };
    }

    /// Gives up the recording, if there is one.
    pub fn cancel(&mut self)
        ensures
            final(self)@ == RecorderState::Idle,
    {
        *self = Recorder { target: None, held: Vec::new() };
    }

    /// Whether a shortcut is being recorded.
    pub fn is_recording(&self) -> (recording: bool)
        ensures
            recording == (self@ is Recording),
    {
        self.target.is_some()
    }

    /// The action whose shortcut is being recorded.
    pub fn target(&self) -> (action: Option<HotkeyAction>)
        ensures
            action == match self@ {
                RecorderState::Idle => None,
                RecorderState::Recording { action, .. } => Some(action),
            },
    {
        self.target
    }

    /// The modifiers held so far, in the order they were pressed; none
    /// outside a recording. No modifier occurs twice.
    pub fn modifiers(&self) -> (held: &[Modifier])
        ensures
            held@.no_duplicates(),
            held@ == match self@ {
                RecorderState::Idle => Seq::empty(),
                RecorderState::Recording { modifiers, .. } => modifiers,
            },
    {
        proof {
            use_type_invariant(self);
        }
        self.held.as_slice()
    }

    /// Takes one key press, given by its logical key and its physical code.
    pub fn key_down(&mut self, key: &str, code: &str) -> (outcome: CaptureOutcome)
        ensures
            (final(self)@, outcome@) == after_key(old(self)@, key@, code@),
            distinct_modifiers(final(self)@),
    {
        proof {
            use_type_invariant(&*self);
        }
        let action = match self.target {
            None => {
                return CaptureOutcome::Inactive;
            },
            Some(action) => action,
        };
        let key_chars = chars_of(key);
        if spells(key_chars.as_slice(), "Escape") {
            *self = Recorder { target: None, held: Vec::new() };
            return CaptureOutcome::Cancelled;
        }
        if let Some(modifier) = Modifier::from_key(key) {
            if !holds(self.held.as_slice(), modifier) {
                let mut held = slice_to_vec(self.held.as_slice());
                held.push(modifier);
                *self = Recorder { target: Some(action), held };
            }
            return CaptureOutcome::ModifierHeld;
        }
        let token = KeybindConfig::normalize_key_with_code(key, code);
        if token.as_str().is_empty() {
            return CaptureOutcome::Ignored;
        }
        let names = names_of(self.held.as_slice());
        *self = Recorder { target: None, held: Vec::new() };
        CaptureOutcome::Committed { action, keybind: KeybindConfig::new(names, token) }
    }
}

fn holds(held: &[Modifier], modifier: Modifier) -> (found: bool)
    ensures
        found == held@.contains(modifier),
{
    let mut i: usize = 0;
    while i < held.len()
        invariant
            i <= held.len(),
            !held@.take(i as int).contains(modifier),
        decreases held.len() - i,
    {
        if held[i] == modifier {
            return true;
        }
        i += 1;
    }
    assert(held@.take(i as int) =~= held@);
    false
}

fn names_of(held: &[Modifier]) -> (names: Vec<String>)
    ensures
        texts(names@) == modifier_names(held@),
{
    let mut names: Vec<String> = Vec::new();
    let mut i: usize = 0;
    while i < held.len()
        invariant
            i <= held.len(),
            texts(names@) == modifier_names(held@).take(i as int),
        decreases held.len() - i,
    {
        let ghost before = names@;
        let name = held[i].label();
        names.push(name);
        assert(texts(names@) =~= texts(before).push(held@[i as int].name()));
        i += 1;
    }
    names
}

} // verus!
