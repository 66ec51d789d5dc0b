//! Which bindings go to the operating system's shortcut registry.
//!
//! The registry takes a complete set: whenever the bindings change, every
//! shortcut registered before is taken out and the whole plan is registered
//! anew. A chord that the registry's parser does not read is skipped; the
//! others still register.

use crate::hotkeys::HotkeyAction;
use crate::keybind::shortcut_text;
use crate::keymap::{binding_views, BindingView, Keybinds};
use global_hotkey::hotkey::HotKey;
use vstd::prelude::*;

verus! {

/// Whether the `global_hotkey` crate reads `shortcut` as a hotkey: the
/// result of its parser on this text is `Ok`.
pub uninterp spec fn shortcut_parses(shortcut: Seq<char>) -> bool;

/// Runs the parser of `global_hotkey` (`HotKey::from_str`, reached through
/// `str::parse`) on `shortcut` and tells whether it gave a hotkey. The parser
/// looks at the text alone and returns on every text.
#[verifier::external_body]
fn parses_as_hotkey(shortcut: &str) -> (accepted: bool)
    ensures
        accepted == shortcut_parses(shortcut@),
{
    shortcut.parse::<HotKey>().is_ok()
}

/// A chord on its way to the registry, with the action it triggers.
#[derive(Debug)]
pub struct Registration {
    pub action: HotkeyAction,
    pub shortcut: String,
}

/// A registration with its chord as a character sequence.
pub struct RegistrationView {
    pub action: HotkeyAction,
    pub shortcut: Seq<char>,
}

impl View for Registration {
    type V = RegistrationView;

    open spec fn view(&self) -> RegistrationView {
        RegistrationView { action: self.action, shortcut: self.shortcut@ }
    }
}

/// The views of a run of registrations.
pub open spec fn registration_views(items: Seq<Registration>) -> Seq<RegistrationView> {
    items.map_values(|r: Registration| r@)
}

/// What is to be registered, and what was left out because its chord does
/// not parse. Both keep the order of the bindings.
#[derive(Debug)]
pub struct RegistrationPlan {
    pub register: Vec<Registration>,
    pub skipped: Vec<Registration>,
}

/// One step of bringing the registry up to date.
#[derive(Debug)]
pub enum RegistryCommand {
    /// Take out every shortcut that is registered.
    UnregisterAll,
    /// Register this chord for this action.
    Register(Registration),
}

/// A `RegistryCommand` with its chord as a character sequence.
pub enum RegistryCommandView {
    UnregisterAll,
    Register(RegistrationView),
}

impl View for RegistryCommand {
    type V = RegistryCommandView;

    open spec fn view(&self) -> RegistryCommandView {
        match self {
            RegistryCommand::UnregisterAll => RegistryCommandView::UnregisterAll,
            RegistryCommand::Register(registration) => RegistryCommandView::Register(registration@),
        }
    }
}

/// The views of a run of commands.
pub open spec fn command_views(commands: Seq<RegistryCommand>) -> Seq<RegistryCommandView> {
    commands.map_values(|c: RegistryCommand| c@)
}

/// The steps that carry out a plan: first the registry is emptied, then each
/// chord of the plan is registered, in order. Nothing is registered on top of
/// what was there before.
pub open spec fn steps_of(register: Seq<RegistrationView>) -> Seq<RegistryCommandView> {
    seq![RegistryCommandView::UnregisterAll] + register.map_values(
        |r: RegistrationView| RegistryCommandView::Register(r),
    )
}

/// The chord of each binding in the registry's notation, with its action.
pub open spec fn candidates(bindings: Seq<BindingView>) -> Seq<RegistrationView> {
    bindings.map_values(
        |b: BindingView| RegistrationView { action: b.action, shortcut: shortcut_text(b.keybind) },
    )
}

/// Whether the registry's parser reads the chord of `candidate`.
pub open spec fn registrable(candidate: RegistrationView) -> bool {
    shortcut_parses(candidate.shortcut)
}

impl RegistrationPlan {
    /// A plan that holds nothing.
    pub fn new() -> (plan: Self)
        ensures
            plan.register@.len() == 0,
            plan.skipped@.len() == 0,
    {
        RegistrationPlan { register: Vec::new(), skipped: Vec::new() }
    }

    /// Puts one chord on the plan: among those to register where the parser
    /// accepted it, among the skipped ones where it did not.
    pub fn note(&mut self, action: HotkeyAction, shortcut: String, accepted: bool)
        ensures
            final(self).register@.len() + final(self).skipped@.len() == old(self).register@.len()
                + old(self).skipped@.len() + 1,
            registration_views(final(self).register@) == if accepted {
                registration_views(old(self).register@).push(
                    RegistrationView { action, shortcut: shortcut@ },
                )
            } else {
                registration_views(old(self).register@)
            },
            registration_views(final(self).skipped@) == if accepted {
                registration_views(old(self).skipped@)
            } else {
                registration_views(old(self).skipped@).push(
                    RegistrationView { action, shortcut: shortcut@ },
                )
            },
    {
        if accepted {
            self.register.push(Registration { action, shortcut });
        } else {
            self.skipped.push(Registration { action, shortcut });
        }
    }
}

impl RegistrationPlan {
    /// The steps that carry out the plan.
    pub fn commands(&self) -> (commands: Vec<RegistryCommand>)
        ensures
            command_views(commands@) == steps_of(registration_views(self.register@)),
    {
        let ghost steps = steps_of(registration_views(self.register@));
        let mut commands: Vec<RegistryCommand> = Vec::new();
        commands.push(RegistryCommand::UnregisterAll);
        assert(command_views(commands@) =~= steps.take(1));
        let mut i: usize = 0;
        while i < self.register.len()
            invariant
                i <= self.register.len(),
                steps == steps_of(registration_views(self.register@)),
                command_views(commands@) == steps.take(i + 1),
            decreases self.register.len() - i,
        {
            let ghost before = commands@;
            let registration = Registration {
                action: self.register[i].action,
                shortcut: self.register[i].shortcut.clone(),
            };
            commands.push(RegistryCommand::Register(registration));
            assert(command_views(commands@) =~= command_views(before).push(
                RegistryCommandView::Register(self.register@[i as int]@),
            ));
            i += 1;
        }
        assert(steps.take(i + 1) =~= steps);
        commands
    }
}

/// The plan for the complete set of bindings: every binding whose chord the
/// registry's parser reads is to be registered, every other one is skipped,
/// each list in the order of the bindings.
pub fn registration_plan(keybinds: &Keybinds) -> (plan: RegistrationPlan)
    ensures
        registration_views(plan.register@) == candidates(keybinds.bindings()).filter(
            |c: RegistrationView| registrable(c),
        ),
        registration_views(plan.skipped@) == candidates(keybinds.bindings()).filter(
            |c: RegistrationView| !registrable(c),
        ),
        plan.register@.len() + plan.skipped@.len() == keybinds.bindings().len(),
{
    let bindings = keybinds.entries();
    let ghost all = candidates(keybinds.bindings());
    let ghost wanted = |c: RegistrationView| registrable(c);
    let ghost unwanted = |c: RegistrationView| !registrable(c);
    let mut plan = RegistrationPlan::new();
    let mut i: usize = 0;
    while i < bindings.len()
        invariant
            i <= bindings.len(),
            binding_views(bindings@) == keybinds.bindings(),
            all == candidates(keybinds.bindings()),
            wanted == |c: RegistrationView| registrable(c),
            unwanted == |c: RegistrationView| !registrable(c),
            registration_views(plan.register@) == all.take(i as int).filter(wanted),
            registration_views(plan.skipped@) == all.take(i as int).filter(unwanted),
            plan.register@.len() + plan.skipped@.len() == i,
        decreases bindings.len() - i,
    {
        let shortcut = bindings[i].keybind.to_shortcut_string();
        let accepted = parses_as_hotkey(shortcut.as_str());
        proof {
            assert(all.take(i + 1).drop_last() =~= all.take(i as int));
            reveal_with_fuel(Seq::filter, 2);
        }
        plan.note(bindings[i].action, shortcut, accepted);
        i += 1;
    }
    assert(all.take(i as int) =~= all);
    plan
}

} // verus!
