//! Named snapshots of calibration settings, kept in a list and picked by
//! their position in it.
//!
//! The list is generic in the settings it stores: it never looks inside
//! them.

use crate::hotkeys::{format_action, HotkeyAction};
use vstd::prelude::*;

verus! {

/// A named snapshot of settings.
#[derive(Debug, PartialEq)]
pub struct Profile<S> {
    pub name: String,
    pub settings: S,
}

impl<S: Clone> Clone for Profile<S> {
    /// A copy with the same name; the settings are copied by their own
    /// `clone`.
    fn clone(&self) -> (copy: Self)
        ensures
            copy.name == self.name,
            cloned(self.settings, copy.settings),
    {
        Profile { name: self.name.clone(), settings: self.settings.clone() }
    }
}

impl<S> Profile<S> {
    /// Create a new profile with the given name and settings.
    pub fn new(name: String, settings: S) -> (profile: Self)
        ensures
            profile.name == name,
            profile.settings == settings,
    {
        Self { name, settings }
    }
}

/// The list of profiles. A profile is known by its position only: removing
/// one moves the positions of all that follow it.
#[derive(Debug)]
pub struct ProfileManager<S> {
    profiles: Vec<Profile<S>>,
}

impl<S: Clone> Clone for ProfileManager<S> {
    /// A list of the same length with a copy of each profile in its place.
    fn clone(&self) -> (copy: Self)
        ensures
            copy@.len() == self@.len(),
            forall|i: int|
                0 <= i < self@.len() ==> (#[trigger] copy@[i]).name == self@[i].name && cloned(
                    self@[i].settings,
                    copy@[i].settings,
                ),
    {
        let mut profiles: Vec<Profile<S>> = Vec::new();
        let mut i: usize = 0;
        while i < self.profiles.len()
            invariant
                i <= self.profiles.len(),
                profiles@.len() == i,
                forall|k: int|
                    0 <= k < i ==> (#[trigger] profiles@[k]).name == self.profiles@[k].name
                        && cloned(self.profiles@[k].settings, profiles@[k].settings),
            decreases self.profiles.len() - i,
        {
            profiles.push(self.profiles[i].clone());
            i += 1;
        }
        ProfileManager { profiles }
    }
}

impl<S> ProfileManager<S> {
    /// The profiles, in order.
    pub closed spec fn view(&self) -> Seq<Profile<S>> {
        self.profiles@
    }

    /// Create a new, empty manager.
    pub fn new() -> (manager: Self)
        ensures
            manager@ == Seq::<Profile<S>>::empty(),
    {
        Self { profiles: Vec::new() }
    }

    /// Add a profile at the end of the list.
    pub fn add_profile(&mut self, profile: Profile<S>)
        ensures
            final(self)@ == old(self)@.push(profile),
    {
        self.profiles.push(profile);
    }

    /// Saves `settings` under `name` at the end of the list. A profile needs
    /// a name: an empty one is refused, and nothing changes.
    pub fn save_profile(&mut self, name: String, settings: S) -> (saved: bool)
        ensures
            saved == (name@.len() > 0),
            saved ==> final(self)@ == old(self)@.push(Profile { name, settings }),
            !saved ==> final(self)@ == old(self)@,
    {
        if name.as_str().is_empty() {
            return false;
        }
        self.profiles.push(Profile { name, settings });
        true
    }

    /// Remove the profile at `index` and return it; `None`, and no change,
    /// where the list has no such position.
    pub fn remove_profile(&mut self, index: usize) -> (removed: Option<Profile<S>>)
        ensures
            index < old(self)@.len() ==> removed == Some(old(self)@[index as int]) && final(self)@
                == old(self)@.remove(index as int),
            index >= old(self)@.len() ==> removed is None && final(self)@ == old(self)@,
    {
        if index < self.profiles.len() {
            return Some(self.profiles.remove(index));
        }
        None
    }

    /// Replace the profile at `index`. Returns whether the list has such a
    /// position; where it has none, nothing changes.
    pub fn update_profile(&mut self, index: usize, profile: Profile<S>) -> (updated: bool)
        ensures
            updated == (index < old(self)@.len()),
            updated ==> final(self)@ == old(self)@.update(index as int, profile),
            !updated ==> final(self)@ == old(self)@,
    {
        if index < self.profiles.len() {
            self.profiles[index] = profile;
            return true;
        }
        false
    }

    /// The profile at `index`, if the list has such a position.
    pub fn get_profile(&self, index: usize) -> (profile: Option<&Profile<S>>)
        ensures
            index < self@.len() ==> profile == Some(&self@[index as int]),
            index >= self@.len() ==> profile is None,
    {
        if index < self.profiles.len() {
            Some(&self.profiles[index])
        } else {
            None
        }
    }

    /// All profiles, in order.
    pub fn get_profiles(&self) -> (profiles: &[Profile<S>])
        ensures
            profiles@ == self@,
    {
        self.profiles.as_slice()
    }

    /// The number of profiles.
    pub fn profile_count(&self) -> (count: usize)
        ensures
            count == self@.len(),
    {
        self.profiles.len()
    }

    /// The list itself, to be changed in place.
    pub fn profiles_mut(&mut self) -> (profiles: &mut Vec<Profile<S>>)
        ensures
            profiles@ == old(self)@,
            final(self)@ == final(profiles)@,
    {
        &mut self.profiles
    }
}

impl<S> Default for ProfileManager<S> {
    fn default() -> (manager: Self)
        ensures
            manager@ == Seq::<Profile<S>>::empty(),
    {
        Self::new()
    }
}

/// The name under which an action is listed: a profile action names its
/// profile where the list holds one at that position; every other action,
/// and a profile action that points nowhere, has its plain label.
pub open spec fn action_name<S>(action: HotkeyAction, profiles: Seq<Profile<S>>) -> Seq<char> {
    match action {
        HotkeyAction::LoadProfile(index) if index < profiles.len() => "Load profile: "@
            + profiles[index as int].name@,
        _ => action.label(),
    }
}

/// The display name of an action, with the profile's name for a profile
/// action.
pub fn get_action_name<S>(action: HotkeyAction, profiles: &ProfileManager<S>) -> (name: String)
    ensures
        name@ == action_name(action, profiles@),
{
    if let HotkeyAction::LoadProfile(index) = action {
        if let Some(profile) = profiles.get_profile(index) {
            return "Load profile: ".to_string().concat(profile.name.as_str());
        }
    }
    format_action(action)
}

} // verus!
