//! The bindings of the program: at most one chord for each action.

use crate::hotkeys::{
    action_to_string, decoded, lemma_action_round_trip, string_to_action, HotkeyAction,
};
use crate::keybind::{display_text, KeybindConfig, KeybindView};
use vstd::prelude::*;

verus! {

/// One action with the chord bound to it.
#[derive(Debug)]
pub struct Binding {
    pub action: HotkeyAction,
    pub keybind: KeybindConfig,
}

impl Clone for Binding {
    fn clone(&self) -> (copy: Self)
        ensures
            copy@ == self@,
    {
        Binding { action: self.action, keybind: self.keybind.clone() }
    }
}

/// A binding with its chord as character sequences.
pub struct BindingView {
    pub action: HotkeyAction,
    pub keybind: KeybindView,
}

impl View for Binding {
    type V = BindingView;

    open spec fn view(&self) -> BindingView {
        BindingView { action: self.action, keybind: self.keybind@ }
    }
}

/// The views of a run of bindings.
pub open spec fn binding_views(bindings: Seq<Binding>) -> Seq<BindingView> {
    bindings.map_values(|b: Binding| b@)
}

/// No action occurs twice among `bindings`.
pub open spec fn distinct_actions(bindings: Seq<BindingView>) -> bool {
    forall|i: int, j: int|
        0 <= i < j < bindings.len() ==> (#[trigger] bindings[i]).action != (
        #[trigger] bindings[j]).action
}

/// Whether `action` occurs among `bindings`.
pub open spec fn binds(bindings: Seq<BindingView>, action: HotkeyAction) -> bool {
    exists|i: int| 0 <= i < bindings.len() && (#[trigger] bindings[i]).action == action
}

/// The place of `action` among `bindings`, where it occurs.
pub open spec fn index_of_action(bindings: Seq<BindingView>, action: HotkeyAction) -> int {
    choose|i: int| 0 <= i < bindings.len() && (#[trigger] bindings[i]).action == action
}

/// `bindings` with `binding` in the place of the binding of the same action,
/// or at the end where the action is new.
pub open spec fn placed(bindings: Seq<BindingView>, binding: BindingView) -> Seq<BindingView> {
    if binds(bindings, binding.action) {
        bindings.update(index_of_action(bindings, binding.action), binding)
    } else {
        bindings.push(binding)
    }
}

/// `bindings` without the binding of `action`.
pub open spec fn without(bindings: Seq<BindingView>, action: HotkeyAction) -> Seq<BindingView> {
    if binds(bindings, action) {
        bindings.remove(index_of_action(bindings, action))
    } else {
        bindings
    }
}

/// The map that a run of bindings stands for. Where an action occurs more
/// than once, the last occurrence counts.
pub open spec fn map_of(bindings: Seq<BindingView>) -> Map<HotkeyAction, KeybindView>
    decreases bindings.len(),
{
    if bindings.len() == 0 {
        Map::empty()
    } else {
        map_of(bindings.drop_last()).insert(bindings.last().action, bindings.last().keybind)
    }
}

/// The actions of the map are those that occur among the bindings.
pub proof fn lemma_map_of_domain(bindings: Seq<BindingView>, action: HotkeyAction)
    ensures
        map_of(bindings).dom().contains(action) <==> binds(bindings, action),
    decreases bindings.len(),
{
    if bindings.len() > 0 {
        let front = bindings.drop_last();
        lemma_map_of_domain(front, action);
        if binds(front, action) {
            let i = choose|i: int| 0 <= i < front.len() && (#[trigger] front[i]).action == action;
            assert(bindings[i].action == action);
        }
        if binds(bindings, action) && bindings.last().action != action {
            let i = choose|i: int|
                0 <= i < bindings.len() && (#[trigger] bindings[i]).action == action;
            assert(front[i].action == action);
        }
        if bindings.last().action == action {
            assert(bindings[bindings.len() - 1].action == action);
        }
    }
}

/// Where no action occurs twice in a run of bindings, none does in the run
/// without its last binding.
proof fn lemma_distinct_front(bindings: Seq<BindingView>)
    requires
        distinct_actions(bindings),
        bindings.len() > 0,
    ensures
        distinct_actions(bindings.drop_last()),
{
    let front = bindings.drop_last();
    assert forall|a: int, b: int| 0 <= a < b < front.len() implies (#[trigger] front[a]).action != (
    #[trigger] front[b]).action by {
        assert(bindings[a].action != bindings[b].action);
    }
}

/// Where no action occurs twice, each binding is what the map holds for its
/// action.
pub proof fn lemma_map_of_value(bindings: Seq<BindingView>, i: int)
    requires
        distinct_actions(bindings),
        0 <= i < bindings.len(),
    ensures
        map_of(bindings).dom().contains(bindings[i].action),
        map_of(bindings)[bindings[i].action] == bindings[i].keybind,
    decreases bindings.len(),
{
    if i < bindings.len() - 1 {
        lemma_distinct_front(bindings);
        lemma_map_of_value(bindings.drop_last(), i);
        // The last binding is for another action and leaves this one alone.
        assert(bindings[i].action != bindings[bindings.len() - 1].action);
    }
}

/// A binding added at the end is an insertion into the map.
pub proof fn lemma_map_of_push(bindings: Seq<BindingView>, binding: BindingView)
    ensures
        map_of(bindings.push(binding)) == map_of(bindings).insert(binding.action, binding.keybind),
{
    assert(bindings.push(binding).drop_last() =~= bindings);
}

/// Where no action occurs twice, replacing the chord of a binding is an
/// insertion into the map.
pub proof fn lemma_map_of_update(bindings: Seq<BindingView>, i: int, keybind: KeybindView)
    requires
        distinct_actions(bindings),
        0 <= i < bindings.len(),
    ensures
        map_of(bindings.update(i, BindingView { action: bindings[i].action, keybind }))
            == map_of(bindings).insert(bindings[i].action, keybind),
        distinct_actions(bindings.update(i, BindingView { action: bindings[i].action, keybind })),
    decreases bindings.len(),
{
    let action = bindings[i].action;
    let changed = bindings.update(i, BindingView { action, keybind });
    let front = bindings.drop_last();
    assert forall|a: int, b: int| 0 <= a < b < changed.len() implies (#[trigger] changed[a]).action
        != (#[trigger] changed[b]).action by {
        assert(bindings[a].action != bindings[b].action);
    }
    if i == bindings.len() - 1 {
        assert(changed.drop_last() =~= front);
    } else {
        lemma_distinct_front(bindings);
        lemma_map_of_update(front, i, keybind);
        assert(changed.drop_last() =~= front.update(i, BindingView { action, keybind }));
        // The last binding is for another action: the two insertions commute.
        assert(action != bindings[bindings.len() - 1].action);
    }
    assert(map_of(changed) =~= map_of(bindings).insert(action, keybind));
}

/// Where no action occurs twice, taking a binding out removes its action
/// from the map.
pub proof fn lemma_map_of_remove(bindings: Seq<BindingView>, i: int)
    requires
        distinct_actions(bindings),
        0 <= i < bindings.len(),
    ensures
        map_of(bindings.remove(i)) == map_of(bindings).remove(bindings[i].action),
        distinct_actions(bindings.remove(i)),
    decreases bindings.len(),
{
    let action = bindings[i].action;
    let rest = bindings.remove(i);
    let front = bindings.drop_last();
    assert forall|a: int, b: int| 0 <= a < b < rest.len() implies (#[trigger] rest[a]).action != (
    #[trigger] rest[b]).action by {
        let a0 = if a < i {
            a
        } else {
            a + 1
        };
        let b0 = if b < i {
            b
        } else {
            b + 1
        };
        assert(bindings[a0].action != bindings[b0].action);
    }
    lemma_distinct_front(bindings);
    if i == bindings.len() - 1 {
        // The action was bound by the last binding only.
        assert(rest =~= front);
        lemma_map_of_domain(front, action);
        if binds(front, action) {
            let k = choose|k: int| 0 <= k < front.len() && (#[trigger] front[k]).action == action;
            assert(bindings[k].action != bindings[i].action);
        }
    } else {
        lemma_map_of_remove(front, i);
        assert(rest.drop_last() =~= front.remove(i));
        assert(action != bindings[bindings.len() - 1].action);
    }
    assert(map_of(rest) =~= map_of(bindings).remove(action));
}

/// The bindings of the program. No action is bound twice; an action without
/// a chord is simply absent.
#[derive(Debug)]
pub struct Keybinds {
    entries: Vec<Binding>,
}

impl Keybinds {
    #[verifier::type_invariant]
    spec fn inv(self) -> bool {
        distinct_actions(binding_views(self.entries@))
    }

    /// The bindings in the order in which their actions were first bound.
    pub closed spec fn bindings(&self) -> Seq<BindingView> {
        binding_views(self.entries@)
    }

    /// The chord of each bound action.
    pub open spec fn view(&self) -> Map<HotkeyAction, KeybindView> {
        map_of(self.bindings())
    }

    /// No binding at all.
    pub fn new() -> (bindings: Self)
        ensures
            bindings.bindings() == Seq::<BindingView>::empty(),
            bindings@ == Map::<HotkeyAction, KeybindView>::empty(),
    {
        Keybinds { entries: Vec::new() }
    }

    /// The number of bound actions.
    pub fn len(&self) -> (count: usize)
        ensures
            count == self.bindings().len(),
            distinct_actions(self.bindings()),
    {
        proof {
            use_type_invariant(self);
        }
        self.entries.len()
    }

    /// The bindings, in the order in which their actions were first bound.
    pub fn entries(&self) -> (entries: &[Binding])
        ensures
            binding_views(entries@) == self.bindings(),
            distinct_actions(self.bindings()),
    {
        proof {
            use_type_invariant(self);
        }
        self.entries.as_slice()
    }

    fn position(&self, action: HotkeyAction) -> (at: Option<usize>)
        ensures
            at is Some <==> binds(self.bindings(), action),
            at is Some ==> at.unwrap() < self.bindings().len() && self.bindings()[at.unwrap() as int].action
                == action,
    {
        let mut i: usize = 0;
        while i < self.entries.len()
            invariant
                i <= self.entries.len(),
                forall|k: int| 0 <= k < i ==> (#[trigger] self.bindings()[k]).action != action,
            decreases self.entries.len() - i,
        {
            if self.entries[i].action == action {
                assert(self.bindings()[i as int].action == action);
                return Some(i);
            }
            i += 1;
        }
        None
    }

    /// The chord bound to `action`, if there is one.
    pub fn get(&self, action: HotkeyAction) -> (keybind: Option<&KeybindConfig>)
        ensures
            keybind is Some <==> self@.dom().contains(action),
            keybind is Some ==> keybind.unwrap()@ == self@[action],
    {
        proof {
            use_type_invariant(self);
            lemma_map_of_domain(self.bindings(), action);
        }
        match self.position(action) {
            Some(i) => {
                proof {
                    lemma_map_of_value(self.bindings(), i as int);
                }
                Some(&self.entries[i].keybind)
            },
            None => None,
        }
    }

    /// Binds `action` to `keybind`. A chord that was bound to the action
    /// before is replaced and handed back; the action keeps its place among
    /// the bindings. A new action goes to the end.
    pub fn insert(&mut self, action: HotkeyAction, keybind: KeybindConfig) -> (previous: Option<
        KeybindConfig,
    >)
        ensures
            final(self)@ == old(self)@.insert(action, keybind@),
            previous is Some <==> old(self)@.dom().contains(action),
            previous is Some ==> previous.unwrap()@ == old(self)@[action],
            final(self).bindings() == placed(
                old(self).bindings(),
                BindingView { action, keybind: keybind@ },
            ),
            distinct_actions(final(self).bindings()),
    {
        proof {
            use_type_invariant(&*self);
            lemma_map_of_domain(self.bindings(), action);
        }
        let ghost before = self.bindings();
        let ghost added = BindingView { action, keybind: keybind@ };
        match self.position(action) {
            Some(i) => {
                let mut entries: Vec<Binding> = Vec::new();
                std::mem::swap(&mut entries, &mut self.entries);
                let old_binding = entries.remove(i);
                entries.insert(i, Binding { action, keybind });
                proof {
                    lemma_map_of_value(before, i as int);
                    lemma_map_of_update(before, i as int, keybind@);
                    assert(binding_views(entries@) =~= before.update(i as int, added));
                    assert(index_of_action(before, action) == i);
                }
                self.entries = entries;
                Some(old_binding.keybind)
            },
            None => {
                let mut entries: Vec<Binding> = Vec::new();
                std::mem::swap(&mut entries, &mut self.entries);
                entries.push(Binding { action, keybind });
                proof {
                    lemma_map_of_push(before, added);
                    assert(binding_views(entries@) =~= before.push(added));
                    assert(distinct_actions(before.push(added)));
                }
                self.entries = entries;
                None
            },
        }
    }

    /// Takes the binding of `action` away and hands its chord back, if the
    /// action was bound. The other bindings keep their order.
    pub fn remove(&mut self, action: HotkeyAction) -> (previous: Option<KeybindConfig>)
        ensures
            final(self)@ == old(self)@.remove(action),
            previous is Some <==> old(self)@.dom().contains(action),
            previous is Some ==> previous.unwrap()@ == old(self)@[action],
            final(self).bindings() == without(old(self).bindings(), action),
            distinct_actions(final(self).bindings()),
    {
        proof {
            use_type_invariant(&*self);
            lemma_map_of_domain(self.bindings(), action);
        }
        let ghost before = self.bindings();
        match self.position(action) {
            Some(i) => {
                let mut entries: Vec<Binding> = Vec::new();
                std::mem::swap(&mut entries, &mut self.entries);
                let old_binding = entries.remove(i);
                proof {
                    lemma_map_of_value(before, i as int);
                    lemma_map_of_remove(before, i as int);
                    assert(binding_views(entries@) =~= before.remove(i as int));
                    assert(index_of_action(before, action) == i);
                }
                self.entries = entries;
                Some(old_binding.keybind)
            },
            None => {
                assert(map_of(before).remove(action) =~= map_of(before));
                None
            },
        }
    }
}

/// What the list of bindings shows for `action`: its chord in display form,
/// or a note that none is set.
pub open spec fn binding_text(bindings: Map<HotkeyAction, KeybindView>, action: HotkeyAction) -> Seq<
    char,
> {
    if bindings.dom().contains(action) {
        display_text(bindings[action])
    } else {
        "Not set"@
    }
}

/// The text shown for the binding of `action`.
pub fn binding_label(keybinds: &Keybinds, action: HotkeyAction) -> (label: String)
    ensures
        label@ == binding_text(keybinds@, action),
{
    match keybinds.get(action) {
        Some(keybind) => keybind.format(),
        None => "Not set".to_string(),
    }
}

impl Clone for Keybinds {
    fn clone(&self) -> (copy: Self)
        ensures
            copy.bindings() == self.bindings(),
            copy@ == self@,
    {
        proof {
            use_type_invariant(self);
        }
        let mut entries: Vec<Binding> = Vec::new();
        let mut i: usize = 0;
        while i < self.entries.len()
            invariant
                i <= self.entries.len(),
                binding_views(entries@) == binding_views(self.entries@).take(i as int),
            decreases self.entries.len() - i,
        {
            let ghost before = entries@;
            let binding = self.entries[i].clone();
            entries.push(binding);
            assert(binding_views(entries@) =~= binding_views(before).push(self.entries@[i as int]@));
            assert(binding_views(entries@) =~= binding_views(self.entries@).take(i + 1));
            i += 1;
        }
        assert(binding_views(self.entries@).take(i as int) =~= binding_views(self.entries@));
        Keybinds { entries }
    }
}

impl Default for Keybinds {
    fn default() -> (bindings: Self)
        ensures
            bindings.bindings() == Seq::<BindingView>::empty(),
            bindings@ == Map::<HotkeyAction, KeybindView>::empty(),
    {
        Keybinds::new()
    }
}

/// A stored binding: the text of its action, and its chord.
pub struct StoredView {
    pub action: Seq<char>,
    pub keybind: KeybindView,
}

/// The views of a run of stored bindings.
pub open spec fn stored_views(entries: Seq<(String, KeybindConfig)>) -> Seq<StoredView> {
    entries.map_values(|e: (String, KeybindConfig)| StoredView { action: e.0@, keybind: e.1@ })
}

/// The stored form of a run of bindings: each action as text, each chord
/// as it is, in the same order.
pub open spec fn stored_form(bindings: Seq<BindingView>) -> Seq<StoredView> {
    bindings.map_values(
        |b: BindingView| StoredView { action: b.action.encoded(), keybind: b.keybind },
    )
}

/// The map that a run of stored bindings stands for. An entry whose text
/// denotes no action is passed over. Where two entries denote the same
/// action, the later one counts.
pub open spec fn loaded_map(entries: Seq<StoredView>) -> Map<HotkeyAction, KeybindView>
    decreases entries.len(),
{
    if entries.len() == 0 {
        Map::empty()
    } else {
        let front = loaded_map(entries.drop_last());
        match decoded(entries.last().action) {
            Some(action) => front.insert(action, entries.last().keybind),
            None => front,
        }
    }
}

/// Storing bindings and loading them again gives the same map.
pub proof fn lemma_stored_round_trip(bindings: Seq<BindingView>)
    ensures
        loaded_map(stored_form(bindings)) == map_of(bindings),
    decreases bindings.len(),
{
    if bindings.len() > 0 {
        lemma_stored_round_trip(bindings.drop_last());
        lemma_action_round_trip(bindings.last().action);
        assert(stored_form(bindings).drop_last() =~= stored_form(bindings.drop_last()));
    }
}

/// The bindings in the form in which they are stored: the action of each as
/// text, with its chord.
pub fn serialize_keybinds(keybinds: &Keybinds) -> (entries: Vec<(String, KeybindConfig)>)
    ensures
        stored_views(entries@) == stored_form(keybinds.bindings()),
{
    let bindings = keybinds.entries();
    let mut entries: Vec<(String, KeybindConfig)> = Vec::new();
    let mut i: usize = 0;
    while i < bindings.len()
        invariant
            i <= bindings.len(),
            binding_views(bindings@) == keybinds.bindings(),
            stored_views(entries@) == stored_form(keybinds.bindings()).take(i as int),
        decreases bindings.len() - i,
    {
        let ghost before = entries@;
        let text = action_to_string(&bindings[i].action);
        let keybind = bindings[i].keybind.clone();
        entries.push((text, keybind));
        proof {
            let b = keybinds.bindings()[i as int];
            assert(b == bindings@[i as int]@);
            assert(stored_views(entries@) =~= stored_views(before).push(
                StoredView { action: b.action.encoded(), keybind: b.keybind },
            ));
            assert(stored_views(entries@) =~= stored_form(keybinds.bindings()).take(i + 1));
        }
        i += 1;
    }
    assert(stored_form(keybinds.bindings()).take(i as int) =~= stored_form(keybinds.bindings()));
    entries
}

/// The bindings that a run of stored entries holds. An entry whose text
/// denotes no action is dropped; it does not make the load fail.
pub fn deserialize_keybinds(entries: &[(String, KeybindConfig)]) -> (keybinds: Keybinds)
    ensures
        keybinds@ == loaded_map(stored_views(entries@)),
        distinct_actions(keybinds.bindings()),
{
    let mut keybinds = Keybinds::new();
    let mut i: usize = 0;
    while i < entries.len()
        invariant
            i <= entries.len(),
            keybinds@ == loaded_map(stored_views(entries@).take(i as int)),
            distinct_actions(keybinds.bindings()),
        decreases entries.len() - i,
    {
        proof {
            let upto = stored_views(entries@).take(i + 1);
            assert(upto.drop_last() =~= stored_views(entries@).take(i as int));
            assert(upto.last().action == entries@[i as int].0@);
            assert(upto.last().keybind == entries@[i as int].1@);
        }
        if let Some(action) = string_to_action(entries[i].0.as_str()) {
            let keybind = entries[i].1.clone();
            keybinds.insert(action, keybind);
        }
        i += 1;
    }
    assert(stored_views(entries@).take(i as int) =~= stored_views(entries@));
    keybinds
}

} // verus!
