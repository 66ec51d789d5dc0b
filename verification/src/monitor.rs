//! The attached displays: what is known of each, how the list is ordered,
//! and the one policy by which a target display is picked.

use crate::text::{decimal, decimal_string, same_text};
use vstd::prelude::*;
use vstd::slice::slice_subrange;

verus! {

/// One attached display.
#[derive(Debug, PartialEq, Eq)]
pub struct MonitorInfo {
    /// The value of the display's handle, in decimal. It identifies the
    /// display for as long as the process runs, not beyond.
    pub id: String,
    /// The label shown to the user; the primary display is marked.
    pub name: String,
    /// The device path under which the calibration interface knows the
    /// display.
    pub device_name: String,
    pub is_primary: bool,
}

/// What is known of a display, as character sequences.
pub struct MonitorView {
    pub id: Seq<char>,
    pub name: Seq<char>,
    pub device_name: Seq<char>,
    pub is_primary: bool,
}

impl View for MonitorInfo {
    type V = MonitorView;

    open spec fn view(&self) -> MonitorView {
        MonitorView {
            id: self.id@,
            name: self.name@,
            device_name: self.device_name@,
            is_primary: self.is_primary,
        }
    }
}

impl Clone for MonitorInfo {
    fn clone(&self) -> (copy: Self)
        ensures
            copy@ == self@,
    {
        MonitorInfo {
            id: self.id.clone(),
            name: self.name.clone(),
            device_name: self.device_name.clone(),
            is_primary: self.is_primary,
        }
    }
}

/// The views of a run of displays.
pub open spec fn monitor_views(monitors: Seq<MonitorInfo>) -> Seq<MonitorView> {
    monitors.map_values(|m: MonitorInfo| m@)
}

/// The text that a run of UTF-16 code units decodes to, each unit that is no
/// part of a valid encoding replaced by U+FFFD: what
/// `String::from_utf16_lossy` returns for these units.
pub uninterp spec fn utf16_lossy(units: Seq<u16>) -> Seq<char>;

/// The UTF-16 code units of one character: the character's own code below
/// U+10000; above, a high and a low surrogate that hold the upper and the
/// lower ten bits of its distance from U+10000.
pub open spec fn utf16_of(c: char) -> Seq<u16> {
    let code = c as u32;
    if code < 0x10000 {
        seq![code as u16]
    } else {
        seq![
            (0xd800 + (code - 0x10000) / 0x400) as u16,
            (0xdc00 + (code - 0x10000) % 0x400) as u16,
        ]
    }
}

/// The UTF-16 code units of a text: those of its characters, in order.
pub open spec fn utf16_units(text: Seq<char>) -> Seq<u16>
    decreases text.len(),
{
    if text.len() == 0 {
        Seq::empty()
    } else {
        utf16_units(text.drop_last()) + utf16_of(text.last())
    }
}

/// Decodes UTF-16 with `String::from_utf16_lossy`, which takes any run of
/// code units and replaces what it cannot decode.
#[verifier::external_body]
fn decode_utf16_lossy(units: &[u16]) -> (text: String)
    ensures
        text@ == utf16_lossy(units@),
{
    String::from_utf16_lossy(units)
}

/// Encodes a text as UTF-16.
pub fn encode_utf16(text: &str) -> (units: Vec<u16>)
    ensures
        units@ == utf16_units(text@),
{
    let mut units: Vec<u16> = Vec::new();
    for c in it: text.chars()
        invariant
            it.seq() == text@,
            units@ == utf16_units(text@.take(it.index() as int)),
    {
        assert(text@.take(it.index() + 1).drop_last() =~= text@.take(it.index() as int));
        let code: u32 = c as u32;
        if code < 0x10000 {
            units.push(code as u16);
        } else {
            let rest: u32 = code - 0x10000;
            units.push((0xd800 + rest / 0x400) as u16);
            units.push((0xdc00 + rest % 0x400) as u16);
        }
    }
    assert(text@.take(text@.len() as int) =~= text@);
    units
}

/// The code units of a device-name buffer that stand before its first zero
/// unit; all of them where the buffer holds no zero.
pub open spec fn before_nul(buffer: Seq<u16>) -> Seq<u16>
    decreases buffer.len(),
{
    if buffer.len() == 0 || buffer[0] == 0 {
        Seq::empty()
    } else {
        seq![buffer[0]] + before_nul(buffer.skip(1))
    }
}

/// Whether the flags that the system reports for a display mark it as the
/// primary one: the lowest bit says so.
pub open spec fn primary_flag(flags: u32) -> bool {
    flags & 1 != 0
}

/// The label of a display: its device name, with a mark behind it for the
/// primary display.
pub open spec fn label_of(device_name: Seq<char>, is_primary: bool) -> Seq<char> {
    if is_primary {
        device_name + " (Primary)"@
    } else {
        device_name
    }
}

/// What is known of a display whose handle has the value `handle`, whose
/// device name is `device_name` and whose flags are `flags`: the handle's
/// value in decimal identifies it, the lowest flag bit makes it primary, and
/// its label is its device name, marked for the primary display.
pub open spec fn described_by_name(handle: usize, device_name: Seq<char>, flags: u32) -> MonitorView {
    MonitorView {
        id: decimal(handle as nat),
        name: label_of(device_name, primary_flag(flags)),
        device_name,
        is_primary: primary_flag(flags),
    }
}

/// What is known of a display whose handle has the value `handle`, whose
/// device-name buffer is `buffer` and whose flags are `flags`: its device
/// name is what the buffer holds before its first zero unit, decoded.
pub open spec fn described(handle: usize, buffer: Seq<u16>, flags: u32) -> MonitorView {
    described_by_name(handle, utf16_lossy(before_nul(buffer)), flags)
}

/// The number of code units before the first zero unit of `buffer`.
pub fn device_name_len(buffer: &[u16]) -> (len: usize)
    ensures
        len <= buffer.len(),
        buffer@.take(len as int) == before_nul(buffer@),
{
    let mut i: usize = 0;
    assert(buffer@.skip(0) =~= buffer@);
    while i < buffer.len() && buffer[i] != 0
        invariant
            i <= buffer.len(),
            before_nul(buffer@) == buffer@.take(i as int) + before_nul(buffer@.skip(i as int)),
        decreases buffer.len() - i,
    {
        // One more unit belongs to the name: it moves from the rest to the front.
        assert(buffer@.skip(i as int).skip(1) =~= buffer@.skip(i + 1));
        i += 1;
    }
    // Here the buffer ends or a zero unit comes: nothing more belongs to the name.
    assert(before_nul(buffer@.skip(i as int)) =~= Seq::<u16>::empty());
    i
}

impl MonitorInfo {
    /// Describes one display from what the system's enumeration reports of
    /// it: the value of its handle, its device-name buffer and its flags.
    pub fn from_raw(handle: usize, buffer: &[u16], flags: u32) -> (monitor: Self)
        ensures
            monitor@ == described(handle, buffer@, flags),
    {
        let len = device_name_len(buffer);
        let device_name = decode_utf16_lossy(slice_subrange(buffer, 0, len));
        MonitorInfo::from_parts(handle, device_name, flags)
    }

    /// Describes one display from the value of its handle, its device name
    /// and its flags.
    pub fn from_parts(handle: usize, device_name: String, flags: u32) -> (monitor: Self)
        ensures
            monitor@ == described_by_name(handle, device_name@, flags),
    {
        let is_primary = (flags & 1) != 0;
        let name = if is_primary {
            device_name.clone().concat(" (Primary)")
        } else {
            device_name.clone()
        };
        MonitorInfo { id: decimal_string(handle as u128), name, device_name, is_primary }
    }

    /// The device name in the form the system's device-context call takes:
    /// UTF-16 code units and a closing zero.
    pub fn device_name_wide(&self) -> (wide: Vec<u16>)
        ensures
            wide@ == utf16_units(self.device_name@).push(0u16),
    {
        let mut wide = encode_utf16(self.device_name.as_str());
        wide.push(0);
        wide
    }
}

/// The first place at which `marks` holds `true`.
pub open spec fn first_marked(marks: Seq<bool>) -> Option<int>
    decreases marks.len(),
{
    if marks.len() == 0 {
        None
    } else {
        match first_marked(marks.drop_last()) {
            Some(i) => Some(i),
            None => if marks.last() {
                Some(marks.len() - 1)
            } else {
                None
            },
        }
    }
}

/// For each display, whether it has the identifier `id`.
pub open spec fn id_marks(monitors: Seq<MonitorView>, id: Seq<char>) -> Seq<bool> {
    Seq::new(monitors.len(), |i: int| monitors[i].id == id)
}

/// For each display, whether it is flagged primary.
pub open spec fn primary_marks(monitors: Seq<MonitorView>) -> Seq<bool> {
    Seq::new(monitors.len(), |i: int| monitors[i].is_primary)
}

/// The first place in `monitors` whose display has the identifier `id`.
pub open spec fn first_with_id(monitors: Seq<MonitorView>, id: Seq<char>) -> Option<int> {
    first_marked(id_marks(monitors, id))
}

/// The first place in `monitors` whose display is flagged primary.
pub open spec fn first_primary(monitors: Seq<MonitorView>) -> Option<int> {
    first_marked(primary_marks(monitors))
}

/// The place of the target display: the first display with the wanted
/// identifier, if one is wanted and found; else the first primary display;
/// else the first display; nothing only for an empty list.
pub open spec fn target_index(monitors: Seq<MonitorView>, id: Option<Seq<char>>) -> Option<int> {
    if id is Some && first_with_id(monitors, id.unwrap()) is Some {
        first_with_id(monitors, id.unwrap())
    } else if first_primary(monitors) is Some {
        first_primary(monitors)
    } else if monitors.len() > 0 {
        Some(0)
    } else {
        None
    }
}

/// The target display itself.
pub open spec fn target(monitors: Seq<MonitorView>, id: Option<Seq<char>>) -> Option<MonitorView> {
    match target_index(monitors, id) {
        Some(i) => Some(monitors[i]),
        None => None,
    }
}

/// A place that `first_marked` gives lies in the run and is marked, and no
/// earlier place is; where it gives none, no place is marked.
pub proof fn lemma_first_marked(marks: Seq<bool>)
    ensures
        match first_marked(marks) {
            Some(i) => 0 <= i < marks.len() && marks[i] && forall|j: int| 0 <= j < i ==> !marks[j],
            None => forall|j: int| 0 <= j < marks.len() ==> !marks[j],
        },
    decreases marks.len(),
{
    if marks.len() > 0 {
        lemma_first_marked(marks.drop_last());
        assert forall|j: int| 0 <= j < marks.len() - 1 implies marks.drop_last()[j] == marks[j] by {}
    }
}

/// A mark that is found in the beginning of a run is the first one of the
/// whole run.
proof fn lemma_first_marked_stays(marks: Seq<bool>, k: int)
    requires
        0 <= k <= marks.len(),
        first_marked(marks.take(k)) is Some,
    ensures
        first_marked(marks) == first_marked(marks.take(k)),
    decreases marks.len() - k,
{
    if k < marks.len() {
        assert(marks.take(k + 1).drop_last() =~= marks.take(k));
        lemma_first_marked_stays(marks, k + 1);
    } else {
        assert(marks.take(k) =~= marks);
    }
}

/// A target is found in every list that holds a display, whatever identifier
/// is asked for; and the target is a display of the list.
pub proof fn lemma_target_found(monitors: Seq<MonitorView>, id: Option<Seq<char>>)
    ensures
        target(monitors, id) is None <==> monitors.len() == 0,
        target_index(monitors, id) is Some ==> 0 <= target_index(monitors, id).unwrap()
            < monitors.len(),
{
    if id is Some {
        lemma_first_marked(id_marks(monitors, id.unwrap()));
    }
    lemma_first_marked(primary_marks(monitors));
}

/// Asking for an identifier that no display has gives the same target as
/// asking for none: the primary display, or the first one. In a list that
/// holds a display the target is never missing.
pub proof fn lemma_unknown_id_falls_through(monitors: Seq<MonitorView>, id: Seq<char>)
    requires
        first_with_id(monitors, id) is None,
    ensures
        target(monitors, Some(id)) == target(monitors, None),
        monitors.len() > 0 ==> target(monitors, Some(id)) is Some,
{
    lemma_target_found(monitors, Some(id));
}

fn position_with_id(monitors: &[MonitorInfo], id: &str) -> (at: Option<usize>)
    ensures
        at is Some == first_with_id(monitor_views(monitors@), id@) is Some,
        at is Some ==> at.unwrap() == first_with_id(monitor_views(monitors@), id@).unwrap(),
{
    let ghost marks = id_marks(monitor_views(monitors@), id@);
    let mut i: usize = 0;
    while i < monitors.len()
        invariant
            i <= monitors.len(),
            marks == id_marks(monitor_views(monitors@), id@),
            first_marked(marks.take(i as int)) is None,
        decreases monitors.len() - i,
    {
        assert(marks.take(i + 1).drop_last() =~= marks.take(i as int));
        if same_text(monitors[i].id.as_str(), id) {
            proof {
                lemma_first_marked_stays(marks, i + 1);
            }
            return Some(i);
        }
        i += 1;
    }
    assert(marks.take(i as int) =~= marks);
    None
}

fn position_primary(monitors: &[MonitorInfo]) -> (at: Option<usize>)
    ensures
        at is Some == first_primary(monitor_views(monitors@)) is Some,
        at is Some ==> at.unwrap() == first_primary(monitor_views(monitors@)).unwrap(),
{
    let ghost marks = primary_marks(monitor_views(monitors@));
    let mut i: usize = 0;
    while i < monitors.len()
        invariant
            i <= monitors.len(),
            marks == primary_marks(monitor_views(monitors@)),
            first_marked(marks.take(i as int)) is None,
        decreases monitors.len() - i,
    {
        assert(marks.take(i + 1).drop_last() =~= marks.take(i as int));
        if monitors[i].is_primary {
            proof {
                lemma_first_marked_stays(marks, i + 1);
            }
            return Some(i);
        }
        i += 1;
    }
    assert(marks.take(i as int) =~= marks);
    None
}

/// Picks the target display: the one with the identifier `id`, if `id` is
/// given and such a display is attached; else the primary display; else the
/// first display. Only an empty list gives `None`.
pub fn find_monitor(monitors: &[MonitorInfo], id: Option<&str>) -> (found: Option<MonitorInfo>)
    ensures
        found is Some == target(monitor_views(monitors@), view_of(id)) is Some,
        found is Some ==> found.unwrap()@ == target(monitor_views(monitors@), view_of(id)).unwrap(),
        found is None <==> monitors@.len() == 0,
{
    proof {
        lemma_target_found(monitor_views(monitors@), view_of(id));
    }
    let by_id = match id {
        Some(id) => position_with_id(monitors, id),
        None => None,
    };
    let at = match by_id {
        Some(i) => Some(i),
        None => match position_primary(monitors) {
            Some(i) => Some(i),
            None => if monitors.len() > 0 {
                Some(0)
            } else {
                None
            },
        },
    };
    match at {
        Some(i) => Some(monitors[i].clone()),
        None => None,
    }
}

/// The characters of an identifier that may be absent.
pub open spec fn view_of(id: Option<&str>) -> Option<Seq<char>> {
    match id {
        Some(id) => Some(id@),
        None => None,
    }
}

/// The displays with the primary ones first; among the primary ones, and
/// among the others, the order of enumeration stays.
pub open spec fn primary_first_order(monitors: Seq<MonitorView>) -> Seq<MonitorView> {
    monitors.filter(|m: MonitorView| m.is_primary) + monitors.filter(
        |m: MonitorView| !m.is_primary,
    )
}

/// In an ordered enumeration the target that is picked without an
/// identifier is the display at the front.
pub proof fn lemma_ordered_target_is_first(monitors: Seq<MonitorView>)
    requires
        monitors.len() > 0,
    ensures
        primary_first_order(monitors).len() == monitors.len(),
        target(primary_first_order(monitors), None) == Some(primary_first_order(monitors)[0]),
{
    let is_primary = |m: MonitorView| m.is_primary;
    let is_other = |m: MonitorView| !m.is_primary;
    let marks = primary_marks(primary_first_order(monitors));
    lemma_filter_halves(monitors);
    lemma_first_marked(marks);
    if monitors.filter(is_primary).len() > 0 {
        // The front is a primary display, so it is the first primary one.
        monitors.lemma_filter_pred(is_primary, 0);
        assert(marks[0]);
    } else {
        // No display is primary, so the front is taken as it is.
        assert forall|j: int| 0 <= j < marks.len() implies !marks[j] by {
            monitors.lemma_filter_pred(is_other, j);
        }
    }
}

/// The primary displays and the others together are all displays.
proof fn lemma_filter_halves(monitors: Seq<MonitorView>)
    ensures
        monitors.filter(|m: MonitorView| m.is_primary).len() + monitors.filter(
            |m: MonitorView| !m.is_primary,
        ).len() == monitors.len(),
    decreases monitors.len(),
{
    reveal_with_fuel(Seq::filter, 2);
    if monitors.len() > 0 {
        lemma_filter_halves(monitors.drop_last());
    }
}

/// Orders an enumeration: primary displays first, otherwise as enumerated.
pub fn primary_first(monitors: &[MonitorInfo]) -> (ordered: Vec<MonitorInfo>)
    ensures
        monitor_views(ordered@) == primary_first_order(monitor_views(monitors@)),
{
    let ghost all = monitor_views(monitors@);
    let ghost is_primary = |m: MonitorView| m.is_primary;
    let ghost is_other = |m: MonitorView| !m.is_primary;
    let mut ordered: Vec<MonitorInfo> = Vec::new();
    let mut others: Vec<MonitorInfo> = Vec::new();
    let mut i: usize = 0;
    while i < monitors.len()
        invariant
            i <= monitors.len(),
            all == monitor_views(monitors@),
            is_primary == |m: MonitorView| m.is_primary,
            is_other == |m: MonitorView| !m.is_primary,
            monitor_views(ordered@) == all.take(i as int).filter(is_primary),
            monitor_views(others@) == all.take(i as int).filter(is_other),
        decreases monitors.len() - i,
    {
        let copy = monitors[i].clone();
        proof {
            assert(all.take(i + 1).drop_last() =~= all.take(i as int));
            reveal_with_fuel(Seq::filter, 2);
        }
        if monitors[i].is_primary {
            ordered.push(copy);
        } else {
            others.push(copy);
        }
        i += 1;
    }
    assert(all.take(i as int) =~= all);
    let ghost firsts = monitor_views(ordered@);
    let ghost seconds = monitor_views(others@);
    let mut k: usize = 0;
    while k < others.len()
        invariant
            k <= others.len(),
            seconds == monitor_views(others@),
            monitor_views(ordered@) == firsts + seconds.take(k as int),
        decreases others.len() - k,
    {
        let ghost before = ordered@;
        let copy = others[k].clone();
        ordered.push(copy);
        assert(monitor_views(ordered@) =~= monitor_views(before).push(copy@));
        k += 1;
    }
    ordered
}

/// What the system's enumeration reports of one display: the value of its
/// handle, its device-name buffer and its flags.
#[derive(Debug)]
pub struct MonitorReport {
    pub handle: usize,
    pub device_name: Vec<u16>,
    pub flags: u32,
}

/// What is known of each reported display, in the order of the reports.
pub open spec fn reported(reports: Seq<MonitorReport>) -> Seq<MonitorView> {
    reports.map_values(|r: MonitorReport| described(r.handle, r.device_name@, r.flags))
}

/// The list of monitors for what an enumeration reported: one for each
/// report, primary displays first, otherwise in the order of the reports. An
/// enumeration that reported nothing gives an empty list.
pub fn enumerate_monitors(reports: &[MonitorReport]) -> (monitors: Vec<MonitorInfo>)
    ensures
        monitor_views(monitors@) == primary_first_order(reported(reports@)),
{
    let mut found: Vec<MonitorInfo> = Vec::new();
    let mut i: usize = 0;
    while i < reports.len()
        invariant
            i <= reports.len(),
            monitor_views(found@) == reported(reports@).take(i as int),
        decreases reports.len() - i,
    {
        let ghost before = found@;
        let monitor = MonitorInfo::from_raw(
            reports[i].handle,
            reports[i].device_name.as_slice(),
            reports[i].flags,
        );
        found.push(monitor);
        assert(monitor_views(found@) =~= monitor_views(before).push(reported(reports@)[i as int]));
        i += 1;
    }
    assert(reported(reports@).take(i as int) =~= reported(reports@));
    primary_first(found.as_slice())
}

/// Whether the stored selection has to be replaced: nothing is selected, or
/// no attached display has the selected identifier.
pub open spec fn selection_lost(monitors: Seq<MonitorView>, selected: Seq<char>) -> bool {
    selected.len() == 0 || first_with_id(monitors, selected) is None
}

/// The identifier to select when the program starts: that of the primary
/// display, or of the first one, where the stored selection is lost and a
/// display is attached. `None` says that the stored selection stays.
pub fn initial_selection(monitors: &[MonitorInfo], selected: &str) -> (choice: Option<String>)
    ensures
        choice is Some == (selection_lost(monitor_views(monitors@), selected@) && monitors@.len()
            > 0),
        choice is Some ==> choice.unwrap()@ == target(
            monitor_views(monitors@),
            None,
        ).unwrap().id,
{
    if !selected.is_empty() && position_with_id(monitors, selected).is_some() {
        return None;
    }
    match find_monitor(monitors, None) {
        Some(monitor) => Some(monitor.id),
        None => None,
    }
}

} // verus!
