//! The decisions of the settings window: recording a shortcut from a key
//! press, flagging shortcuts that more than one device uses, and what each
//! row of the shortcut table shows.
use crate::settings::{Settings, Shortcut, ShortcutView, Shortcuts};
use crate::text::str_equal;
use vstd::prelude::*;

verus! {

/// The pair at `i` shares its shortcut text with another pair.
pub open spec fn has_duplicate(ps: Seq<(Seq<char>, ShortcutView)>, i: int) -> bool {
    exists|j: int| 0 <= j < ps.len() && j != i && #[trigger] ps[j].1.label() == ps[i].1.label()
}

/// The ids of the pairs among the first `n` that have a duplicate, in order.
pub open spec fn duplicate_ids_upto(ps: Seq<(Seq<char>, ShortcutView)>, n: int) -> Seq<Seq<char>>
    decreases n,
{
    if n <= 0 {
        Seq::empty()
    } else {
        let prev = duplicate_ids_upto(ps, n - 1);
        if has_duplicate(ps, n - 1) {
            prev.push(ps[n - 1].0)
        } else {
            prev
        }
    }
}

/// The ids of the pairs that share their shortcut text with another pair, in
/// the order of the pairs.
pub open spec fn duplicate_ids(ps: Seq<(Seq<char>, ShortcutView)>) -> Seq<Seq<char>> {
    duplicate_ids_upto(ps, ps.len() as int)
}

/// The ids that [`duplicate_ids_upto`] picks are those of the pairs with a
/// duplicate, and there are at most `n` of them.
pub proof fn lemma_duplicate_ids(ps: Seq<(Seq<char>, ShortcutView)>, n: int)
    requires
        0 <= n <= ps.len(),
    ensures
        duplicate_ids_upto(ps, n).len() <= n,
        forall|k: Seq<char>|
            #[trigger] duplicate_ids_upto(ps, n).contains(k) <==> exists|i: int|
                0 <= i < n && #[trigger] ps[i].0 == k && has_duplicate(ps, i),
    decreases n,
{
    if n > 0 {
        lemma_duplicate_ids(ps, n - 1);
        let prev = duplicate_ids_upto(ps, n - 1);
        let cur = duplicate_ids_upto(ps, n);
        assert forall|k: Seq<char>|
            #[trigger] cur.contains(k) <==> exists|i: int|
                0 <= i < n && #[trigger] ps[i].0 == k && has_duplicate(ps, i) by {
            if cur.contains(k) {
                let q = choose|q: int| 0 <= q < cur.len() && cur[q] == k;
                if q < prev.len() {
                    assert(prev[q] == k);
                    assert(prev.contains(k));
                } else {
                    assert(ps[n - 1].0 == k);
                }
            }
            if exists|i: int| 0 <= i < n && #[trigger] ps[i].0 == k && has_duplicate(ps, i) {
                let i = choose|i: int| 0 <= i < n && #[trigger] ps[i].0 == k && has_duplicate(ps, i);
                if i < n - 1 {
                    assert(prev.contains(k));
                    let q = choose|q: int| 0 <= q < prev.len() && prev[q] == k;
                    assert(cur[q] == k);
                } else {
                    assert(cur[cur.len() - 1] == k);
                }
            }
        }
    }
}

/// The ids of the devices whose shortcut reads the same as another device's,
/// in the order in which the settings hold them. Only one of them can work.
pub fn duplicate_shortcut_devices(shortcuts: &Shortcuts) -> (dups: Vec<String>)
    ensures
        strings_view(dups@) == duplicate_ids(shortcuts.pairs()),
        dups@.len() <= shortcuts.pairs().len(),
        forall|k: Seq<char>|
            #[trigger] strings_view(dups@).contains(k) <==> exists|i: int|
                0 <= i < shortcuts.pairs().len() && #[trigger] shortcuts.pairs()[i].0 == k
                    && has_duplicate(shortcuts.pairs(), i),
{
    let ghost ps = shortcuts.pairs();
    let n = shortcuts.len();
    let mut labels: Vec<String> = Vec::new();
    let mut i: usize = 0;
    while i < n
        invariant
            n == ps.len(),
            ps == shortcuts.pairs(),
            0 <= i <= n,
            labels@.len() == i,
            forall|j: int| 0 <= j < i ==> #[trigger] labels@[j]@ == ps[j].1.label(),
        decreases n - i,
    {
        let (_, s) = shortcuts.pair_at(i);
        labels.push(s.to_string());
        i += 1;
    }
    let mut dups: Vec<String> = Vec::new();
    let mut i: usize = 0;
    while i < n
        invariant
            n == ps.len(),
            ps == shortcuts.pairs(),
            0 <= i <= n,
            labels@.len() == n,
            forall|j: int| 0 <= j < n ==> #[trigger] labels@[j]@ == ps[j].1.label(),
            strings_view(dups@) == duplicate_ids_upto(ps, i as int),
        decreases n - i,
    {
        let mut found = false;
        let mut j: usize = 0;
        while j < n
            invariant
                n == ps.len(),
                0 <= i < n,
                0 <= j <= n,
                labels@.len() == n,
                forall|t: int| 0 <= t < n ==> #[trigger] labels@[t]@ == ps[t].1.label(),
                found == exists|t: int| 0 <= t < j && t != i && #[trigger] ps[t].1.label() == ps[i as int].1.label(),
            decreases n - j,
        {
            if j != i && str_equal(labels[j].as_str(), labels[i].as_str()) {
                found = true;
            }
            j += 1;
        }
        assert(found == has_duplicate(ps, i as int));
        if found {
            let (id, _) = shortcuts.pair_at(i);
            let ghost before = strings_view(dups@);
            dups.push(id.clone());
            assert(strings_view(dups@) =~= before.push(ps[i as int].0));
        }
        i += 1;
    }
    proof {
        lemma_duplicate_ids(ps, n as int);
        assert(strings_view(dups@).len() == dups@.len());
    }
    dups
}

/// What the shortcut column shows for a device.
#[derive(Debug, PartialEq, Eq)]
pub enum ShortcutCell {
    /// Waiting for the user to press the new shortcut.
    Capturing,
    /// The device's shortcut, and whether another device uses the same one.
    Assigned { text: String, duplicate: bool },
    /// No shortcut.
    Unassigned,
}

/// The view of a list of strings.
pub open spec fn strings_view(v: Seq<String>) -> Seq<Seq<char>> {
    v.map_values(|s: String| s@)
}

/// Whether `v` holds the string `s`.
pub fn contains_string(v: &Vec<String>, s: &str) -> (r: bool)
    ensures
        r == strings_view(v@).contains(s@),
{
    let mut i: usize = 0;
    while i < v.len()
        invariant
            0 <= i <= v@.len(),
            forall|j: int| 0 <= j < i ==> #[trigger] v@[j]@ != s@,
        decreases v@.len() - i,
    {
        if str_equal(v[i].as_str(), s) {
            assert(strings_view(v@)[i as int] == s@);
            return true;
        }
        i += 1;
    }
    proof {
        if strings_view(v@).contains(s@) {
            let j = choose|j: int| 0 <= j < v@.len() && strings_view(v@)[j] == s@;
            assert(v@[j]@ == s@);
        }
    }
    false
}

/// The shortcut column of the row of `device_id`: the capture prompt while
/// this device's shortcut is being recorded; otherwise the device's shortcut,
/// flagged when it is among `duplicates`; otherwise nothing.
pub fn shortcut_cell(
    shortcuts: &Shortcuts,
    device_id: &str,
    capturing: &Option<String>,
    duplicates: &Vec<String>,
) -> (cell: ShortcutCell)
    ensures
        (capturing matches Some(c) && c@ == device_id@) ==> cell is Capturing,
        !(capturing matches Some(c) && c@ == device_id@) ==> match cell {
            ShortcutCell::Assigned { text, duplicate } => shortcuts@.contains_key(device_id@)
                && text@ == shortcuts@[device_id@].label() && duplicate == strings_view(
                duplicates@,
            ).contains(device_id@),
            ShortcutCell::Unassigned => !shortcuts@.contains_key(device_id@),
            ShortcutCell::Capturing => false,
        },
{
    let is_capturing = match capturing {
        Some(c) => str_equal(c.as_str(), device_id),
        None => false,
    };
    if is_capturing {
        return ShortcutCell::Capturing;
    }
    match shortcuts.get(device_id) {
        Some(s) => ShortcutCell::Assigned {
            text: s.to_string(),
            duplicate: contains_string(duplicates, device_id),
        },
        None => ShortcutCell::Unassigned,
    }
}

/// What a key press did while the settings window was recording a shortcut.
#[derive(Debug, PartialEq, Eq, Clone, Copy, Structural)]
pub enum CaptureOutcome {
    /// Nothing was being recorded, or the key came without Ctrl, Alt or
    /// Shift; keep listening.
    Ignored,
    /// Escape ended the recording without a change.
    Cancelled,
    /// The combination is now the device's shortcut and the recording ended.
    Assigned,
}

/// A key press while the shortcut of the device in `capturing` is being
/// recorded. Escape cancels; a key without Ctrl, Alt or Shift is ignored; any
/// other combination becomes the device's shortcut (without the Win key).
pub fn capture_key(
    settings: &mut Settings,
    capturing: &mut Option<String>,
    key_name: &str,
    ctrl: bool,
    alt: bool,
    shift: bool,
) -> (outcome: CaptureOutcome)
    ensures
        (*old(capturing)) is None ==> outcome == CaptureOutcome::Ignored,
        outcome == CaptureOutcome::Ignored ==> *final(capturing) == *old(capturing)
            && final(settings).shortcuts@ == old(settings).shortcuts@,
        (*old(capturing)) is Some && key_name@ == "Escape"@ ==> outcome == CaptureOutcome::Cancelled,
        (*old(capturing)) is Some && key_name@ != "Escape"@ && !ctrl && !alt && !shift ==> outcome
            == CaptureOutcome::Ignored,
        outcome == CaptureOutcome::Cancelled ==> (*final(capturing)) is None
            && final(settings).shortcuts@ == old(settings).shortcuts@,
        (*old(capturing)) is Some && key_name@ != "Escape"@ && (ctrl || alt || shift) ==> outcome
            == CaptureOutcome::Assigned,
        outcome == CaptureOutcome::Assigned ==> (*final(capturing)) is None && final(settings).shortcuts@
            == old(settings).shortcuts@.insert(
            (*old(capturing))->0@,
            ShortcutView { ctrl, alt, shift, win_key: false, key: key_name@ },
        ),
        final(settings).play_sound == old(settings).play_sound,
        final(settings).show_toast == old(settings).show_toast,
        final(settings).toast_fade == old(settings).toast_fade,
        final(settings).toast_duration_ms == old(settings).toast_duration_ms,
        final(settings).toast_opacity_bits == old(settings).toast_opacity_bits,
        final(settings).theme == old(settings).theme,
        final(settings).toast_position == old(settings).toast_position,
{
    let device_id = match capturing {
        Some(d) => d.clone(),
        None => {
            return CaptureOutcome::Ignored;
        },
    };
    if str_equal(key_name, "Escape") {
        *capturing = None;
        return CaptureOutcome::Cancelled;
    }
    if !ctrl && !alt && !shift {
        return CaptureOutcome::Ignored;
    }
    let shortcut = Shortcut { ctrl, alt, shift, win_key: false, key: key_name.to_string() };
    settings.shortcuts.insert(device_id, shortcut);
    *capturing = None;
    CaptureOutcome::Assigned
}

} // verus!
