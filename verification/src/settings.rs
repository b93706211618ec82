//! User settings: appearance, notification options and the keyboard shortcut
//! assigned to each audio device.
use crate::assoc::{
    assoc_map, keys_distinct, lemma_assoc_map_dom, lemma_assoc_map_index, lemma_assoc_map_len,
    lemma_assoc_map_remove, lemma_assoc_map_update, lemma_assoc_push_distinct,
};
use crate::text::str_equal;
use vstd::prelude::*;

verus! {

/// Colour scheme of the windows and menus.
#[derive(Clone, Copy, PartialEq, Eq, Debug, Structural)]
pub enum Theme {
    System,
    Dark,
    Light,
}

/// Corner or edge of the work area where the switch notification appears.
#[derive(Clone, Copy, PartialEq, Eq, Debug, Structural)]
pub enum ToastPosition {
    TopLeft,
    TopCenter,
    TopRight,
    BottomLeft,
    BottomCenter,
    BottomRight,
}

impl Theme {
    /// The name shown for the theme.
    pub open spec fn label(self) -> Seq<char> {
        match self {
            Theme::System => "System"@,
            Theme::Dark => "Dark"@,
            Theme::Light => "Light"@,
        }
    }

    /// The name shown for the theme, as text.
    pub fn to_string(&self) -> (s: String)
        ensures
            s@ == self.label(),
    {
        match self {
            Theme::System => "System".to_string(),
            Theme::Dark => "Dark".to_string(),
            Theme::Light => "Light".to_string(),
        }
    }

    /// Every theme, in declaration order.
    pub fn all() -> (v: Vec<Theme>)
        ensures
            v@ == seq![Theme::System, Theme::Dark, Theme::Light],
    {
        vec![Theme::System, Theme::Dark, Theme::Light]
    }
}

impl ToastPosition {
    /// The name shown for the position.
    pub open spec fn label(self) -> Seq<char> {
        match self {
            ToastPosition::TopLeft => "Top left"@,
            ToastPosition::TopCenter => "Top center"@,
            ToastPosition::TopRight => "Top right"@,
            ToastPosition::BottomLeft => "Bottom left"@,
            ToastPosition::BottomCenter => "Bottom center"@,
            ToastPosition::BottomRight => "Bottom right"@,
        }
    }

    /// The name shown for the position, as text.
    pub fn to_string(&self) -> (s: String)
        ensures
            s@ == self.label(),
    {
        match self {
            ToastPosition::TopLeft => "Top left".to_string(),
            ToastPosition::TopCenter => "Top center".to_string(),
            ToastPosition::TopRight => "Top right".to_string(),
            ToastPosition::BottomLeft => "Bottom left".to_string(),
            ToastPosition::BottomCenter => "Bottom center".to_string(),
            ToastPosition::BottomRight => "Bottom right".to_string(),
        }
    }

    /// Every position, in declaration order.
    pub fn all() -> (v: Vec<ToastPosition>)
        ensures
            v@ == seq![
                ToastPosition::TopLeft,
                ToastPosition::TopCenter,
                ToastPosition::TopRight,
                ToastPosition::BottomLeft,
                ToastPosition::BottomCenter,
                ToastPosition::BottomRight,
            ],
    {
        vec![
            ToastPosition::TopLeft,
            ToastPosition::TopCenter,
            ToastPosition::TopRight,
            ToastPosition::BottomLeft,
            ToastPosition::BottomCenter,
            ToastPosition::BottomRight,
        ]
    }
}

/// A key combination: modifier flags and the name of the main key, as the
/// settings window records it.
#[derive(Clone, Debug)]
pub struct Shortcut {
    pub ctrl: bool,
    pub alt: bool,
    pub shift: bool,
    pub win_key: bool,
    pub key: String,
}

/// The mathematical value of a [`Shortcut`].
pub struct ShortcutView {
    pub ctrl: bool,
    pub alt: bool,
    pub shift: bool,
    pub win_key: bool,
    pub key: Seq<char>,
}

impl View for Shortcut {
    type V = ShortcutView;

    open spec fn view(&self) -> ShortcutView {
        ShortcutView {
            ctrl: self.ctrl,
            alt: self.alt,
            shift: self.shift,
            win_key: self.win_key,
            key: self.key@,
        }
    }
}

impl ShortcutView {
    /// How the shortcut is written: the pressed modifiers, each followed by
    /// `+`, in the order Ctrl, Alt, Shift, Win, then the key name.
    pub open spec fn label(self) -> Seq<char> {
        (if self.ctrl {
            "Ctrl+"@
        } else {
            Seq::empty()
        }) + (if self.alt {
            "Alt+"@
        } else {
            Seq::empty()
        }) + (if self.shift {
            "Shift+"@
        } else {
            Seq::empty()
        }) + (if self.win_key {
            "Win+"@
        } else {
            Seq::empty()
        }) + self.key
    }
}

/// `w` when `on`, nothing otherwise.
spec fn word_if(on: bool, w: Seq<char>) -> Seq<char> {
    if on {
        w
    } else {
        Seq::empty()
    }
}

/// The modifier part of a shortcut's text.
spec fn modifiers_text(ctrl: bool, alt: bool, shift: bool, win: bool) -> Seq<char> {
    word_if(ctrl, "Ctrl+"@) + word_if(alt, "Alt+"@) + word_if(shift, "Shift+"@) + word_if(
        win,
        "Win+"@,
    )
}

/// No `+` in `k`.
pub open spec fn has_no_plus(k: Seq<char>) -> bool {
    forall|i: int| 0 <= i < k.len() ==> k[i] != '+'
}

/// The modifier text can be read back: each word starts with its own letter,
/// and a non-empty modifier text ends with `+`.
proof fn lemma_modifiers_text_decode(ctrl: bool, alt: bool, shift: bool, win: bool)
    ensures
        ({
            let p = modifiers_text(ctrl, alt, shift, win);
            let p1 = word_if(alt, "Alt+"@) + word_if(shift, "Shift+"@) + word_if(win, "Win+"@);
            let p2 = word_if(shift, "Shift+"@) + word_if(win, "Win+"@);
            let p3 = word_if(win, "Win+"@);
            &&& ctrl == (p.len() > 0 && p[0] == 'C')
            &&& (if ctrl { p.skip(5) } else { p }) == p1
            &&& alt == (p1.len() > 0 && p1[0] == 'A')
            &&& (if alt { p1.skip(4) } else { p1 }) == p2
            &&& shift == (p2.len() > 0 && p2[0] == 'S')
            &&& (if shift { p2.skip(6) } else { p2 }) == p3
            &&& win == (p3.len() > 0)
            &&& (p.len() > 0 ==> p[p.len() - 1] == '+')
        }),
{
    reveal_strlit("Ctrl+");
    reveal_strlit("Alt+");
    reveal_strlit("Shift+");
    reveal_strlit("Win+");
    let p = modifiers_text(ctrl, alt, shift, win);
    let p1 = word_if(alt, "Alt+"@) + word_if(shift, "Shift+"@) + word_if(win, "Win+"@);
    let p2 = word_if(shift, "Shift+"@) + word_if(win, "Win+"@);
    let p3 = word_if(win, "Win+"@);
    assert(p =~= word_if(ctrl, "Ctrl+"@) + p1);
    assert(p1 =~= word_if(alt, "Alt+"@) + p2);
    assert(p2 =~= word_if(shift, "Shift+"@) + p3);
    if ctrl {
        assert(p.skip(5) =~= p1);
    }
    if alt {
        assert(p1.skip(4) =~= p2);
    }
    if shift {
        assert(p2.skip(6) =~= p3);
    }
    if p.len() > 0 {
        if win {
            assert(p[p.len() - 1] == p3[p3.len() - 1]);
        } else if shift {
            assert(p[p.len() - 1] == p2[p2.len() - 1]);
        } else if alt {
            assert(p[p.len() - 1] == p1[p1.len() - 1]);
        }
    }
}

/// Different modifier sets are written differently.
proof fn lemma_modifiers_text_injective(
    c1: bool,
    a1: bool,
    s1: bool,
    w1: bool,
    c2: bool,
    a2: bool,
    s2: bool,
    w2: bool,
)
    requires
        modifiers_text(c1, a1, s1, w1) == modifiers_text(c2, a2, s2, w2),
    ensures
        c1 == c2 && a1 == a2 && s1 == s2 && w1 == w2,
{
    lemma_modifiers_text_decode(c1, a1, s1, w1);
    lemma_modifiers_text_decode(c2, a2, s2, w2);
}

/// A text made of a modifier part and a key without `+` splits back into
/// the two at the last `+`.
proof fn lemma_split_at_modifiers(pa: Seq<char>, ka: Seq<char>, pb: Seq<char>, kb: Seq<char>)
    requires
        pa.len() > 0 ==> pa[pa.len() - 1] == '+',
        pb.len() > 0 ==> pb[pb.len() - 1] == '+',
        has_no_plus(ka),
        has_no_plus(kb),
        pa + ka == pb + kb,
    ensures
        pa == pb,
        ka == kb,
{
    let l = pa + ka;
    if pa.len() < pb.len() {
        assert(l[pb.len() - 1] == (pb + kb)[pb.len() - 1]);
        assert(l[pb.len() - 1] == ka[pb.len() - 1 - pa.len()]);
    }
    if pb.len() < pa.len() {
        assert((pb + kb)[pa.len() - 1] == kb[pa.len() - 1 - pb.len()]);
        assert(l[pa.len() - 1] == pa[pa.len() - 1]);
    }
    assert(pa =~= l.take(pa.len() as int));
    assert(pb =~= (pb + kb).take(pb.len() as int));
    assert(ka =~= l.skip(pa.len() as int));
    assert(kb =~= (pb + kb).skip(pb.len() as int));
}

/// Law: the text of a shortcut tells which shortcut it is. Two shortcuts
/// whose key names hold no `+` (no key name that the settings window records
/// does) read the same only when they are the same key combination: each
/// modifier is written exactly when it is pressed, and the key name is what
/// follows the modifiers.
pub proof fn law_shortcut_text_identifies(a: ShortcutView, b: ShortcutView)
    requires
        has_no_plus(a.key),
        has_no_plus(b.key),
        a.label() == b.label(),
    ensures
        a == b,
{
    let pa = modifiers_text(a.ctrl, a.alt, a.shift, a.win_key);
    let pb = modifiers_text(b.ctrl, b.alt, b.shift, b.win_key);
    assert(a.label() == pa + a.key);
    assert(b.label() == pb + b.key);
    lemma_modifiers_text_decode(a.ctrl, a.alt, a.shift, a.win_key);
    lemma_modifiers_text_decode(b.ctrl, b.alt, b.shift, b.win_key);
    lemma_split_at_modifiers(pa, a.key, pb, b.key);
    lemma_modifiers_text_injective(a.ctrl, a.alt, a.shift, a.win_key, b.ctrl, b.alt, b.shift, b.win_key);
}

impl Shortcut {
    /// The shortcut as text, such as `Ctrl+Alt+K`.
    pub fn to_string(&self) -> (s: String)
        ensures
            s@ == self@.label(),
    {
        let mut s = String::new();
        if self.ctrl {
            s.append("Ctrl+");
        }
        if self.alt {
            s.append("Alt+");
        }
        if self.shift {
            s.append("Shift+");
        }
        if self.win_key {
            s.append("Win+");
        }
        s.append(self.key.as_str());
        assert(s@ =~= self@.label());
        s
    }

    /// A copy of the shortcut.
    pub fn duplicate(&self) -> (c: Shortcut)
        ensures
            c@ == self@,
    {
        Shortcut {
            ctrl: self.ctrl,
            alt: self.alt,
            shift: self.shift,
            win_key: self.win_key,
            key: self.key.clone(),
        }
    }
}

/// The shortcut assigned to each device, keyed by device id. A device has at
/// most one shortcut.
#[derive(Debug)]
pub struct Shortcuts {
    entries: Vec<(String, Shortcut)>,
}

impl Shortcuts {
    /// The (device id, shortcut) pairs in storage order.
    pub closed spec fn pairs(self) -> Seq<(Seq<char>, ShortcutView)> {
        self.entries@.map_values(|e: (String, Shortcut)| (e.0@, e.1@))
    }

    #[verifier::type_invariant]
    closed spec fn inv(self) -> bool {
        keys_distinct(self.pairs())
    }

    /// The table is what its pairs say: no device appears in two pairs, and
    /// the shortcut of each device is the one its pair holds. This ties the
    /// contracts stated over [`Self::pairs`] to those stated over the view.
    pub fn pairs_agree_with_view(&self)
        ensures
            keys_distinct(self.pairs()),
            self@ == assoc_map(self.pairs()),
    {
        proof {
            use_type_invariant(self);
        }
    }

    /// No shortcut assigned.
    pub fn new() -> (s: Shortcuts)
        ensures
            s@ == Map::<Seq<char>, ShortcutView>::empty(),
            s.pairs().len() == 0,
    {
        let s = Shortcuts { entries: Vec::new() };
        assert(s.pairs() =~= Seq::empty());
        s
    }

    /// The number of devices with a shortcut.
    pub fn len(&self) -> (n: usize)
        ensures
            n == self.pairs().len(),
    {
        self.entries.len()
    }

    /// The pair at `i` in storage order.
    pub fn pair_at(&self, i: usize) -> (r: (&String, &Shortcut))
        requires
            i < self.pairs().len(),
        ensures
            (r.0@, r.1@) == self.pairs()[i as int],
    {
        let e = &self.entries[i];
        (&e.0, &e.1)
    }

    /// The index of the pair for `device_id`, if there is one.
    fn find(&self, device_id: &str) -> (r: Option<usize>)
        ensures
            match r {
                Some(i) => i < self.pairs().len() && self.pairs()[i as int].0 == device_id@,
                None => !self@.contains_key(device_id@),
            },
    {
        proof {
            use_type_invariant(self);
        }
        let mut i: usize = 0;
        while i < self.entries.len()
            invariant
                0 <= i <= self.entries@.len(),
                self.pairs().len() == self.entries@.len(),
                forall|j: int| 0 <= j < i ==> #[trigger] self.pairs()[j].0 != device_id@,
            decreases self.entries@.len() - i,
        {
            if str_equal(self.entries[i].0.as_str(), device_id) {
                return Some(i);
            }
            i += 1;
        }
        proof {
            lemma_assoc_map_dom(self.pairs(), device_id@);
        }
        None
    }

    /// The shortcut of `device_id`, if it has one.
    pub fn get(&self, device_id: &str) -> (r: Option<&Shortcut>)
        ensures
            match r {
                Some(s) => self@.contains_key(device_id@) && self@[device_id@] == s@,
                None => !self@.contains_key(device_id@),
            },
    {
        proof {
            use_type_invariant(self);
        }
        match self.find(device_id) {
            Some(i) => {
                proof {
                    lemma_assoc_map_index(self.pairs(), i as int);
                }
                Some(&self.entries[i].1)
            },
            None => None,
        }
    }

    /// Whether `device_id` has a shortcut.
    pub fn contains_key(&self, device_id: &str) -> (r: bool)
        ensures
            r == self@.contains_key(device_id@),
    {
        proof {
            use_type_invariant(self);
        }
        match self.find(device_id) {
            Some(i) => {
                proof {
                    lemma_assoc_map_index(self.pairs(), i as int);
                }
                true
            },
            None => false,
        }
    }

    /// Assigns `shortcut` to `device_id`, replacing any earlier one. A new
    /// device goes after the existing ones; a replaced one keeps its place.
    pub fn insert(&mut self, device_id: String, shortcut: Shortcut)
        ensures
            final(self)@ == old(self)@.insert(device_id@, shortcut@),
            old(self)@.contains_key(device_id@) ==> final(self).pairs().len() == old(
                self,
            ).pairs().len(),
            !old(self)@.contains_key(device_id@) ==> final(self).pairs() == old(self).pairs().push(
                (device_id@, shortcut@),
            ),
    {
        proof {
            use_type_invariant(&*self);
        }
        let ghost old_pairs = self.pairs();
        let ghost sc_v = shortcut@;
        match self.find(device_id.as_str()) {
            Some(i) => {
                proof {
                    lemma_assoc_map_update(old_pairs, i as int, shortcut@);
                    lemma_assoc_map_index(old_pairs, i as int);
                }
                let mut entries: Vec<(String, Shortcut)> = Vec::new();
                std::mem::swap(&mut entries, &mut self.entries);
                entries.set(i, (device_id, shortcut));
                assert(entries@.map_values(|e: (String, Shortcut)| (e.0@, e.1@)) =~= old_pairs.update(
                    i as int,
                    (old_pairs[i as int].0, sc_v),
                ));
                self.entries = entries;
            },
            None => {
                proof {
                    lemma_assoc_push_distinct(old_pairs, device_id@, shortcut@);
                }
                let ghost pair = (device_id@, shortcut@);
                let mut entries: Vec<(String, Shortcut)> = Vec::new();
                std::mem::swap(&mut entries, &mut self.entries);
                entries.push((device_id, shortcut));
                assert(entries@.map_values(|e: (String, Shortcut)| (e.0@, e.1@)) =~= old_pairs.push(
                    pair,
                ));
                self.entries = entries;
                assert(old_pairs.push(pair).drop_last() =~= old_pairs);
            },
        }
    }

    /// Removes the shortcut of `device_id`; says whether there was one.
    pub fn remove(&mut self, device_id: &str) -> (removed: bool)
        ensures
            final(self)@ == old(self)@.remove(device_id@),
            removed == old(self)@.contains_key(device_id@),
    {
        proof {
            use_type_invariant(&*self);
        }
        let ghost old_pairs = self.pairs();
        match self.find(device_id) {
            Some(i) => {
                proof {
                    lemma_assoc_map_remove(old_pairs, i as int);
                    lemma_assoc_map_index(old_pairs, i as int);
                }
                let mut entries: Vec<(String, Shortcut)> = Vec::new();
                std::mem::swap(&mut entries, &mut self.entries);
                entries.remove(i);
                assert(entries@.map_values(|e: (String, Shortcut)| (e.0@, e.1@)) =~= old_pairs.remove(
                    i as int,
                ));
                self.entries = entries;
                true
            },
            None => {
                assert(old(self)@.remove(device_id@) =~= old(self)@);
                false
            },
        }
    }

    /// A copy of the table, with the pairs in the same order.
    pub fn duplicate(&self) -> (c: Shortcuts)
        ensures
            c@ == self@,
            c.pairs() == self.pairs(),
    {
        proof {
            use_type_invariant(self);
        }
        let mut entries: Vec<(String, Shortcut)> = Vec::new();
        let mut i: usize = 0;
        while i < self.entries.len()
            invariant
                0 <= i <= self.entries@.len(),
                entries@.map_values(|e: (String, Shortcut)| (e.0@, e.1@)) == self.pairs().take(
                    i as int,
                ),
            decreases self.entries@.len() - i,
        {
            let e = &self.entries[i];
            let ghost before = entries@.map_values(|e: (String, Shortcut)| (e.0@, e.1@));
            entries.push((e.0.clone(), e.1.duplicate()));
            assert(entries@.map_values(|e: (String, Shortcut)| (e.0@, e.1@)) =~= before.push(
                self.pairs()[i as int],
            ));
            assert(self.pairs().take(i + 1) =~= self.pairs().take(i as int).push(
                self.pairs()[i as int],
            ));
            i += 1;
        }
        assert(self.pairs().take(self.entries@.len() as int) =~= self.pairs());
        Shortcuts { entries }
    }

    /// Whether both tables assign the same shortcuts to the same devices,
    /// whatever the order in which they hold them.
    pub fn same_as(&self, other: &Shortcuts) -> (r: bool)
        ensures
            r == (self@ == other@),
    {
        proof {
            use_type_invariant(self);
            use_type_invariant(other);
            lemma_assoc_map_len(self.pairs());
            lemma_assoc_map_len(other.pairs());
        }
        if self.entries.len() != other.entries.len() {
            return false;
        }
        let mut i: usize = 0;
        while i < self.entries.len()
            invariant
                0 <= i <= self.entries@.len(),
                self.entries@.len() == self.pairs().len(),
                keys_distinct(self.pairs()),
                forall|j: int|
                    0 <= j < i ==> #[trigger] other@.contains_key(self.pairs()[j].0) && other@[self.pairs()[j].0]
                        == self.pairs()[j].1,
            decreases self.entries@.len() - i,
        {
            let e = &self.entries[i];
            assert(self.pairs()[i as int] == (e.0@, e.1@));
            match other.get(e.0.as_str()) {
                Some(s) => {
                    if !shortcut_equal(s, &e.1) {
                        proof {
                            lemma_assoc_map_index(self.pairs(), i as int);
                        }
                        return false;
                    }
                },
                None => {
                    proof {
                        lemma_assoc_map_index(self.pairs(), i as int);
                    }
                    return false;
                },
            }
            assert(other@.contains_key(self.pairs()[i as int].0) && other@[self.pairs()[i as int].0]
                == self.pairs()[i as int].1);
            assert forall|j: int| 0 <= j < i + 1 implies #[trigger] other@.contains_key(
                self.pairs()[j].0,
            ) && other@[self.pairs()[j].0] == self.pairs()[j].1 by {}
            i += 1;
        }
        proof {
            assert forall|k: Seq<char>| #[trigger] self@.contains_key(k) implies other@.contains_key(k)
                && other@[k] == self@[k] by {
                lemma_assoc_map_dom(self.pairs(), k);
                let j = choose|j: int| 0 <= j < self.pairs().len() && #[trigger] self.pairs()[j].0 == k;
                lemma_assoc_map_index(self.pairs(), j);
            }
            vstd::set_lib::lemma_subset_equality(self@.dom(), other@.dom());
            assert(self@ =~= other@);
        }
        true
    }

    /// Builds the table from (device id, shortcut) pairs, as if each were
    /// inserted in turn.
    pub fn from_pairs(pairs: Vec<(String, Shortcut)>) -> (s: Shortcuts)
        ensures
            s@ == assoc_map(pairs@.map_values(|e: (String, Shortcut)| (e.0@, e.1@))),
    {
        let ghost pv = pairs@.map_values(|e: (String, Shortcut)| (e.0@, e.1@));
        let mut s = Shortcuts::new();
        let mut rest = pairs;
        let mut taken: usize = 0;
        let ghost total = rest@;
        let n = rest.len();
        while rest.len() > 0
            invariant
                taken + rest@.len() == n,
                n == total.len(),
                pv == total.map_values(|e: (String, Shortcut)| (e.0@, e.1@)),
                rest@ == total.subrange(taken as int, n as int),
                s@ == assoc_map(pv.take(taken as int)),
            decreases rest@.len(),
        {
            let e = rest.remove(0);
            assert(e == total[taken as int]);
            let ghost ev = (e.0@, e.1@);
            s.insert(e.0, e.1);
            assert(pv.take(taken + 1).drop_last() =~= pv.take(taken as int));
            assert(pv.take(taken + 1).last() == ev);
            taken += 1;
            assert(rest@ =~= total.subrange(taken as int, n as int));
        }
        assert(pv.take(n as int) =~= pv);
        s
    }
}

impl View for Shortcuts {
    type V = Map<Seq<char>, ShortcutView>;

    closed spec fn view(&self) -> Map<Seq<char>, ShortcutView> {
        assoc_map(self.pairs())
    }
}

/// Law: reading the shortcut of a device gives back what was last assigned to
/// it, and assigning or clearing one device leaves every other device as it
/// was. `inserted` and `removed` are `before` after [`Shortcuts::insert`] of
/// `s` for `id` and after [`Shortcuts::remove`] of `id`, as their contracts
/// describe them.
pub proof fn law_shortcut_read_after_write(
    before: Shortcuts,
    inserted: Shortcuts,
    removed: Shortcuts,
    id: Seq<char>,
    other: Seq<char>,
    s: ShortcutView,
)
    requires
        inserted@ == before@.insert(id, s),
        removed@ == before@.remove(id),
        id != other,
    ensures
        inserted@.contains_key(id),
        inserted@[id] == s,
        !removed@.contains_key(id),
        inserted@.contains_key(other) == before@.contains_key(other),
        removed@.contains_key(other) == before@.contains_key(other),
        before@.contains_key(other) ==> inserted@[other] == before@[other] && removed@[other]
            == before@[other],
{
}

/// Whether two shortcuts are the same key combination.
pub fn shortcut_equal(a: &Shortcut, b: &Shortcut) -> (r: bool)
    ensures
        r == (a@ == b@),
{
    a.ctrl == b.ctrl && a.alt == b.alt && a.shift == b.shift && a.win_key == b.win_key
        && crate::text::str_equal(a.key.as_str(), b.key.as_str())
}

/// All user settings.
///
/// The toast opacity is a floating-point value between 0.1 and 1.0; the
/// library keeps its IEEE-754 single-precision bit pattern, so that it is
/// carried through unchanged, and leaves all arithmetic on it to the caller.
#[derive(Debug)]
pub struct Settings {
    pub play_sound: bool,
    pub show_toast: bool,
    pub toast_fade: bool,
    pub toast_duration_ms: u32,
    pub toast_opacity_bits: u32,
    pub theme: Theme,
    pub toast_position: ToastPosition,
    pub shortcuts: Shortcuts,
}

/// Bit pattern of the single-precision value 0.75.
pub const DEFAULT_TOAST_OPACITY_BITS: u32 = 0x3F40_0000;

impl Default for Settings {
    fn default() -> (s: Settings)
        ensures
            s.play_sound,
            s.show_toast,
            s.toast_fade,
            s.toast_duration_ms == 1000,
            s.toast_opacity_bits == DEFAULT_TOAST_OPACITY_BITS,
            s.theme == Theme::System,
            s.toast_position == ToastPosition::BottomCenter,
            s.shortcuts@ == Map::<Seq<char>, ShortcutView>::empty(),
    {
        Settings {
            play_sound: true,
            show_toast: true,
            toast_fade: true,
            toast_duration_ms: 1000,
            toast_opacity_bits: DEFAULT_TOAST_OPACITY_BITS,
            theme: Theme::System,
            toast_position: ToastPosition::BottomCenter,
            shortcuts: Shortcuts::new(),
        }
    }
}

/// Whether the operating system prefers a dark colour scheme. No preference
/// is read on this platform, so it is light.
pub open spec fn system_prefers_dark() -> bool {
    false
}

/// Detects whether the operating system is set to dark mode.
pub fn system_is_dark() -> (dark: bool)
    ensures
        dark == system_prefers_dark(),
{
    false
}

/// The Windows reading of the `AppsUseLightTheme` registry value: dark when
/// the value could be read and is 0; light otherwise.
pub fn dark_from_apps_use_light_theme(read_ok: bool, value: u32) -> (dark: bool)
    ensures
        dark == (read_ok && value == 0),
{
    read_ok && value == 0
}

/// Whether a theme comes out dark, given the system preference.
pub open spec fn theme_is_dark(theme: Theme, system_dark: bool) -> bool {
    match theme {
        Theme::Dark => true,
        Theme::Light => false,
        Theme::System => system_dark,
    }
}

/// What an edit of the settings changed.
#[derive(Debug, Clone, Copy, PartialEq, Eq, Structural)]
pub struct SettingsChange {
    /// The theme is different, so the window decorations follow it.
    pub theme_changed: bool,
    /// Some setting is different, so the settings are saved.
    pub changed: bool,
}

impl Settings {
    /// A copy of the settings.
    pub fn duplicate(&self) -> (c: Settings)
        ensures
            c.play_sound == self.play_sound,
            c.show_toast == self.show_toast,
            c.toast_fade == self.toast_fade,
            c.toast_duration_ms == self.toast_duration_ms,
            c.toast_opacity_bits == self.toast_opacity_bits,
            c.theme == self.theme,
            c.toast_position == self.toast_position,
            c.shortcuts@ == self.shortcuts@,
            c.shortcuts.pairs() == self.shortcuts.pairs(),
    {
        Settings {
            play_sound: self.play_sound,
            show_toast: self.show_toast,
            toast_fade: self.toast_fade,
            toast_duration_ms: self.toast_duration_ms,
            toast_opacity_bits: self.toast_opacity_bits,
            theme: self.theme,
            toast_position: self.toast_position,
            shortcuts: self.shortcuts.duplicate(),
        }
    }

    /// Compares the settings before and after an edit. The opacities are
    /// floating-point values, so whether they are equal is for the caller to
    /// say, in `opacity_equal`.
    pub fn change_from(&self, before: &Settings, opacity_equal: bool) -> (c: SettingsChange)
        ensures
            c.theme_changed == (self.theme != before.theme),
            c.changed == !(self.play_sound == before.play_sound && self.show_toast
                == before.show_toast && self.toast_fade == before.toast_fade
                && self.toast_duration_ms == before.toast_duration_ms && opacity_equal
                && self.theme == before.theme && self.toast_position == before.toast_position
                && self.shortcuts@ == before.shortcuts@),
    {
        let theme_changed = self.theme != before.theme;
        let same = self.play_sound == before.play_sound && self.show_toast == before.show_toast
            && self.toast_fade == before.toast_fade && self.toast_duration_ms
            == before.toast_duration_ms && opacity_equal && !theme_changed && self.toast_position
            == before.toast_position && self.shortcuts.same_as(&before.shortcuts);
        SettingsChange { theme_changed, changed: !same }
    }

    /// Resolves the theme to a concrete dark/light value.
    pub fn is_dark(&self) -> (dark: bool)
        ensures
            dark == theme_is_dark(self.theme, system_prefers_dark()),
    {
        match self.theme {
            Theme::Dark => true,
            Theme::Light => false,
            Theme::System => system_is_dark(),
        }
    }
}

} // verus!
