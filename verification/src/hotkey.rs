//! Global keyboard shortcuts: translating the key names that the settings
//! window records into key codes, the modifier flags of a shortcut, and the
//! table of registered hotkeys that maps a key press back to a device.
use crate::assoc::{assoc_map, keys_distinct, lemma_assoc_map_dom, lemma_assoc_map_index, lemma_assoc_map_len};
use crate::settings::{Shortcut, ShortcutView, Shortcuts};
use crate::text::{chars_equal_str, chars_of, parse_unsigned, parse_unsigned_range, string_from_chars};
use std::collections::HashMap;
use vstd::prelude::*;

verus! {

broadcast use vstd::std_specs::hash::group_hash_axioms;

/// A physical key, in the terms of the cross-platform hotkey library.
#[derive(Clone, Copy, PartialEq, Eq, Debug, Structural)]
pub enum KeyCode {
    /// The letter key `A` to `Z`, named by its upper-case letter.
    Letter(char),
    /// The function key `F1` to `F24`, named by its number.
    Function(u8),
    Space,
    Enter,
    Tab,
    Escape,
    Backspace,
    Delete,
    Insert,
    Home,
    End,
    PageUp,
    PageDown,
    ArrowUp,
    ArrowDown,
    ArrowLeft,
    ArrowRight,
    Minus,
    Equal,
    BracketLeft,
    BracketRight,
    Backslash,
    Semicolon,
    Quote,
    Comma,
    Period,
    Slash,
    Backquote,
}

/// An upper-case ASCII letter.
pub open spec fn is_upper_letter(c: char) -> bool {
    'A' <= c && c <= 'Z'
}

/// The keys that are named by a word rather than a letter or a number.
pub open spec fn named_key_code(k: Seq<char>) -> Option<KeyCode> {
    if k == "Space"@ {
        Some(KeyCode::Space)
    } else if k == "Enter"@ {
        Some(KeyCode::Enter)
    } else if k == "Tab"@ {
        Some(KeyCode::Tab)
    } else if k == "Escape"@ {
        Some(KeyCode::Escape)
    } else if k == "Backspace"@ {
        Some(KeyCode::Backspace)
    } else if k == "Delete"@ {
        Some(KeyCode::Delete)
    } else if k == "Insert"@ {
        Some(KeyCode::Insert)
    } else if k == "Home"@ {
        Some(KeyCode::Home)
    } else if k == "End"@ {
        Some(KeyCode::End)
    } else if k == "PageUp"@ {
        Some(KeyCode::PageUp)
    } else if k == "PageDown"@ {
        Some(KeyCode::PageDown)
    } else if k == "Up"@ {
        Some(KeyCode::ArrowUp)
    } else if k == "Down"@ {
        Some(KeyCode::ArrowDown)
    } else if k == "Left"@ {
        Some(KeyCode::ArrowLeft)
    } else if k == "Right"@ {
        Some(KeyCode::ArrowRight)
    } else if k == "Minus"@ {
        Some(KeyCode::Minus)
    } else if k == "Plus"@ || k == "Equals"@ {
        Some(KeyCode::Equal)
    } else if k == "OpenBracket"@ {
        Some(KeyCode::BracketLeft)
    } else if k == "CloseBracket"@ {
        Some(KeyCode::BracketRight)
    } else if k == "Backslash"@ {
        Some(KeyCode::Backslash)
    } else if k == "Semicolon"@ {
        Some(KeyCode::Semicolon)
    } else if k == "Quote"@ {
        Some(KeyCode::Quote)
    } else if k == "Comma"@ {
        Some(KeyCode::Comma)
    } else if k == "Period"@ {
        Some(KeyCode::Period)
    } else if k == "Slash"@ {
        Some(KeyCode::Slash)
    } else if k == "Backtick"@ {
        Some(KeyCode::Backquote)
    } else {
        None
    }
}

/// The key code for a key name of the settings window: a one-character name
/// must be a letter `A`-`Z`, so the digit names `0`-`9` have no key code
/// here; `F` followed by a number that a `u8` holds is a
/// function key when the number is 1 to 24 and nothing otherwise; any other
/// name is looked up among the named keys.
pub open spec fn key_code_for(k: Seq<char>) -> Option<KeyCode> {
    if k.len() == 1 {
        if is_upper_letter(k[0]) {
            Some(KeyCode::Letter(k[0]))
        } else {
            None
        }
    } else if k.len() > 0 && k[0] == 'F' && parse_unsigned(k.drop_first(), 255) is Some {
        let n = parse_unsigned(k.drop_first(), 255)->0;
        if 1 <= n <= 24 {
            Some(KeyCode::Function(n as u8))
        } else {
            None
        }
    } else {
        named_key_code(k)
    }
}

/// The named keys of [`named_key_code`], tried in the same order.
fn named_key_code_exec(k: &Vec<char>) -> (r: Option<KeyCode>)
    ensures
        r == named_key_code(k@),
{
    if chars_equal_str(k, "Space") {
        Some(KeyCode::Space)
    } else if chars_equal_str(k, "Enter") {
        Some(KeyCode::Enter)
    } else if chars_equal_str(k, "Tab") {
        Some(KeyCode::Tab)
    } else if chars_equal_str(k, "Escape") {
        Some(KeyCode::Escape)
    } else if chars_equal_str(k, "Backspace") {
        Some(KeyCode::Backspace)
    } else if chars_equal_str(k, "Delete") {
        Some(KeyCode::Delete)
    } else if chars_equal_str(k, "Insert") {
        Some(KeyCode::Insert)
    } else if chars_equal_str(k, "Home") {
        Some(KeyCode::Home)
    } else if chars_equal_str(k, "End") {
        Some(KeyCode::End)
    } else if chars_equal_str(k, "PageUp") {
        Some(KeyCode::PageUp)
    } else if chars_equal_str(k, "PageDown") {
        Some(KeyCode::PageDown)
    } else if chars_equal_str(k, "Up") {
        Some(KeyCode::ArrowUp)
    } else if chars_equal_str(k, "Down") {
        Some(KeyCode::ArrowDown)
    } else if chars_equal_str(k, "Left") {
        Some(KeyCode::ArrowLeft)
    } else if chars_equal_str(k, "Right") {
        Some(KeyCode::ArrowRight)
    } else if chars_equal_str(k, "Minus") {
        Some(KeyCode::Minus)
    } else if chars_equal_str(k, "Plus") || chars_equal_str(k, "Equals") {
        Some(KeyCode::Equal)
    } else if chars_equal_str(k, "OpenBracket") {
        Some(KeyCode::BracketLeft)
    } else if chars_equal_str(k, "CloseBracket") {
        Some(KeyCode::BracketRight)
    } else if chars_equal_str(k, "Backslash") {
        Some(KeyCode::Backslash)
    } else if chars_equal_str(k, "Semicolon") {
        Some(KeyCode::Semicolon)
    } else if chars_equal_str(k, "Quote") {
        Some(KeyCode::Quote)
    } else if chars_equal_str(k, "Comma") {
        Some(KeyCode::Comma)
    } else if chars_equal_str(k, "Period") {
        Some(KeyCode::Period)
    } else if chars_equal_str(k, "Slash") {
        Some(KeyCode::Slash)
    } else if chars_equal_str(k, "Backtick") {
        Some(KeyCode::Backquote)
    } else {
        None
    }
}

/// Maps a key name of the settings window to the key code that the
/// global-hotkey library registers.
pub fn key_name_to_code(key: &str) -> (r: Option<KeyCode>)
    ensures
        r == key_code_for(key@),
{
    let k = chars_of(key);
    if k.len() == 1 {
        let c = k[0];
        if 'A' <= c && c <= 'Z' {
            return Some(KeyCode::Letter(c));
        } else {
            return None;
        }
    }
    if k.len() > 0 && k[0] == 'F' {
        assert(k@.subrange(1, k@.len() as int) =~= k@.drop_first());
        match parse_unsigned_range(&k, 1, 255) {
            Some(n) => {
                if 1 <= n && n <= 24 {
                    return Some(KeyCode::Function(n as u8));
                } else {
                    return None;
                }
            },
            None => {},
        }
    }
    named_key_code_exec(&k)
}

/// The Win32 virtual-key codes of the keys that are named by a word, digits
/// included.
pub open spec fn named_virtual_key(k: Seq<char>) -> Option<u32> {
    if k == "Space"@ {
        Some(0x20)
    } else if k == "Enter"@ {
        Some(0x0D)
    } else if k == "Tab"@ {
        Some(0x09)
    } else if k == "Escape"@ {
        Some(0x1B)
    } else if k == "Backspace"@ {
        Some(0x08)
    } else if k == "Delete"@ {
        Some(0x2E)
    } else if k == "Insert"@ {
        Some(0x2D)
    } else if k == "Home"@ {
        Some(0x24)
    } else if k == "End"@ {
        Some(0x23)
    } else if k == "PageUp"@ {
        Some(0x21)
    } else if k == "PageDown"@ {
        Some(0x22)
    } else if k == "Up"@ {
        Some(0x26)
    } else if k == "Down"@ {
        Some(0x28)
    } else if k == "Left"@ {
        Some(0x25)
    } else if k == "Right"@ {
        Some(0x27)
    } else if k == "Minus"@ {
        Some(0xBD)
    } else if k == "Plus"@ || k == "Equals"@ {
        Some(0xBB)
    } else if k == "OpenBracket"@ {
        Some(0xDB)
    } else if k == "CloseBracket"@ {
        Some(0xDD)
    } else if k == "Backslash"@ {
        Some(0xDC)
    } else if k == "Semicolon"@ {
        Some(0xBA)
    } else if k == "Quote"@ {
        Some(0xDE)
    } else if k == "Comma"@ {
        Some(0xBC)
    } else if k == "Period"@ {
        Some(0xBE)
    } else if k == "Slash"@ {
        Some(0xBF)
    } else if k == "Backtick"@ {
        Some(0xC0)
    } else if k == "0"@ {
        Some(0x30)
    } else if k == "1"@ {
        Some(0x31)
    } else if k == "2"@ {
        Some(0x32)
    } else if k == "3"@ {
        Some(0x33)
    } else if k == "4"@ {
        Some(0x34)
    } else if k == "5"@ {
        Some(0x35)
    } else if k == "6"@ {
        Some(0x36)
    } else if k == "7"@ {
        Some(0x37)
    } else if k == "8"@ {
        Some(0x38)
    } else if k == "9"@ {
        Some(0x39)
    } else if k == "Colon"@ {
        Some(0xBA)
    } else if k == "Pipe"@ {
        Some(0xDC)
    } else {
        None
    }
}

/// The Win32 virtual-key code for a key name of the settings window: an
/// upper-case letter is its own code; `F` followed by a number 1 to 24 is
/// `0x6F` plus the number; otherwise the name is looked up among the named
/// keys.
pub open spec fn virtual_key_for(k: Seq<char>) -> Option<u32> {
    if k.len() == 1 && is_upper_letter(k[0]) {
        Some(k[0] as u32)
    } else if k.len() > 0 && k[0] == 'F' && parse_unsigned(k.drop_first(), u32::MAX as nat) is Some
        && 1 <= parse_unsigned(k.drop_first(), u32::MAX as nat)->0 <= 24 {
        Some((0x6F + parse_unsigned(k.drop_first(), u32::MAX as nat)->0) as u32)
    } else {
        named_virtual_key(k)
    }
}

/// The named keys of [`named_virtual_key`], tried in the same order.
fn named_virtual_key_exec(k: &Vec<char>) -> (r: Option<u32>)
    ensures
        r == named_virtual_key(k@),
{
    if chars_equal_str(k, "Space") {
        Some(0x20)
    } else if chars_equal_str(k, "Enter") {
        Some(0x0D)
    } else if chars_equal_str(k, "Tab") {
        Some(0x09)
    } else if chars_equal_str(k, "Escape") {
        Some(0x1B)
    } else if chars_equal_str(k, "Backspace") {
        Some(0x08)
    } else if chars_equal_str(k, "Delete") {
        Some(0x2E)
    } else if chars_equal_str(k, "Insert") {
        Some(0x2D)
    } else if chars_equal_str(k, "Home") {
        Some(0x24)
    } else if chars_equal_str(k, "End") {
        Some(0x23)
    } else if chars_equal_str(k, "PageUp") {
        Some(0x21)
    } else if chars_equal_str(k, "PageDown") {
        Some(0x22)
    } else if chars_equal_str(k, "Up") {
        Some(0x26)
    } else if chars_equal_str(k, "Down") {
        Some(0x28)
    } else if chars_equal_str(k, "Left") {
        Some(0x25)
    } else if chars_equal_str(k, "Right") {
        Some(0x27)
    } else if chars_equal_str(k, "Minus") {
        Some(0xBD)
    } else if chars_equal_str(k, "Plus") || chars_equal_str(k, "Equals") {
        Some(0xBB)
    } else if chars_equal_str(k, "OpenBracket") {
        Some(0xDB)
    } else if chars_equal_str(k, "CloseBracket") {
        Some(0xDD)
    } else if chars_equal_str(k, "Backslash") {
        Some(0xDC)
    } else if chars_equal_str(k, "Semicolon") {
        Some(0xBA)
    } else if chars_equal_str(k, "Quote") {
        Some(0xDE)
    } else if chars_equal_str(k, "Comma") {
        Some(0xBC)
    } else if chars_equal_str(k, "Period") {
        Some(0xBE)
    } else if chars_equal_str(k, "Slash") {
        Some(0xBF)
    } else if chars_equal_str(k, "Backtick") {
        Some(0xC0)
    } else if chars_equal_str(k, "0") {
        Some(0x30)
    } else if chars_equal_str(k, "1") {
        Some(0x31)
    } else if chars_equal_str(k, "2") {
        Some(0x32)
    } else if chars_equal_str(k, "3") {
        Some(0x33)
    } else if chars_equal_str(k, "4") {
        Some(0x34)
    } else if chars_equal_str(k, "5") {
        Some(0x35)
    } else if chars_equal_str(k, "6") {
        Some(0x36)
    } else if chars_equal_str(k, "7") {
        Some(0x37)
    } else if chars_equal_str(k, "8") {
        Some(0x38)
    } else if chars_equal_str(k, "9") {
        Some(0x39)
    } else if chars_equal_str(k, "Colon") {
        Some(0xBA)
    } else if chars_equal_str(k, "Pipe") {
        Some(0xDC)
    } else {
        None
    }
}

/// Maps a key name of the settings window to a Win32 virtual-key code.
pub fn key_name_to_vk(key: &str) -> (r: Option<u32>)
    ensures
        r == virtual_key_for(key@),
{
    let k = chars_of(key);
    if k.len() == 1 {
        let c = k[0];
        if 'A' <= c && c <= 'Z' {
            return Some(c as u32);
        }
    }
    if k.len() > 0 && k[0] == 'F' {
        assert(k@.subrange(1, k@.len() as int) =~= k@.drop_first());
        match parse_unsigned_range(&k, 1, u32::MAX) {
            Some(n) => {
                if 1 <= n && n <= 24 {
                    return Some(0x6F + n);
                }
            },
            None => {},
        }
    }
    named_virtual_key_exec(&k)
}

/// Law: the digit keys. The Win32 virtual-key code of the name of a digit
/// key `0` to `9` is the digit's character code, `0x30` plus its value.
pub proof fn law_digit_virtual_keys(c: char)
    requires
        '0' <= c <= '9',
    ensures
        virtual_key_for(seq![c]) == Some((0x30 + (c as u32 - '0' as u32)) as u32),
{
    reveal_strlit("Space");
    reveal_strlit("Enter");
    reveal_strlit("Tab");
    reveal_strlit("Escape");
    reveal_strlit("Backspace");
    reveal_strlit("Delete");
    reveal_strlit("Insert");
    reveal_strlit("Home");
    reveal_strlit("End");
    reveal_strlit("PageUp");
    reveal_strlit("PageDown");
    reveal_strlit("Up");
    reveal_strlit("Down");
    reveal_strlit("Left");
    reveal_strlit("Right");
    reveal_strlit("Minus");
    reveal_strlit("Plus");
    reveal_strlit("Equals");
    reveal_strlit("OpenBracket");
    reveal_strlit("CloseBracket");
    reveal_strlit("Backslash");
    reveal_strlit("Semicolon");
    reveal_strlit("Quote");
    reveal_strlit("Comma");
    reveal_strlit("Period");
    reveal_strlit("Slash");
    reveal_strlit("Backtick");
    reveal_strlit("0");
    reveal_strlit("1");
    reveal_strlit("2");
    reveal_strlit("3");
    reveal_strlit("4");
    reveal_strlit("5");
    reveal_strlit("6");
    reveal_strlit("7");
    reveal_strlit("8");
    reveal_strlit("9");
    assert(seq![c][0] == c);
    if c == '0' {
        assert(seq![c] =~= "0"@);
    } else if c == '1' {
        assert(seq![c] =~= "1"@);
    } else if c == '2' {
        assert(seq![c] =~= "2"@);
    } else if c == '3' {
        assert(seq![c] =~= "3"@);
    } else if c == '4' {
        assert(seq![c] =~= "4"@);
    } else if c == '5' {
        assert(seq![c] =~= "5"@);
    } else if c == '6' {
        assert(seq![c] =~= "6"@);
    } else if c == '7' {
        assert(seq![c] =~= "7"@);
    } else if c == '8' {
        assert(seq![c] =~= "8"@);
    } else if c == '9' {
        assert(seq![c] =~= "9"@);
    }
}

/// The Win32 virtual-key code of a key.
pub open spec fn virtual_key_of_code(c: KeyCode) -> u32 {
    match c {
        KeyCode::Letter(ch) => ch as u32,
        KeyCode::Function(n) => (0x6F + n) as u32,
        KeyCode::Space => 0x20,
        KeyCode::Enter => 0x0D,
        KeyCode::Tab => 0x09,
        KeyCode::Escape => 0x1B,
        KeyCode::Backspace => 0x08,
        KeyCode::Delete => 0x2E,
        KeyCode::Insert => 0x2D,
        KeyCode::Home => 0x24,
        KeyCode::End => 0x23,
        KeyCode::PageUp => 0x21,
        KeyCode::PageDown => 0x22,
        KeyCode::ArrowUp => 0x26,
        KeyCode::ArrowDown => 0x28,
        KeyCode::ArrowLeft => 0x25,
        KeyCode::ArrowRight => 0x27,
        KeyCode::Minus => 0xBD,
        KeyCode::Equal => 0xBB,
        KeyCode::BracketLeft => 0xDB,
        KeyCode::BracketRight => 0xDD,
        KeyCode::Backslash => 0xDC,
        KeyCode::Semicolon => 0xBA,
        KeyCode::Quote => 0xDE,
        KeyCode::Comma => 0xBC,
        KeyCode::Period => 0xBE,
        KeyCode::Slash => 0xBF,
        KeyCode::Backquote => 0xC0,
    }
}

/// Law: the two key tables agree. Every key name that the cross-platform
/// table accepts is accepted by the Win32 table too, and both denote the same
/// physical key.
pub proof fn law_key_tables_agree(k: Seq<char>)
    requires
        key_code_for(k) is Some,
    ensures
        virtual_key_for(k) == Some(virtual_key_of_code(key_code_for(k)->0)),
{
    if k.len() == 1 {
    } else if k.len() > 0 && k[0] == 'F' && parse_unsigned(k.drop_first(), 255) is Some {
        let n = parse_unsigned(k.drop_first(), 255)->0;
        assert(parse_unsigned(k.drop_first(), u32::MAX as nat) == Some(n));
    } else {
        if k.len() > 0 && k[0] == 'F' {
            // A number 1 to 24 would also have been read as a `u8`.
            let w = parse_unsigned(k.drop_first(), u32::MAX as nat);
            if w is Some {
                assert(w->0 > 255 || parse_unsigned(k.drop_first(), 255) is Some);
            }
        }
    }
}

// ---------------------------------------------------------------------------
// Modifiers
// ---------------------------------------------------------------------------

/// Win32 `MOD_ALT`.
pub const MOD_ALT: u32 = 0x0001;

/// Win32 `MOD_CONTROL`.
pub const MOD_CONTROL: u32 = 0x0002;

/// Win32 `MOD_SHIFT`.
pub const MOD_SHIFT: u32 = 0x0004;

/// Win32 `MOD_WIN`.
pub const MOD_WIN: u32 = 0x0008;

/// Win32 `MOD_NOREPEAT`: holding the keys down does not repeat the hotkey.
pub const MOD_NOREPEAT: u32 = 0x4000;

/// The Win32 modifier flags of a shortcut: always no-repeat, plus one flag per
/// pressed modifier. The flags occupy distinct bits, so their sum is their
/// bitwise union.
pub open spec fn modifier_flags(s: ShortcutView) -> u32 {
    (MOD_NOREPEAT + (if s.ctrl {
        MOD_CONTROL
    } else {
        0
    }) + (if s.alt {
        MOD_ALT
    } else {
        0
    }) + (if s.shift {
        MOD_SHIFT
    } else {
        0
    }) + (if s.win_key {
        MOD_WIN
    } else {
        0
    })) as u32
}

/// The Win32 hotkey modifier flags for a shortcut.
pub fn build_modifiers(shortcut: &Shortcut) -> (mods: u32)
    ensures
        mods == modifier_flags(shortcut@),
{
    let mut mods = MOD_NOREPEAT;
    if shortcut.ctrl {
        mods = mods + MOD_CONTROL;
    }
    if shortcut.alt {
        mods = mods + MOD_ALT;
    }
    if shortcut.shift {
        mods = mods + MOD_SHIFT;
    }
    if shortcut.win_key {
        mods = mods + MOD_WIN;
    }
    mods
}

/// The modifier keys of a hotkey for the cross-platform hotkey library.
#[derive(Clone, Copy, PartialEq, Eq, Debug, Structural)]
pub struct HotkeyModifiers {
    pub control: bool,
    pub alt: bool,
    pub shift: bool,
    pub super_key: bool,
}

/// The modifiers of a shortcut, or none when no modifier is pressed.
pub open spec fn hotkey_modifiers_of(s: ShortcutView) -> Option<HotkeyModifiers> {
    if !s.ctrl && !s.alt && !s.shift && !s.win_key {
        None
    } else {
        Some(HotkeyModifiers { control: s.ctrl, alt: s.alt, shift: s.shift, super_key: s.win_key })
    }
}

/// One step of registering the shortcuts of the settings: a hotkey to
/// register for a device, or a key name that no key code matches.
#[derive(Debug)]
pub enum HotkeyPlan {
    Register { device_id: String, key: KeyCode, modifiers: Option<HotkeyModifiers> },
    UnknownKey { key_name: String },
}

/// The step for one (device id, shortcut) pair.
pub open spec fn plan_matches(item: HotkeyPlan, device_id: Seq<char>, s: ShortcutView) -> bool {
    match key_code_for(s.key) {
        Some(code) => match item {
            HotkeyPlan::Register { device_id: d, key, modifiers } => d@ == device_id && key == code
                && modifiers == hotkey_modifiers_of(s),
            HotkeyPlan::UnknownKey { .. } => false,
        },
        None => match item {
            HotkeyPlan::UnknownKey { key_name } => key_name@ == s.key,
            HotkeyPlan::Register { .. } => false,
        },
    }
}

/// What registering every shortcut involves, one step per shortcut in the
/// order in which the settings hold them.
pub fn plan_hotkeys(shortcuts: &Shortcuts) -> (plan: Vec<HotkeyPlan>)
    ensures
        plan@.len() == shortcuts.pairs().len(),
        forall|i: int|
            0 <= i < plan@.len() ==> plan_matches(
                #[trigger] plan@[i],
                shortcuts.pairs()[i].0,
                shortcuts.pairs()[i].1,
            ),
{
    let mut plan: Vec<HotkeyPlan> = Vec::new();
    let n = shortcuts.len();
    let mut i: usize = 0;
    while i < n
        invariant
            n == shortcuts.pairs().len(),
            0 <= i <= n,
            plan@.len() == i,
            forall|j: int|
                0 <= j < i ==> plan_matches(
                    #[trigger] plan@[j],
                    shortcuts.pairs()[j].0,
                    shortcuts.pairs()[j].1,
                ),
        decreases n - i,
    {
        let (device_id, shortcut) = shortcuts.pair_at(i);
        let item = match key_name_to_code(shortcut.key.as_str()) {
            Some(code) => {
                let modifiers = if !shortcut.ctrl && !shortcut.alt && !shortcut.shift
                    && !shortcut.win_key {
                    None
                } else {
                    Some(
                        HotkeyModifiers {
                            control: shortcut.ctrl,
                            alt: shortcut.alt,
                            shift: shortcut.shift,
                            super_key: shortcut.win_key,
                        },
                    )
                };
                HotkeyPlan::Register { device_id: device_id.clone(), key: code, modifiers }
            },
            None => HotkeyPlan::UnknownKey { key_name: shortcut.key.clone() },
        };
        plan.push(item);
        i += 1;
    }
    plan
}

/// Law: a registration step carries the shortcut's own modifiers. Each
/// modifier of the step is pressed exactly when the shortcut has it (Ctrl as
/// control, Win as super), and the step has no modifier set exactly when the
/// shortcut has no modifier; the step is for the shortcut's device.
pub proof fn law_plan_modifiers(item: HotkeyPlan, device_id: Seq<char>, s: ShortcutView)
    requires
        plan_matches(item, device_id, s),
        item is Register,
    ensures
        item->Register_device_id@ == device_id,
        item->Register_modifiers is None <==> (!s.ctrl && !s.alt && !s.shift && !s.win_key),
        item->Register_modifiers matches Some(m) ==> m.control == s.ctrl && m.alt == s.alt
            && m.shift == s.shift && m.super_key == s.win_key,
{
}

/// Law: registering the shortcuts of a table takes exactly one step per
/// device that has a shortcut. Given the pairs of a table (no device twice;
/// see [`Shortcuts::pairs_agree_with_view`]) and a plan that matches them
/// step by step, as [`plan_hotkeys`] gives, there are as many steps as
/// devices with a shortcut, each such device has a step for its shortcut, and
/// no two steps are for the same device.
pub proof fn law_one_step_per_device(ps: Seq<(Seq<char>, ShortcutView)>, plan: Seq<HotkeyPlan>)
    requires
        keys_distinct(ps),
        plan.len() == ps.len(),
        forall|i: int| 0 <= i < plan.len() ==> plan_matches(#[trigger] plan[i], ps[i].0, ps[i].1),
    ensures
        plan.len() == assoc_map(ps).dom().len(),
        forall|id: Seq<char>|
            #[trigger] assoc_map(ps).contains_key(id) ==> exists|i: int|
                0 <= i < plan.len() && ps[i].0 == id && plan_matches(
                    #[trigger] plan[i],
                    id,
                    assoc_map(ps)[id],
                ),
        forall|i: int, j: int|
            0 <= i < plan.len() && 0 <= j < plan.len() && i != j ==> #[trigger] ps[i].0
                != #[trigger] ps[j].0,
{
    lemma_assoc_map_len(ps);
    assert forall|id: Seq<char>| #[trigger] assoc_map(ps).contains_key(id) implies exists|i: int|
        0 <= i < plan.len() && ps[i].0 == id && plan_matches(
            #[trigger] plan[i],
            id,
            assoc_map(ps)[id],
        ) by {
        lemma_assoc_map_dom(ps, id);
        let i = choose|i: int| 0 <= i < ps.len() && #[trigger] ps[i].0 == id;
        lemma_assoc_map_index(ps, i);
        assert(plan_matches(plan[i], ps[i].0, ps[i].1));
    }
}

// ---------------------------------------------------------------------------
// Registered hotkeys
// ---------------------------------------------------------------------------

/// `h` is the handle of some hotkey of `m`.
pub open spec fn is_registered_handle<H>(m: Map<u32, (H, Seq<char>)>, h: H) -> bool {
    exists|id: u32| #[trigger] m.contains_key(id) && m[id].0 == h
}

/// Win32 `WM_HOTKEY`.
pub const WM_HOTKEY: u32 = 0x0312;

/// The hotkeys registered with the operating system: for each hotkey id, the
/// platform's handle of the hotkey and the device it switches to. Ids for
/// platforms that leave their choice to the caller come from a counter that
/// starts at 1.
pub struct HotkeyRegistry<H> {
    registered: HashMap<u32, (H, String)>,
    next_id: i32,
}

/// The mathematical value of a [`HotkeyRegistry`].
pub struct RegistryView<H> {
    /// Hotkey id to (hotkey handle, device id).
    pub hotkeys: Map<u32, (H, Seq<char>)>,
    /// The id that [`HotkeyRegistry::allocate_id`] gives next.
    pub next_id: i32,
}

impl<H> View for HotkeyRegistry<H> {
    type V = RegistryView<H>;

    closed spec fn view(&self) -> RegistryView<H> {
        RegistryView {
            hotkeys: self.registered@.map_values(|e: (H, String)| (e.0, e.1@)),
            next_id: self.next_id,
        }
    }
}

impl<H: Copy> HotkeyRegistry<H> {
    /// No hotkey registered; the first allocated id is 1.
    pub fn new() -> (r: Self)
        ensures
            r@.hotkeys == Map::<u32, (H, Seq<char>)>::empty(),
            r@.next_id == 1,
    {
        let r = HotkeyRegistry { registered: HashMap::new(), next_id: 1 };
        assert(r@.hotkeys =~= Map::<u32, (H, Seq<char>)>::empty());
        r
    }

    /// Records that `hotkey`, with id `id`, now switches to `device_id`.
    pub fn record(&mut self, id: u32, hotkey: H, device_id: String)
        ensures
            final(self)@.hotkeys == old(self)@.hotkeys.insert(id, (hotkey, device_id@)),
            final(self)@.next_id == old(self)@.next_id,
    {
        let ghost dv = device_id@;
        self.registered.insert(id, (hotkey, device_id));
        assert(self@.hotkeys =~= old(self)@.hotkeys.insert(id, (hotkey, dv)));
    }

    /// The next hotkey id of the counter, which then moves on.
    pub fn allocate_id(&mut self) -> (id: i32)
        requires
            old(self)@.next_id < i32::MAX,
        ensures
            id == old(self)@.next_id,
            final(self)@.next_id == old(self)@.next_id + 1,
            final(self)@.hotkeys == old(self)@.hotkeys,
    {
        let id = self.next_id;
        self.next_id = self.next_id + 1;
        id
    }

    /// The id that [`Self::allocate_id`] would give next.
    pub fn next_id(&self) -> (id: i32)
        ensures
            id == self@.next_id,
    {
        self.next_id
    }

    /// The number of registered hotkeys.
    pub fn len(&self) -> (n: usize)
        ensures
            n == self@.hotkeys.len(),
    {
        proof {
            assert(self@.hotkeys.dom() =~= self.registered@.dom());
            vstd::std_specs::hash::axiom_hashmap_view_finite_dom(self.registered);
        }
        self.registered.len()
    }

    /// Forgets every hotkey and gives back their handles, so that the caller
    /// can unregister them. The id counter keeps going.
    pub fn take_all(&mut self) -> (handles: Vec<H>)
        ensures
            final(self)@.hotkeys == Map::<u32, (H, Seq<char>)>::empty(),
            final(self)@.next_id == old(self)@.next_id,
            handles@.len() == old(self)@.hotkeys.len(),
            forall|i: int|
                0 <= i < handles@.len() ==> is_registered_handle(
                    old(self)@.hotkeys,
                    #[trigger] handles@[i],
                ),
            forall|id: u32|
                #[trigger] old(self)@.hotkeys.contains_key(id) ==> handles@.contains(
                    old(self)@.hotkeys[id].0,
                ),
    {
        let mut handles: Vec<H> = Vec::new();
        let ghost m = self.registered@;
        proof {
            vstd::std_specs::hash::axiom_hashmap_view_finite_dom(self.registered);
        }
        let values = self.registered.values();
        let ghost vals = vstd::std_specs::iter::IteratorSpec::remaining(&values);
        for e in it: values
            invariant
                m == self.registered@,
                it.seq() == vals,
                vals.len() == m.dom().len(),
                vals.unref().to_set() == m.values(),
                handles@.len() == it.index(),
                forall|j: int| 0 <= j < handles@.len() ==> #[trigger] handles@[j] == vals[j].0,
        {
            handles.push(e.0);
        }
        proof {
            assert(old(self)@.hotkeys.dom() =~= m.dom());
            assert forall|i: int| 0 <= i < handles@.len() implies is_registered_handle(
                old(self)@.hotkeys,
                #[trigger] handles@[i],
            ) by {
                assert(vals.unref()[i] == *vals[i]);
                assert(vals.unref().contains(*vals[i]));
                assert(vals.unref().to_set().contains(*vals[i]));
                assert(m.values().contains(*vals[i]));
                let id = choose|id: u32| #[trigger] m.contains_key(id) && m[id] == *vals[i];
                assert(old(self)@.hotkeys.contains_key(id));
                assert(old(self)@.hotkeys[id].0 == handles@[i]);
            }
            assert forall|id: u32| #[trigger] old(self)@.hotkeys.contains_key(id) implies handles@.contains(
                old(self)@.hotkeys[id].0,
            ) by {
                assert(m.contains_key(id));
                assert(m.values().contains(m[id]));
                assert(vals.unref().to_set().contains(m[id]));
                let j = choose|j: int| 0 <= j < vals.unref().len() && vals.unref()[j] == m[id];
                assert(handles@[j] == m[id].0);
            }
        }
        self.registered.clear();
        assert(self@.hotkeys =~= Map::<u32, (H, Seq<char>)>::empty());
        handles
    }

    /// The device that a hotkey event switches to: the device of the hotkey
    /// with that id, when the key was pressed (not released).
    pub fn device_for_event(&self, id: u32, pressed: bool) -> (r: Option<String>)
        ensures
            r matches Some(d) ==> pressed && self@.hotkeys.contains_key(id) && d@
                == self@.hotkeys[id].1,
            r is None ==> !pressed || !self@.hotkeys.contains_key(id),
    {
        if !pressed {
            return None;
        }
        match self.registered.get(&id) {
            Some(e) => Some(e.1.clone()),
            None => None,
        }
    }

    /// The device that a Win32 message switches to: the device of the
    /// hotkey whose id is the message's `wParam`, when the message is
    /// `WM_HOTKEY`.
    pub fn handle_hotkey(&self, message: u32, wparam: usize) -> (r: Option<String>)
        ensures
            message != WM_HOTKEY ==> r is None,
            message == WM_HOTKEY ==> match r {
                Some(d) => 0 <= (wparam as i32) && self@.hotkeys.contains_key(
                    (wparam as i32) as u32,
                ) && d@ == self@.hotkeys[(wparam as i32) as u32].1,
                None => (wparam as i32) < 0 || !self@.hotkeys.contains_key((wparam as i32) as u32),
            },
    {
        if message != WM_HOTKEY {
            return None;
        }
        let id = wparam as i32;
        if id < 0 {
            return None;
        }
        self.device_for_event(id as u32, true)
    }
}

} // verus!
