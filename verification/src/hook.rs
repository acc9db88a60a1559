//! The expansion engine's decisions: which keys count as the activation key,
//! which keystrokes type trigger characters, and the state machine that turns
//! each keyboard event into the next state and an action.
use vstd::prelude::*;
use vstd::string::StrSliceExecFns;
use vstd::utf8::is_ascii_chars;

use crate::config::{ActivationChoice, ActivationKey};
use crate::keys::{
    function_key, key_name, lemma_decimal_digits, lemma_decimal_injective, lemma_function_key_names,
    lemma_key_name_ascii, Key, KeyEvent, decimal,
};
use crate::matcher::{pushed, Matcher};
use crate::text::{
    ascii_alnum, ascii_lower, chars_of, is_white_space, lower_alnum, push_char, str_eq,
    to_ascii_lower, trim, trim_end, trim_start, trim_str,
};
use crate::trigger_map::TriggerMap;

verus! {

/// Buffer cap: generous upper bound on trigger length. Exact-equality
/// matching means a large cap never causes false matches; this only bounds
/// memory.
pub const BUFFER_CAP: usize = 100;

/// Which modifier keys are currently held down.
#[derive(Debug, Clone, Copy, PartialEq, Eq, Structural)]
pub struct ModifierState {
    pub alt: bool,
    pub alt_gr: bool,
    pub ctrl_left: bool,
    pub ctrl_right: bool,
    pub shift_left: bool,
    pub shift_right: bool,
    pub meta_left: bool,
    pub meta_right: bool,
}

/// The modifier state after `key` went down (`down`) or up.
pub open spec fn with_modifier(m: ModifierState, key: Key, down: bool) -> ModifierState {
    match key {
        Key::Alt => ModifierState { alt: down, ..m },
        Key::AltGr => ModifierState { alt_gr: down, ..m },
        Key::ControlLeft => ModifierState { ctrl_left: down, ..m },
        Key::ControlRight => ModifierState { ctrl_right: down, ..m },
        Key::ShiftLeft => ModifierState { shift_left: down, ..m },
        Key::ShiftRight => ModifierState { shift_right: down, ..m },
        Key::MetaLeft => ModifierState { meta_left: down, ..m },
        Key::MetaRight => ModifierState { meta_right: down, ..m },
        _ => m,
    }
}

/// Whether a modifier other than `key` is held, shift excluded.
pub open spec fn shortcut_held(m: ModifierState, key: Key) -> bool {
    ||| (key != Key::Alt && m.alt)
    ||| (key != Key::AltGr && m.alt_gr)
    ||| (key != Key::ControlLeft && m.ctrl_left)
    ||| (key != Key::ControlRight && m.ctrl_right)
    ||| (key != Key::MetaLeft && m.meta_left)
    ||| (key != Key::MetaRight && m.meta_right)
}

/// Whether a shift key other than `key` is held.
pub open spec fn shift_held(m: ModifierState, key: Key) -> bool {
    (key != Key::ShiftLeft && m.shift_left) || (key != Key::ShiftRight && m.shift_right)
}

/// Whether any modifier other than `key` is held.
pub open spec fn any_held(m: ModifierState, key: Key) -> bool {
    shortcut_held(m, key) || shift_held(m, key)
}

impl Default for ModifierState {
    fn default() -> (r: ModifierState)
        ensures
            !any_held(r, Key::Space),
            r == (ModifierState {
                alt: false,
                alt_gr: false,
                ctrl_left: false,
                ctrl_right: false,
                shift_left: false,
                shift_right: false,
                meta_left: false,
                meta_right: false,
            }),
    {
        ModifierState {
            alt: false,
            alt_gr: false,
            ctrl_left: false,
            ctrl_right: false,
            shift_left: false,
            shift_right: false,
            meta_left: false,
            meta_right: false,
        }
    }
}

impl ModifierState {
    /// Record that `key` went down (`down`) or up.
    pub fn set(&mut self, key: Key, down: bool)
        ensures
            *final(self) == with_modifier(*old(self), key, down),
    {
        match key {
            Key::Alt => self.alt = down,
            Key::AltGr => self.alt_gr = down,
            Key::ControlLeft => self.ctrl_left = down,
            Key::ControlRight => self.ctrl_right = down,
            Key::ShiftLeft => self.shift_left = down,
            Key::ShiftRight => self.shift_right = down,
            Key::MetaLeft => self.meta_left = down,
            Key::MetaRight => self.meta_right = down,
            _ => {},
        }
    }

    /// Whether any modifier other than `key` is held.
    pub fn any_excluding(self, key: Key) -> (r: bool)
        ensures
            r == any_held(self, key),
    {
        (key != Key::Alt && self.alt) || (key != Key::AltGr && self.alt_gr) || (key
            != Key::ControlLeft && self.ctrl_left) || (key != Key::ControlRight && self.ctrl_right)
            || (key != Key::ShiftLeft && self.shift_left) || (key != Key::ShiftRight
            && self.shift_right) || (key != Key::MetaLeft && self.meta_left) || (key
            != Key::MetaRight && self.meta_right)
    }

    /// Whether a modifier other than `key` is held, shift excluded.
    pub fn shortcut_modifier_excluding(self, key: Key) -> (r: bool)
        ensures
            r == shortcut_held(self, key),
    {
        (key != Key::Alt && self.alt) || (key != Key::AltGr && self.alt_gr) || (key
            != Key::ControlLeft && self.ctrl_left) || (key != Key::ControlRight && self.ctrl_right)
            || (key != Key::MetaLeft && self.meta_left) || (key != Key::MetaRight
            && self.meta_right)
    }

    /// Whether a shift key other than `key` is held.
    pub fn shift_excluding(self, key: Key) -> (r: bool)
        ensures
            r == shift_held(self, key),
    {
        (key != Key::ShiftLeft && self.shift_left) || (key != Key::ShiftRight && self.shift_right)
    }
}

/// The concrete key of a preset activation key (`None` for a custom one).
pub open spec fn preset_key_of(a: ActivationChoice) -> Option<Key> {
    match a {
        ActivationChoice::RightCtrl => Some(Key::ControlRight),
        ActivationChoice::RightShift => Some(Key::ShiftRight),
        ActivationChoice::Insert => Some(Key::Insert),
        ActivationChoice::ScrollLock => Some(Key::ScrollLock),
        ActivationChoice::Pause => Some(Key::Pause),
        ActivationChoice::F9 => Some(Key::F9),
        ActivationChoice::Custom(_) => None,
    }
}

/// The concrete key of a preset activation key (`None` for a custom one).
pub fn preset_key(a: &ActivationKey) -> (r: Option<Key>)
    ensures
        r == preset_key_of(a@),
{
    match a {
        ActivationKey::RightCtrl => Some(Key::ControlRight),
        ActivationKey::RightShift => Some(Key::ShiftRight),
        ActivationKey::Insert => Some(Key::Insert),
        ActivationKey::ScrollLock => Some(Key::ScrollLock),
        ActivationKey::Pause => Some(Key::Pause),
        ActivationKey::F9 => Some(Key::F9),
        ActivationKey::Custom(_) => None,
    }
}

/// The trigger character a key types: lowercase ASCII letters and digits.
pub open spec fn key_char(key: Key) -> Option<char> {
    match key {
        Key::KeyA => Some('a'),
        Key::KeyB => Some('b'),
        Key::KeyC => Some('c'),
        Key::KeyD => Some('d'),
        Key::KeyE => Some('e'),
        Key::KeyF => Some('f'),
        Key::KeyG => Some('g'),
        Key::KeyH => Some('h'),
        Key::KeyI => Some('i'),
        Key::KeyJ => Some('j'),
        Key::KeyK => Some('k'),
        Key::KeyL => Some('l'),
        Key::KeyM => Some('m'),
        Key::KeyN => Some('n'),
        Key::KeyO => Some('o'),
        Key::KeyP => Some('p'),
        Key::KeyQ => Some('q'),
        Key::KeyR => Some('r'),
        Key::KeyS => Some('s'),
        Key::KeyT => Some('t'),
        Key::KeyU => Some('u'),
        Key::KeyV => Some('v'),
        Key::KeyW => Some('w'),
        Key::KeyX => Some('x'),
        Key::KeyY => Some('y'),
        Key::KeyZ => Some('z'),
        Key::Num0 => Some('0'),
        Key::Num1 => Some('1'),
        Key::Num2 => Some('2'),
        Key::Num3 => Some('3'),
        Key::Num4 => Some('4'),
        Key::Num5 => Some('5'),
        Key::Num6 => Some('6'),
        Key::Num7 => Some('7'),
        Key::Num8 => Some('8'),
        Key::Num9 => Some('9'),
        _ => None,
    }
}

/// Map a key to its lowercase trigger character (ASCII letters and digits).
pub fn key_to_char(key: Key) -> (r: Option<char>)
    ensures
        r == key_char(key),
{
    match key {
        Key::KeyA => Some('a'),
        Key::KeyB => Some('b'),
        Key::KeyC => Some('c'),
        Key::KeyD => Some('d'),
        Key::KeyE => Some('e'),
        Key::KeyF => Some('f'),
        Key::KeyG => Some('g'),
        Key::KeyH => Some('h'),
        Key::KeyI => Some('i'),
        Key::KeyJ => Some('j'),
        Key::KeyK => Some('k'),
        Key::KeyL => Some('l'),
        Key::KeyM => Some('m'),
        Key::KeyN => Some('n'),
        Key::KeyO => Some('o'),
        Key::KeyP => Some('p'),
        Key::KeyQ => Some('q'),
        Key::KeyR => Some('r'),
        Key::KeyS => Some('s'),
        Key::KeyT => Some('t'),
        Key::KeyU => Some('u'),
        Key::KeyV => Some('v'),
        Key::KeyW => Some('w'),
        Key::KeyX => Some('x'),
        Key::KeyY => Some('y'),
        Key::KeyZ => Some('z'),
        Key::Num0 => Some('0'),
        Key::Num1 => Some('1'),
        Key::Num2 => Some('2'),
        Key::Num3 => Some('3'),
        Key::Num4 => Some('4'),
        Key::Num5 => Some('5'),
        Key::Num6 => Some('6'),
        Key::Num7 => Some('7'),
        Key::Num8 => Some('8'),
        Key::Num9 => Some('9'),
        _ => None,
    }
}

/// The letter keys A to Z.
pub open spec fn is_letter(key: Key) -> bool {
    match key {
        Key::KeyA | Key::KeyB | Key::KeyC | Key::KeyD | Key::KeyE | Key::KeyF | Key::KeyG
        | Key::KeyH | Key::KeyI | Key::KeyJ | Key::KeyK | Key::KeyL | Key::KeyM | Key::KeyN
        | Key::KeyO | Key::KeyP | Key::KeyQ | Key::KeyR | Key::KeyS | Key::KeyT | Key::KeyU
        | Key::KeyV | Key::KeyW | Key::KeyX | Key::KeyY | Key::KeyZ => true,
        _ => false,
    }
}

/// Whether `key` is one of the letter keys A to Z.
pub fn is_letter_key(key: Key) -> (r: bool)
    ensures
        r == is_letter(key),
{
    match key {
        Key::KeyA | Key::KeyB | Key::KeyC | Key::KeyD | Key::KeyE | Key::KeyF | Key::KeyG
        | Key::KeyH | Key::KeyI | Key::KeyJ | Key::KeyK | Key::KeyL | Key::KeyM | Key::KeyN
        | Key::KeyO | Key::KeyP | Key::KeyQ | Key::KeyR | Key::KeyS | Key::KeyT | Key::KeyU
        | Key::KeyV | Key::KeyW | Key::KeyX | Key::KeyY | Key::KeyZ => true,
        _ => false,
    }
}

/// The modifier keys.
pub open spec fn is_modifier(key: Key) -> bool {
    match key {
        Key::Alt | Key::AltGr | Key::ControlLeft | Key::ControlRight | Key::ShiftLeft
        | Key::ShiftRight | Key::MetaLeft | Key::MetaRight => true,
        _ => false,
    }
}

/// Whether `key` is a modifier key.
pub fn is_modifier_key(key: Key) -> (r: bool)
    ensures
        r == is_modifier(key),
{
    match key {
        Key::Alt | Key::AltGr | Key::ControlLeft | Key::ControlRight | Key::ShiftLeft
        | Key::ShiftRight | Key::MetaLeft | Key::MetaRight => true,
        _ => false,
    }
}

/// The trigger character that pressing `key` types under the held
/// modifiers: none while a non-shift modifier is held (a shortcut), none for
/// a shifted non-letter (a symbol), else the key's character.
pub open spec fn trigger_char(key: Key, m: ModifierState) -> Option<char> {
    if shortcut_held(m, key) {
        None
    } else if shift_held(m, key) && !is_letter(key) {
        None
    } else {
        key_char(key)
    }
}

/// The trigger character that pressing `key` types under the held modifiers.
pub fn trigger_char_for_key(key: Key, modifiers: ModifierState) -> (r: Option<char>)
    ensures
        r == trigger_char(key, modifiers),
{
    if modifiers.shortcut_modifier_excluding(key) {
        return None;
    }
    if modifiers.shift_excluding(key) && !is_letter_key(key) {
        return None;
    }
    key_to_char(key)
}

/// Whether an activation key press passes through to the application: a
/// modifier activation key always does (so shortcuts keep working), any other
/// only when chorded with a modifier.
pub open spec fn press_passes(key: Key, m: ModifierState) -> bool {
    is_modifier(key) || any_held(m, key)
}

/// Whether an activation key press passes through to the application.
pub fn activation_press_passthrough(key: Key, modifiers: ModifierState) -> (r: bool)
    ensures
        r == press_passes(key, modifiers),
{
    is_modifier_key(key) || modifiers.any_excluding(key)
}

/// Bytes that a character takes in UTF-8.
pub open spec fn utf8_width(c: char) -> nat {
    let u = c as u32;
    if u < 0x80 {
        1
    } else if u < 0x800 {
        2
    } else if u < 0x10000 {
        3
    } else {
        4
    }
}

/// Bytes that a character sequence takes in UTF-8.
pub open spec fn utf8_len(s: Seq<char>) -> nat
    decreases s.len(),
{
    if s.len() == 0 {
        0
    } else {
        utf8_len(s.drop_last()) + utf8_width(s.last())
    }
}

/// Whether the first five bytes of `s` in UTF-8 end on a character boundary
/// (or `s` is shorter than five bytes): the condition under which a key name
/// can be tested for the `key::` prefix without splitting a character.
pub open spec fn first_five_bytes_whole(s: Seq<char>) -> bool {
    utf8_len(s) < 5 || exists|k: int| 0 <= k <= s.len() && utf8_len(s.take(k)) == 5
}

/// Whether a custom key name can be normalized: its trimmed form does not
/// split a character at byte five.
pub open spec fn name_normalizable(name: Seq<char>) -> bool {
    first_five_bytes_whole(trim(name))
}

/// Whether an activation key can be tested against keys.
pub open spec fn activation_usable(a: ActivationChoice) -> bool {
    match a {
        ActivationChoice::Custom(name) => name_normalizable(name),
        _ => true,
    }
}

/// Whether `t` starts with `key::`, in any ASCII case.
pub open spec fn has_key_prefix(t: Seq<char>) -> bool {
    t.len() >= 5 && forall|i: int| 0 <= i < 5 ==> ascii_lower(#[trigger] t[i]) == "key::"@[i]
}

/// A key name reduced for comparison: trimmed, without a `key::` prefix, only
/// its ASCII letters and digits, lower-cased. So "Control Right",
/// "control_right" and "Key::ControlRight" all read "controlright".
pub open spec fn normalized(name: Seq<char>) -> Seq<char> {
    let t = trim(name);
    lower_alnum(if has_key_prefix(t) { t.skip(5) } else { t })
}

proof fn lemma_utf8_len_step(s: Seq<char>, k: int)
    requires
        0 <= k < s.len(),
    ensures
        utf8_len(s.take(k + 1)) == utf8_len(s.take(k)) + utf8_width(s[k]),
{
    assert(s.take(k + 1).drop_last() =~= s.take(k));
}

proof fn lemma_utf8_len_monotone(s: Seq<char>, a: int, b: int)
    requires
        0 <= a <= b <= s.len(),
    ensures
        utf8_len(s.take(a)) <= utf8_len(s.take(b)),
        a < b ==> utf8_len(s.take(a)) < utf8_len(s.take(b)),
    decreases b - a,
{
    if a < b {
        lemma_utf8_len_step(s, b - 1);
        lemma_utf8_len_monotone(s, a, b - 1);
    }
}

proof fn lemma_ascii_utf8_len(s: Seq<char>)
    requires
        is_ascii_chars(s),
    ensures
        utf8_len(s) == s.len(),
    decreases s.len(),
{
    if s.len() > 0 {
        assert(is_ascii_chars(s.drop_last()) && s.last() as u32 <= 0x7f) by {
            assert(s[s.len() - 1] == s.last());
            assert forall|i: int| 0 <= i < s.len() - 1 implies '\0' <= #[trigger] s.drop_last()[i]
                <= '\u{7f}' by {
                assert(s.drop_last()[i] == s[i]);
            }
        }
        lemma_ascii_utf8_len(s.drop_last());
    }
}

proof fn lemma_trim_start_keeps_ascii(s: Seq<char>)
    requires
        is_ascii_chars(s),
    ensures
        is_ascii_chars(trim_start(s)),
    decreases s.len(),
{
    if s.len() > 0 && is_white_space(s[0]) {
        let t = s.drop_first();
        assert forall|i: int| 0 <= i < t.len() implies '\0' <= #[trigger] t[i] <= '\u{7f}' by {
            assert(t[i] == s[i + 1]);
        }
        lemma_trim_start_keeps_ascii(t);
    }
}

proof fn lemma_trim_end_keeps_ascii(s: Seq<char>)
    requires
        is_ascii_chars(s),
    ensures
        is_ascii_chars(trim_end(s)),
    decreases s.len(),
{
    if s.len() > 0 && is_white_space(s.last()) {
        let t = s.drop_last();
        assert forall|i: int| 0 <= i < t.len() implies '\0' <= #[trigger] t[i] <= '\u{7f}' by {
            assert(t[i] == s[i]);
        }
        lemma_trim_end_keeps_ascii(t);
    }
}

/// Every ASCII name can be normalized: no character of it spans byte five.
pub proof fn lemma_ascii_names_normalizable(name: Seq<char>)
    requires
        is_ascii_chars(name),
    ensures
        name_normalizable(name),
{
    lemma_trim_start_keeps_ascii(name);
    lemma_trim_end_keeps_ascii(trim_start(name));
    let t = trim(name);
    lemma_ascii_utf8_len(t);
    if t.len() >= 5 {
        assert forall|i: int| 0 <= i < 5 implies '\0' <= #[trigger] t.take(5)[i] <= '\u{7f}' by {
            assert(t.take(5)[i] == t[i]);
        }
        lemma_ascii_utf8_len(t.take(5));
    }
}

/// Whether a key name can be normalized (see [`name_normalizable`]).
pub fn key_name_normalizable(name: &str) -> (r: bool)
    ensures
        r == name_normalizable(name@),
{
    let t = trim_str(name);
    let v = chars_of(t.as_str());
    let mut i: usize = 0;
    let mut bytes: usize = 0;
    while i < v.len() && bytes < 5
        invariant
            v@ == trim(name@),
            0 <= i <= v.len(),
            bytes == utf8_len(v@.take(i as int)),
            i > 0 ==> utf8_len(v@.take(i - 1)) < 5,
            bytes < 9,
        decreases v.len() - i,
    {
        let u = v[i] as u32;
        let w: usize = if u < 0x80 {
            1
        } else if u < 0x800 {
            2
        } else if u < 0x10000 {
            3
        } else {
            4
        };
        proof {
            lemma_utf8_len_step(v@, i as int);
        }
        assert(v@.take(i as int) == v@.take(i + 1 - 1));
        bytes = bytes + w;
        i += 1;
    }
    proof {
        let s = v@;
        if bytes < 5 {
            assert(s.take(s.len() as int) =~= s);
        } else if bytes == 5 {
        } else {
            assert forall|k: int| 0 <= k <= s.len() implies utf8_len(s.take(k)) != 5 by {
                if k < i {
                    lemma_utf8_len_monotone(s, k, i - 1);
                    lemma_utf8_len_step(s, i - 1);
                    if i - 1 > 0 {
                        lemma_utf8_len_monotone(s, 0, i - 1);
                    }
                } else {
                    lemma_utf8_len_monotone(s, i as int, k);
                }
            }
            lemma_utf8_len_monotone(s, i as int, s.len() as int);
            assert(s.take(s.len() as int) =~= s);
        }
    }
    bytes <= 5
}

fn normalize_chars(name: &str) -> (r: String)
    ensures
        r@ == normalized(name@),
{
    let t = trim_str(name);
    let v = chars_of(t.as_str());
    let p = chars_of("key::");
    proof {
        reveal_strlit("key::");
    }
    assert(p@.len() == 5);
    let mut start: usize = 0;
    if v.len() >= 5 {
        let mut same = true;
        let mut i: usize = 0;
        while i < 5
            invariant
                v@ == trim(name@),
                p@ == "key::"@,
                p@.len() == 5,
                v.len() >= 5,
                0 <= i <= 5,
                same == (forall|j: int| 0 <= j < i ==> ascii_lower(v@[j]) == p@[j]),
            decreases 5 - i,
        {
            if to_ascii_lower(v[i]) != p[i] {
                same = false;
            }
            i += 1;
        }
        if same {
            start = 5;
        }
    }
    let ghost u = v@.skip(start as int);
    assert(u == (if has_key_prefix(trim(name@)) {
        trim(name@).skip(5)
    } else {
        trim(name@)
    })) by {
        if start == 0 {
            assert(v@.skip(0) =~= v@);
        }
    }
    let mut out = String::new();
    let mut i: usize = start;
    while i < v.len()
        invariant
            start <= i <= v.len(),
            u == v@.skip(start as int),
            out@ == lower_alnum(v@.subrange(start as int, i as int)),
        decreases v.len() - i,
    {
        let c = v[i];
        proof {
            let s = v@.subrange(start as int, i + 1);
            assert(s.drop_last() =~= v@.subrange(start as int, i as int));
            assert(s.last() == c);
        }
        if ascii_alnum(c) {
            push_char(&mut out, to_ascii_lower(c));
        }
        i += 1;
    }
    assert(v@.subrange(start as int, v.len() as int) =~= u);
    out
}

/// Reduce a key name for comparison (see [`normalized`]).
pub fn normalize_key_name(name: &str) -> (r: String)
    requires
        name_normalizable(name@),
    ensures
        r@ == normalized(name@),
{
    normalize_chars(name)
}

/// The shorthand modifier names a custom key may use: "control"/"ctrl",
/// "shift", "alt" and "meta"/"win"/"windows", each for both keys of its kind.
pub open spec fn alias_matches(stored: Seq<char>, key: Key) -> bool {
    ||| (stored == "control"@ || stored == "ctrl"@) && (key == Key::ControlLeft || key
        == Key::ControlRight)
    ||| stored == "shift"@ && (key == Key::ShiftLeft || key == Key::ShiftRight)
    ||| stored == "alt"@ && (key == Key::Alt || key == Key::AltGr)
    ||| (stored == "meta"@ || stored == "win"@ || stored == "windows"@) && (key == Key::MetaLeft
        || key == Key::MetaRight)
}

/// Whether a normalized name is a shorthand for `key`'s modifier kind.
pub fn modifier_alias_matches(stored: &str, key: Key) -> (r: bool)
    ensures
        r == alias_matches(stored@, key),
{
    ((str_eq(stored, "control") || str_eq(stored, "ctrl")) && (key == Key::ControlLeft || key
        == Key::ControlRight)) || (str_eq(stored, "shift") && (key == Key::ShiftLeft || key
        == Key::ShiftRight)) || (str_eq(stored, "alt") && (key == Key::Alt || key == Key::AltGr))
        || ((str_eq(stored, "meta") || str_eq(stored, "win") || str_eq(stored, "windows")) && (
    key == Key::MetaLeft || key == Key::MetaRight))
}

/// Whether a custom key name denotes `key`: its normalized form is the
/// normalized key name, a modifier shorthand for it, or its trigger character.
pub open spec fn custom_matches(name: Seq<char>, key: Key) -> bool {
    let stored = normalized(name);
    ||| stored == normalized(key_name(key))
    ||| alias_matches(stored, key)
    ||| (key_char(key) matches Some(c) && stored == seq![c])
}

/// Whether the custom key name `name` denotes `key`.
pub fn custom_key_matches(name: &str, key: Key) -> (r: bool)
    requires
        name_normalizable(name@),
    ensures
        r == custom_matches(name@, key),
{
    let stored = normalize_key_name(name);
    let key_normalized = normalize_chars(key.name().as_str());
    if stored == key_normalized {
        return true;
    }
    if modifier_alias_matches(stored.as_str(), key) {
        return true;
    }
    match key_to_char(key) {
        Some(c) => {
            let mut one = String::new();
            push_char(&mut one, c);
            assert(one@ =~= seq![c]);
            stored == one
        },
        None => false,
    }
}

/// Whether `key` is the configured activation key: a preset compares against
/// its fixed key, a custom key against its normalized name.
pub open spec fn activation_matches(a: ActivationChoice, key: Key) -> bool {
    match a {
        ActivationChoice::Custom(name) => custom_matches(name, key),
        _ => preset_key_of(a) == Some(key),
    }
}

/// Does `key` match the configured activation key?
pub fn is_activation(a: &ActivationKey, key: Key) -> (r: bool)
    requires
        activation_usable(a@),
    ensures
        r == activation_matches(a@, key),
{
    match a {
        ActivationKey::Custom(name) => custom_key_matches(name.as_str(), key),
        _ => preset_key(a) == Some(key),
    }
}

/// A preset activation key is always usable, and matches exactly its fixed
/// key.
pub proof fn lemma_preset_matches_its_key(a: ActivationChoice, key: Key)
    requires
        !(a is Custom),
    ensures
        activation_usable(a),
        activation_matches(a, key) <==> preset_key_of(a) == Some(key),
        preset_key_of(a) is Some,
{
}

/// A custom activation key captured from a key press (the key's name) is
/// usable, and matches the key it was captured from.
pub proof fn lemma_captured_name_matches_key(key: Key)
    ensures
        activation_usable(ActivationChoice::Custom(key_name(key))),
        activation_matches(ActivationChoice::Custom(key_name(key)), key),
{
    lemma_key_name_ascii(key);
    lemma_ascii_names_normalizable(key_name(key));
}

proof fn lemma_lower_alnum_of_digits(d: Seq<char>)
    requires
        forall|i: int| 0 <= i < d.len() ==> '0' <= #[trigger] d[i] <= '9',
    ensures
        lower_alnum(seq!['F'] + d) == seq!['f'] + d,
    decreases d.len(),
{
    let s = seq!['F'] + d;
    if d.len() > 0 {
        assert(s.drop_last() =~= seq!['F'] + d.drop_last());
        assert(s.last() == d.last());
        assert(d.last() == d[d.len() - 1]);
        lemma_lower_alnum_of_digits(d.drop_last());
        assert(seq!['f'] + d =~= (seq!['f'] + d.drop_last()).push(d.last()));
    } else {
        assert(s.drop_last() =~= Seq::<char>::empty());
        assert(s =~= seq!['F']);
        assert(ascii_lower('F') == 'f');
        assert(lower_alnum(s.drop_last()) =~= Seq::<char>::empty());
        assert(s.last() == 'F');
        assert(lower_alnum(s) =~= seq!['f']);
        assert(seq!['f'] + d =~= seq!['f']);
    }
}

proof fn lemma_function_key_normalized(n: nat)
    requires
        1 <= n <= 12,
    ensures
        normalized(key_name(function_key(n)->0)) == seq!['f'] + decimal(n),
{
    lemma_function_key_names(n);
    lemma_decimal_digits(n);
    reveal_with_fuel(decimal, 2);
    let s = seq!['F'] + decimal(n);
    assert(s.len() <= 3);
    assert(s[0] == 'F');
    assert(s.last() == decimal(n).last());
    assert(decimal(n).last() == decimal(n)[decimal(n).len() - 1]);
    assert(trim_start(s) == s);
    assert(trim_end(s) == s);
    assert(!has_key_prefix(s));
    lemma_lower_alnum_of_digits(decimal(n));
}

/// A custom activation key named after a function key (as a capture of
/// that key names it) matches that function key and no other.
pub proof fn lemma_function_key_names_match_exactly(n: nat, m: nat)
    requires
        1 <= n <= 12,
        1 <= m <= 12,
    ensures
        activation_matches(
            ActivationChoice::Custom(key_name(function_key(n)->0)),
            function_key(m)->0,
        ) <==> n == m,
{
    lemma_function_key_normalized(n);
    lemma_function_key_normalized(m);
    lemma_function_key_names(m);
    let stored = seq!['f'] + decimal(n);
    let km = function_key(m)->0;
    if stored == seq!['f'] + decimal(m) {
        assert(decimal(n) =~= stored.skip(1));
        assert(decimal(m) =~= stored.skip(1));
        lemma_decimal_injective(n, m);
    }
    assert(key_char(km) is None);
    assert(!alias_matches(stored, km));
}

/// The modifier that pastes: Right Ctrl when the activation key is Left Ctrl
/// (so the paste chord is not taken for an activation), else Left Ctrl.
pub open spec fn paste_modifier_of(a: ActivationChoice) -> Key {
    if activation_matches(a, Key::ControlLeft) {
        Key::ControlRight
    } else {
        Key::ControlLeft
    }
}

/// The modifier the expansion pastes with (see [`paste_modifier_of`]).
pub fn paste_modifier_for_activation(a: &ActivationKey) -> (r: Key)
    requires
        activation_usable(a@),
    ensures
        r == paste_modifier_of(a@),
{
    if is_activation(a, Key::ControlLeft) {
        Key::ControlRight
    } else {
        Key::ControlLeft
    }
}

/// The expansion pastes with a Control key: Right Ctrl when the activation
/// key is (or stands for) Left Ctrl, so the paste chord is not taken for an
/// activation, and Left Ctrl otherwise.
pub proof fn lemma_paste_modifier_is_control(a: ActivationChoice)
    ensures
        paste_modifier_of(a) == Key::ControlLeft || paste_modifier_of(a) == Key::ControlRight,
        paste_modifier_of(a) == Key::ControlRight <==> activation_matches(a, Key::ControlLeft),
{
}

/// What the engine state stands for.
pub struct HookModel {
    /// The typed trigger characters.
    pub buffer: Seq<char>,
    /// The most characters the buffer holds.
    pub cap: nat,
    /// The modifiers held.
    pub modifiers: ModifierState,
    /// Whether the activation key is down.
    pub down: bool,
    /// Whether another key went down or up while the activation key was down.
    pub chorded: bool,
    /// Whether the activation key's press passed through to the application.
    pub passthrough_down: bool,
}

/// An expansion to carry out: delete the trigger, paste the text.
pub struct ExpansionModel {
    pub trigger_len: nat,
    pub text: Seq<char>,
    pub paste_modifier: Key,
}

/// What to do with an event.
pub struct DecisionModel {
    /// Whether the event goes on to the application.
    pub pass: bool,
    /// An expansion to carry out.
    pub expansion: Option<ExpansionModel>,
    /// A key whose press and release are to be replayed.
    pub replay: Option<Key>,
}

/// Pass the event on, and do nothing else.
pub open spec fn pass_only() -> DecisionModel {
    DecisionModel { pass: true, expansion: None, replay: None }
}

/// The buffer after pressing a key that is not the activation key:
/// Backspace deletes a character (or clears the buffer when chorded with a
/// modifier), a key that types a trigger character appends it, and any other
/// key clears the buffer.
pub open spec fn buffer_after_press(buffer: Seq<char>, cap: nat, key: Key, m: ModifierState) -> Seq<
    char,
> {
    if key == Key::Backspace {
        if any_held(m, key) {
            Seq::empty()
        } else if buffer.len() > 0 {
            buffer.drop_last()
        } else {
            buffer
        }
    } else {
        match trigger_char(key, m) {
            Some(c) => pushed(buffer, cap, c),
            None => Seq::empty(),
        }
    }
}

/// One step of the engine: the state after `ev` and what to do with it,
/// under activation key `a` and trigger table `map`.
///
/// - Activation key press: remember whether it is chorded and whether it
///   passes through (see [`press_passes`]); the buffer is kept.
/// - Activation key release: if it was chorded, pass it on as the press did
///   and keep the buffer. Otherwise clear the buffer; if the buffer was a
///   trigger, expand it; if not, and the press was held back, replay the key.
/// - Any other key event marks a held activation key as chorded; a press
///   edits the buffer (see [`buffer_after_press`]). It always passes through.
pub open spec fn hook_step(
    s: HookModel,
    ev: KeyEvent,
    a: ActivationChoice,
    map: Map<Seq<char>, Seq<char>>,
) -> (HookModel, DecisionModel) {
    match ev {
        KeyEvent::Press(k) => {
            let m = with_modifier(s.modifiers, k, true);
            if activation_matches(a, k) {
                let pass = press_passes(k, m);
                (
                    HookModel {
                        modifiers: m,
                        down: true,
                        chorded: any_held(m, k),
                        passthrough_down: pass,
                        ..s
                    },
                    DecisionModel { pass, expansion: None, replay: None },
                )
            } else {
                (
                    HookModel {
                        buffer: buffer_after_press(s.buffer, s.cap, k, m),
                        modifiers: m,
                        chorded: s.chorded || s.down,
                        ..s
                    },
                    pass_only(),
                )
            }
        },
        KeyEvent::Release(k) => {
            let m = with_modifier(s.modifiers, k, false);
            if activation_matches(a, k) {
                let chorded = s.chorded || any_held(m, k);
                let pass = s.passthrough_down;
                let idle = HookModel {
                    modifiers: m,
                    down: false,
                    chorded: false,
                    passthrough_down: true,
                    ..s
                };
                if chorded {
                    (idle, DecisionModel { pass, expansion: None, replay: None })
                } else if map.contains_key(s.buffer) {
                    (
                        HookModel { buffer: Seq::empty(), ..idle },
                        DecisionModel {
                            pass,
                            expansion: Some(
                                ExpansionModel {
                                    trigger_len: s.buffer.len(),
                                    text: map[s.buffer],
                                    paste_modifier: paste_modifier_of(a),
                                },
                            ),
                            replay: None,
                        },
                    )
                } else {
                    (
                        HookModel { buffer: Seq::empty(), ..idle },
                        DecisionModel {
                            pass,
                            expansion: None,
                            replay: if pass {
                                None
                            } else {
                                Some(k)
                            },
                        },
                    )
                }
            } else {
                (HookModel { modifiers: m, chorded: s.chorded || s.down, ..s }, pass_only())
            }
        },
        KeyEvent::Other => (s, pass_only()),
    }
}

/// The engine's step with the expander's own keystrokes told apart: while
/// an expansion or a replay is being typed (`expanding`), every event passes
/// through untouched and the state stays as it was; otherwise see
/// [`hook_step`].
pub open spec fn engine_step(
    s: HookModel,
    ev: KeyEvent,
    expanding: bool,
    a: ActivationChoice,
    map: Map<Seq<char>, Seq<char>>,
) -> (HookModel, DecisionModel) {
    if expanding {
        (s, pass_only())
    } else {
        hook_step(s, ev, a, map)
    }
}

/// An expansion to carry out: delete `trigger_len` characters, then paste
/// `text` with `paste_modifier` held.
#[derive(Debug)]
pub struct Expansion {
    pub trigger_len: usize,
    pub text: String,
    pub paste_modifier: Key,
}

/// What to do with a keyboard event.
#[derive(Debug)]
pub struct HookDecision {
    /// Whether the event goes on to the application.
    pub pass: bool,
    /// An expansion to carry out.
    pub expansion: Option<Expansion>,
    /// A key whose press and release are to be replayed.
    pub replay: Option<Key>,
}

impl View for HookDecision {
    type V = DecisionModel;

    open spec fn view(&self) -> DecisionModel {
        DecisionModel {
            pass: self.pass,
            expansion: match self.expansion {
                Some(e) => Some(
                    ExpansionModel {
                        trigger_len: e.trigger_len as nat,
                        text: e.text@,
                        paste_modifier: e.paste_modifier,
                    },
                ),
                None => None,
            },
            replay: self.replay,
        }
    }
}

/// The state of the expansion engine between keyboard events.
pub struct HookState {
    matcher: Matcher,
    modifiers: ModifierState,
    activation_down: bool,
    activation_chorded: bool,
    activation_passthrough_down: bool,
}

impl View for HookState {
    type V = HookModel;

    closed spec fn view(&self) -> HookModel {
        HookModel {
            buffer: self.matcher.buffer(),
            cap: self.matcher.capacity(),
            modifiers: self.modifiers,
            down: self.activation_down,
            chorded: self.activation_chorded,
            passthrough_down: self.activation_passthrough_down,
        }
    }
}

impl HookState {
    /// The engine at start: empty buffer of [`BUFFER_CAP`] characters, no
    /// modifier held, activation key up.
    pub fn new() -> (r: HookState)
        ensures
            r@.buffer == Seq::<char>::empty(),
            r@.cap == BUFFER_CAP,
            !any_held(r@.modifiers, Key::Space),
            !r@.down,
            !r@.chorded,
            r@.passthrough_down,
    {
        HookState {
            matcher: Matcher::new(BUFFER_CAP),
            modifiers: ModifierState::default(),
            activation_down: false,
            activation_chorded: false,
            activation_passthrough_down: true,
        }
    }

    /// Handle one keyboard event (see [`engine_step`]); `expanding` tells
    /// whether the event may be one the expander is replaying.
    pub fn handle(
        &mut self,
        event: KeyEvent,
        expanding: bool,
        activation: &ActivationKey,
        map: &TriggerMap,
    ) -> (r: HookDecision)
        requires
            expanding || event is Other || activation_usable(activation@),
        ensures
            (final(self)@, r@) == engine_step(old(self)@, event, expanding, activation@, map@),
    {
        if expanding {
            HookDecision { pass: true, expansion: None, replay: None }
        } else {
            self.step(event, activation, map)
        }
    }

    /// One step of the engine on an event typed by the user (see [`hook_step`]).
    fn step(&mut self, event: KeyEvent, activation: &ActivationKey, map: &TriggerMap) -> (r:
        HookDecision)
        requires
            event is Other || activation_usable(activation@),
        ensures
            (final(self)@, r@) == hook_step(old(self)@, event, activation@, map@),
    {
        match event {
            KeyEvent::Press(key) => {
                self.modifiers.set(key, true);
                if is_activation(activation, key) {
                    self.activation_down = true;
                    self.activation_chorded = self.modifiers.any_excluding(key);
                    self.activation_passthrough_down = activation_press_passthrough(
                        key,
                        self.modifiers,
                    );
                    HookDecision {
                        pass: self.activation_passthrough_down,
                        expansion: None,
                        replay: None,
                    }
                } else {
                    if self.activation_down {
                        self.activation_chorded = true;
                    }
                    if key == Key::Backspace {
                        if self.modifiers.any_excluding(Key::Backspace) {
                            self.matcher.reset();
                        } else {
                            self.matcher.backspace();
                        }
                    } else {
                        match trigger_char_for_key(key, self.modifiers) {
                            Some(c) => self.matcher.push_char(c),
                            None => self.matcher.reset(),
                        }
                    }
                    HookDecision { pass: true, expansion: None, replay: None }
                }
            },
            KeyEvent::Release(key) => {
                self.modifiers.set(key, false);
                if is_activation(activation, key) {
                    let chorded = self.activation_chorded || self.modifiers.any_excluding(key);
                    let pass = self.activation_passthrough_down;
                    self.activation_down = false;
                    self.activation_chorded = false;
                    self.activation_passthrough_down = true;
                    if chorded {
                        return HookDecision { pass, expansion: None, replay: None };
                    }
                    let matched = self.matcher.check(map);
                    self.matcher.reset();
                    match matched {
                        Some(trigger) => {
                            let text = match map.get(trigger.as_str()) {
                                Some(t) => t.clone(),
                                None => String::new(),
                            };
                            let trigger_len = trigger.as_str().unicode_len();
                            let paste_modifier = paste_modifier_for_activation(activation);
                            HookDecision {
                                pass,
                                expansion: Some(Expansion { trigger_len, text, paste_modifier }),
                                replay: None,
                            }
                        },
                        None => {
                            let replay = if pass {
                                None
                            } else {
                                Some(key)
                            };
                            HookDecision { pass, expansion: None, replay }
                        },
                    }
                } else {
                    if self.activation_down {
                        self.activation_chorded = true;
                    }
                    HookDecision { pass: true, expansion: None, replay: None }
                }
            },
            KeyEvent::Other => HookDecision { pass: true, expansion: None, replay: None },
        }
    }
}

/// The characters the keys type agree with the keys' names: a key that
/// types a letter is the key named `Key` and that letter in upper case, a key
/// that types a digit is the key named `Num` and that digit; and conversely
/// every key so named types that letter or digit. So typing the keys of a
/// trigger fills the buffer with that trigger's own text.
pub proof fn lemma_key_char_agrees_with_name(k: Key)
    ensures
        key_char(k) matches Some(c) ==> {
            ||| 'a' <= c <= 'z' && key_name(k) == seq!['K', 'e', 'y', ((c as int) - 32) as char]
            ||| '0' <= c <= '9' && key_name(k) == seq!['N', 'u', 'm', c]
        },
        ({
            let n = key_name(k);
            n.len() == 4 && n[0] == 'K' && n[1] == 'e' && n[2] == 'y' && 'A' <= n[3] <= 'Z'
                ==> key_char(k) == Some(((n[3] as int) + 32) as char)
        }),
        ({
            let n = key_name(k);
            n.len() == 4 && n[0] == 'N' && n[1] == 'u' && n[2] == 'm' && '0' <= n[3] <= '9'
                ==> key_char(k) == Some(n[3])
        }),
{
    match k {
        Key::Alt => reveal_strlit("Alt"),
        Key::AltGr => reveal_strlit("AltGr"),
        Key::Backspace => reveal_strlit("Backspace"),
        Key::CapsLock => reveal_strlit("CapsLock"),
        Key::ControlLeft => reveal_strlit("ControlLeft"),
        Key::ControlRight => reveal_strlit("ControlRight"),
        Key::Delete => reveal_strlit("Delete"),
        Key::DownArrow => reveal_strlit("DownArrow"),
        Key::End => reveal_strlit("End"),
        Key::Escape => reveal_strlit("Escape"),
        Key::F1 => reveal_strlit("F1"),
        Key::F10 => reveal_strlit("F10"),
        Key::F11 => reveal_strlit("F11"),
        Key::F12 => reveal_strlit("F12"),
        Key::F2 => reveal_strlit("F2"),
        Key::F3 => reveal_strlit("F3"),
        Key::F4 => reveal_strlit("F4"),
        Key::F5 => reveal_strlit("F5"),
        Key::F6 => reveal_strlit("F6"),
        Key::F7 => reveal_strlit("F7"),
        Key::F8 => reveal_strlit("F8"),
        Key::F9 => reveal_strlit("F9"),
        Key::Home => reveal_strlit("Home"),
        Key::LeftArrow => reveal_strlit("LeftArrow"),
        Key::MetaLeft => reveal_strlit("MetaLeft"),
        Key::MetaRight => reveal_strlit("MetaRight"),
        Key::PageDown => reveal_strlit("PageDown"),
        Key::PageUp => reveal_strlit("PageUp"),
        Key::Return => reveal_strlit("Return"),
        Key::RightArrow => reveal_strlit("RightArrow"),
        Key::ShiftLeft => reveal_strlit("ShiftLeft"),
        Key::ShiftRight => reveal_strlit("ShiftRight"),
        Key::Space => reveal_strlit("Space"),
        Key::Tab => reveal_strlit("Tab"),
        Key::UpArrow => reveal_strlit("UpArrow"),
        Key::PrintScreen => reveal_strlit("PrintScreen"),
        Key::ScrollLock => reveal_strlit("ScrollLock"),
        Key::Pause => reveal_strlit("Pause"),
        Key::NumLock => reveal_strlit("NumLock"),
        Key::BackQuote => reveal_strlit("BackQuote"),
        Key::Num1 => reveal_strlit("Num1"),
        Key::Num2 => reveal_strlit("Num2"),
        Key::Num3 => reveal_strlit("Num3"),
        Key::Num4 => reveal_strlit("Num4"),
        Key::Num5 => reveal_strlit("Num5"),
        Key::Num6 => reveal_strlit("Num6"),
        Key::Num7 => reveal_strlit("Num7"),
        Key::Num8 => reveal_strlit("Num8"),
        Key::Num9 => reveal_strlit("Num9"),
        Key::Num0 => reveal_strlit("Num0"),
        Key::Minus => reveal_strlit("Minus"),
        Key::Equal => reveal_strlit("Equal"),
        Key::KeyQ => reveal_strlit("KeyQ"),
        Key::KeyW => reveal_strlit("KeyW"),
        Key::KeyE => reveal_strlit("KeyE"),
        Key::KeyR => reveal_strlit("KeyR"),
        Key::KeyT => reveal_strlit("KeyT"),
        Key::KeyY => reveal_strlit("KeyY"),
        Key::KeyU => reveal_strlit("KeyU"),
        Key::KeyI => reveal_strlit("KeyI"),
        Key::KeyO => reveal_strlit("KeyO"),
        Key::KeyP => reveal_strlit("KeyP"),
        Key::LeftBracket => reveal_strlit("LeftBracket"),
        Key::RightBracket => reveal_strlit("RightBracket"),
        Key::KeyA => reveal_strlit("KeyA"),
        Key::KeyS => reveal_strlit("KeyS"),
        Key::KeyD => reveal_strlit("KeyD"),
        Key::KeyF => reveal_strlit("KeyF"),
        Key::KeyG => reveal_strlit("KeyG"),
        Key::KeyH => reveal_strlit("KeyH"),
        Key::KeyJ => reveal_strlit("KeyJ"),
        Key::KeyK => reveal_strlit("KeyK"),
        Key::KeyL => reveal_strlit("KeyL"),
        Key::SemiColon => reveal_strlit("SemiColon"),
        Key::Quote => reveal_strlit("Quote"),
        Key::BackSlash => reveal_strlit("BackSlash"),
        Key::IntlBackslash => reveal_strlit("IntlBackslash"),
        Key::KeyZ => reveal_strlit("KeyZ"),
        Key::KeyX => reveal_strlit("KeyX"),
        Key::KeyC => reveal_strlit("KeyC"),
        Key::KeyV => reveal_strlit("KeyV"),
        Key::KeyB => reveal_strlit("KeyB"),
        Key::KeyN => reveal_strlit("KeyN"),
        Key::KeyM => reveal_strlit("KeyM"),
        Key::Comma => reveal_strlit("Comma"),
        Key::Dot => reveal_strlit("Dot"),
        Key::Slash => reveal_strlit("Slash"),
        Key::Insert => reveal_strlit("Insert"),
        Key::KpReturn => reveal_strlit("KpReturn"),
        Key::KpMinus => reveal_strlit("KpMinus"),
        Key::KpPlus => reveal_strlit("KpPlus"),
        Key::KpMultiply => reveal_strlit("KpMultiply"),
        Key::KpDivide => reveal_strlit("KpDivide"),
        Key::Kp0 => reveal_strlit("Kp0"),
        Key::Kp1 => reveal_strlit("Kp1"),
        Key::Kp2 => reveal_strlit("Kp2"),
        Key::Kp3 => reveal_strlit("Kp3"),
        Key::Kp4 => reveal_strlit("Kp4"),
        Key::Kp5 => reveal_strlit("Kp5"),
        Key::Kp6 => reveal_strlit("Kp6"),
        Key::Kp7 => reveal_strlit("Kp7"),
        Key::Kp8 => reveal_strlit("Kp8"),
        Key::Kp9 => reveal_strlit("Kp9"),
        Key::KpDelete => reveal_strlit("KpDelete"),
        Key::Function => reveal_strlit("Function"),
        Key::Unknown(n) => reveal_strlit("Unknown("),
    }
}

/// The trigger characters: lowercase ASCII letters and digits.
pub open spec fn is_trigger_char(c: char) -> bool {
    ('a' <= c <= 'z') || ('0' <= c <= '9')
}

proof fn lemma_held_ignores_own_key(m: ModifierState, k: Key, d: bool)
    ensures
        any_held(with_modifier(m, k, d), k) == any_held(m, k),
        shortcut_held(with_modifier(m, k, d), k) == shortcut_held(m, k),
        shift_held(with_modifier(m, k, d), k) == shift_held(m, k),
        !is_modifier(k) ==> with_modifier(m, k, d) == m,
{
}

/// Expansion happens only on a release of the activation key that was not
/// chorded with another key or modifier, when the typed characters are a
/// trigger; it deletes exactly the trigger's characters, pastes the
/// trigger's replacement, and leaves the buffer empty.
pub proof fn lemma_expansion_only_on_clean_release(
    s: HookModel,
    ev: KeyEvent,
    a: ActivationChoice,
    map: Map<Seq<char>, Seq<char>>,
)
    ensures
        ({
            let (next, d) = hook_step(s, ev, a, map);
            d.expansion matches Some(e) ==> {
                &&& ev matches KeyEvent::Release(k) && activation_matches(a, k) && !any_held(
                    s.modifiers,
                    k,
                )
                &&& !s.chorded
                &&& map.contains_key(s.buffer)
                &&& e.trigger_len == s.buffer.len()
                &&& e.text == map[s.buffer]
                &&& e.paste_modifier == paste_modifier_of(a)
                &&& next.buffer.len() == 0
                &&& d.replay is None
            }
        }),
{
    if let KeyEvent::Release(k) = ev {
        lemma_held_ignores_own_key(s.modifiers, k, false);
    }
}

/// Events of keys other than the activation key always reach the
/// application, and never expand or replay anything.
pub proof fn lemma_other_keys_pass_through(
    s: HookModel,
    ev: KeyEvent,
    a: ActivationChoice,
    map: Map<Seq<char>, Seq<char>>,
)
    requires
        !(ev matches KeyEvent::Press(k) && activation_matches(a, k)),
        !(ev matches KeyEvent::Release(k) && activation_matches(a, k)),
    ensures
        hook_step(s, ev, a, map).1 == pass_only(),
{
}

/// The buffer only ever holds trigger characters, and never more than its
/// capacity: both are kept by every step.
pub proof fn lemma_buffer_stays_well_formed(
    s: HookModel,
    ev: KeyEvent,
    a: ActivationChoice,
    map: Map<Seq<char>, Seq<char>>,
)
    requires
        s.buffer.len() <= s.cap,
        forall|i: int| 0 <= i < s.buffer.len() ==> is_trigger_char(#[trigger] s.buffer[i]),
    ensures
        ({
            let next = hook_step(s, ev, a, map).0;
            &&& next.buffer.len() <= next.cap
            &&& next.cap == s.cap
            &&& forall|i: int| 0 <= i < next.buffer.len() ==> is_trigger_char(#[trigger] next.buffer[i])
        }),
{
    let next = hook_step(s, ev, a, map).0;
    if let KeyEvent::Press(k) = ev {
        let m = with_modifier(s.modifiers, k, true);
        if !activation_matches(a, k) && k != Key::Backspace {
            if let Some(c) = trigger_char(k, m) {
                let b = s.buffer.push(c);
                assert(is_trigger_char(c));
                assert forall|i: int| 0 <= i < next.buffer.len() implies is_trigger_char(
                    #[trigger] next.buffer[i],
                ) by {
                    if b.len() > s.cap {
                        assert(next.buffer[i] == b[i + b.len() - s.cap]);
                    } else {
                        assert(next.buffer[i] == b[i]);
                    }
                }
            }
        } else if !activation_matches(a, k) && s.buffer.len() > 0 && !any_held(m, k) {
            assert forall|i: int| 0 <= i < next.buffer.len() implies is_trigger_char(
                #[trigger] next.buffer[i],
            ) by {
                assert(next.buffer[i] == s.buffer[i]);
            }
        }
    }
}

/// Tapping the activation key alone (no other key or modifier held) right
/// after typing a trigger expands it: the press and the release leave the
/// buffer empty and the release asks to delete the trigger's characters and
/// paste its replacement.
pub proof fn lemma_tap_expands_trigger(
    s: HookModel,
    k: Key,
    a: ActivationChoice,
    map: Map<Seq<char>, Seq<char>>,
)
    requires
        activation_matches(a, k),
        !any_held(s.modifiers, k),
        map.contains_key(s.buffer),
    ensures
        ({
            let (s1, d1) = hook_step(s, KeyEvent::Press(k), a, map);
            let (s2, d2) = hook_step(s1, KeyEvent::Release(k), a, map);
            &&& d1.expansion is None
            &&& d2.expansion == Some(
                ExpansionModel {
                    trigger_len: s.buffer.len(),
                    text: map[s.buffer],
                    paste_modifier: paste_modifier_of(a),
                },
            )
            &&& d2.pass == d1.pass
            &&& s2.buffer.len() == 0
            &&& !s2.down
        }),
{
    lemma_held_ignores_own_key(s.modifiers, k, true);
    let m = with_modifier(s.modifiers, k, true);
    lemma_held_ignores_own_key(m, k, false);
}

/// A non-modifier activation key tapped alone is held back from the
/// application; when no trigger was typed, its press and release are
/// replayed so the key keeps its usual effect.
pub proof fn lemma_unmatched_tap_is_replayed(
    s: HookModel,
    k: Key,
    a: ActivationChoice,
    map: Map<Seq<char>, Seq<char>>,
)
    requires
        activation_matches(a, k),
        !is_modifier(k),
        !any_held(s.modifiers, k),
        !map.contains_key(s.buffer),
    ensures
        ({
            let (s1, d1) = hook_step(s, KeyEvent::Press(k), a, map);
            let (s2, d2) = hook_step(s1, KeyEvent::Release(k), a, map);
            &&& !d1.pass
            &&& !d2.pass
            &&& d2.expansion is None
            &&& d2.replay == Some(k)
        }),
{
    lemma_held_ignores_own_key(s.modifiers, k, true);
    let m = with_modifier(s.modifiers, k, true);
    lemma_held_ignores_own_key(m, k, false);
}

/// A modifier activation key always reaches the application, press and
/// release, so shortcuts with it keep working.
pub proof fn lemma_modifier_activation_passes(
    s: HookModel,
    k: Key,
    a: ActivationChoice,
    map: Map<Seq<char>, Seq<char>>,
)
    requires
        activation_matches(a, k),
        is_modifier(k),
    ensures
        ({
            let (s1, d1) = hook_step(s, KeyEvent::Press(k), a, map);
            let (s2, d2) = hook_step(s1, KeyEvent::Release(k), a, map);
            d1.pass && d2.pass && d2.replay is None
        }),
{
}

/// Pressing the activation key while another modifier is held is a shortcut
/// (say Shift+Insert), not an activation: the press reaches the
/// application, and so does the release after it, which neither expands
/// nor replays anything.
pub proof fn lemma_chorded_activation_passes(
    s: HookModel,
    k: Key,
    a: ActivationChoice,
    map: Map<Seq<char>, Seq<char>>,
)
    requires
        activation_matches(a, k),
        any_held(s.modifiers, k),
    ensures
        ({
            let (s1, d1) = hook_step(s, KeyEvent::Press(k), a, map);
            let (s2, d2) = hook_step(s1, KeyEvent::Release(k), a, map);
            &&& d1.pass
            &&& d2.pass
            &&& d2.expansion is None
            &&& d2.replay is None
            &&& s2.buffer == s.buffer
        }),
{
    lemma_held_ignores_own_key(s.modifiers, k, true);
}

/// Whether an activation key press reaches the application: it does
/// exactly when the key is a modifier or another modifier is held.
pub proof fn lemma_activation_press_passes_iff(
    s: HookModel,
    k: Key,
    a: ActivationChoice,
    map: Map<Seq<char>, Seq<char>>,
)
    requires
        activation_matches(a, k),
    ensures
        hook_step(s, KeyEvent::Press(k), a, map).1.pass == (is_modifier(k) || any_held(
            s.modifiers,
            k,
        )),
{
    lemma_held_ignores_own_key(s.modifiers, k, true);
}

/// The state after typing each of `keys` in turn (press, then release).
pub open spec fn type_keys(
    s: HookModel,
    keys: Seq<Key>,
    a: ActivationChoice,
    map: Map<Seq<char>, Seq<char>>,
) -> HookModel
    decreases keys.len(),
{
    if keys.len() == 0 {
        s
    } else {
        let before = type_keys(s, keys.drop_last(), a, map);
        let pressed = hook_step(before, KeyEvent::Press(keys.last()), a, map).0;
        hook_step(pressed, KeyEvent::Release(keys.last()), a, map).0
    }
}

/// Typing character keys with no modifier held appends their characters to
/// the buffer, which keeps the last `cap` of them; the modifiers stay as
/// they were.
pub proof fn lemma_typing_fills_buffer(
    s: HookModel,
    keys: Seq<Key>,
    a: ActivationChoice,
    map: Map<Seq<char>, Seq<char>>,
)
    requires
        s.buffer.len() <= s.cap,
        !any_held(s.modifiers, Key::Space),
        forall|i: int|
            0 <= i < keys.len() ==> #[trigger] key_char(keys[i]) is Some && !activation_matches(
                a,
                keys[i],
            ),
    ensures
        type_keys(s, keys, a, map).buffer == crate::matcher::last_n(
            s.buffer + keys.map_values(|k: Key| key_char(k)->0),
            s.cap,
        ),
        type_keys(s, keys, a, map).modifiers == s.modifiers,
        type_keys(s, keys, a, map).cap == s.cap,
    decreases keys.len(),
{
    if keys.len() > 0 {
        let front = keys.drop_last();
        let k = keys.last();
        assert forall|i: int| 0 <= i < front.len() implies #[trigger] key_char(front[i]) is Some
            && !activation_matches(a, front[i]) by {
            assert(front[i] == keys[i]);
        }
        assert(key_char(keys[keys.len() - 1]) is Some);
        lemma_typing_fills_buffer(s, front, a, map);
        let chars = keys.map_values(|k: Key| key_char(k)->0);
        let front_chars = front.map_values(|k: Key| key_char(k)->0);
        assert(chars =~= front_chars.push(key_char(k)->0));
        let before = type_keys(s, front, a, map);
        crate::matcher::lemma_typing_keeps_last(s.buffer, s.cap, front_chars);
        crate::matcher::lemma_typing_keeps_last(s.buffer, s.cap, chars);
        assert(chars.drop_last() =~= front_chars);
        assert(!is_modifier(k));
        assert(before.buffer.len() <= s.cap);
    }
}

/// The central promise: from an empty buffer with no modifier held, typing
/// the keys of a trigger (at most `cap` of them) and then tapping the
/// activation key alone expands exactly that trigger: its characters are
/// deleted and its replacement pasted.
pub proof fn lemma_type_then_tap_expands(
    s: HookModel,
    keys: Seq<Key>,
    k: Key,
    a: ActivationChoice,
    map: Map<Seq<char>, Seq<char>>,
)
    requires
        s.buffer.len() == 0,
        keys.len() <= s.cap,
        !any_held(s.modifiers, Key::Space),
        forall|i: int|
            0 <= i < keys.len() ==> #[trigger] key_char(keys[i]) is Some && !activation_matches(
                a,
                keys[i],
            ),
        activation_matches(a, k),
        map.contains_key(keys.map_values(|key: Key| key_char(key)->0)),
    ensures
        ({
            let typed = type_keys(s, keys, a, map);
            let trigger = keys.map_values(|key: Key| key_char(key)->0);
            let (s1, d1) = hook_step(typed, KeyEvent::Press(k), a, map);
            let (s2, d2) = hook_step(s1, KeyEvent::Release(k), a, map);
            &&& d2.expansion == Some(
                ExpansionModel {
                    trigger_len: keys.len(),
                    text: map[trigger],
                    paste_modifier: paste_modifier_of(a),
                },
            )
            &&& s2.buffer.len() == 0
        }),
{
    let trigger = keys.map_values(|key: Key| key_char(key)->0);
    lemma_typing_fills_buffer(s, keys, a, map);
    assert(s.buffer + trigger =~= trigger);
    let typed = type_keys(s, keys, a, map);
    assert(typed.buffer == trigger);
    assert(!any_held(typed.modifiers, k));
    lemma_tap_expands_trigger(typed, k, a, map);
}

/// Separator keys (Return, Tab, Space) clear the typed characters.
pub proof fn lemma_separators_clear_buffer(
    s: HookModel,
    k: Key,
    a: ActivationChoice,
    map: Map<Seq<char>, Seq<char>>,
)
    requires
        k == Key::Return || k == Key::Tab || k == Key::Space,
        !activation_matches(a, k),
    ensures
        hook_step(s, KeyEvent::Press(k), a, map).0.buffer.len() == 0,
{
}

/// Custom key names that read the same once normalized denote the same keys.
pub proof fn lemma_custom_names_compare_normalized(n1: Seq<char>, n2: Seq<char>, key: Key)
    requires
        normalized(n1) == normalized(n2),
    ensures
        custom_matches(n1, key) == custom_matches(n2, key),
{
}

/// While the expander types its own keystrokes, the engine lets every event
/// through, and neither its buffer nor any other part of its state moves.
pub proof fn lemma_replayed_events_pass_through(
    s: HookModel,
    ev: KeyEvent,
    a: ActivationChoice,
    map: Map<Seq<char>, Seq<char>>,
)
    ensures
        engine_step(s, ev, true, a, map) == (s, pass_only()),
{
}

} // verus!
