//! Keyboard keys and key events, as the input backend reports them.
use vstd::prelude::*;

use vstd::utf8::is_ascii_chars;

use crate::text::push_char;

verus! {

/// A physical key on a standard QWERTY layout.
#[derive(Debug, Clone, Copy, PartialEq, Eq, Structural)]
pub enum Key {
    /// Alt key on Linux and Windows (option key on macOS).
    Alt,
    AltGr,
    Backspace,
    CapsLock,
    ControlLeft,
    ControlRight,
    Delete,
    DownArrow,
    End,
    Escape,
    F1,
    F10,
    F11,
    F12,
    F2,
    F3,
    F4,
    F5,
    F6,
    F7,
    F8,
    F9,
    Home,
    LeftArrow,
    /// Also known as "windows", "super", and "command".
    MetaLeft,
    /// Also known as "windows", "super", and "command".
    MetaRight,
    PageDown,
    PageUp,
    Return,
    RightArrow,
    ShiftLeft,
    ShiftRight,
    Space,
    Tab,
    UpArrow,
    PrintScreen,
    ScrollLock,
    Pause,
    NumLock,
    BackQuote,
    Num1,
    Num2,
    Num3,
    Num4,
    Num5,
    Num6,
    Num7,
    Num8,
    Num9,
    Num0,
    Minus,
    Equal,
    KeyQ,
    KeyW,
    KeyE,
    KeyR,
    KeyT,
    KeyY,
    KeyU,
    KeyI,
    KeyO,
    KeyP,
    LeftBracket,
    RightBracket,
    KeyA,
    KeyS,
    KeyD,
    KeyF,
    KeyG,
    KeyH,
    KeyJ,
    KeyK,
    KeyL,
    SemiColon,
    Quote,
    BackSlash,
    IntlBackslash,
    KeyZ,
    KeyX,
    KeyC,
    KeyV,
    KeyB,
    KeyN,
    KeyM,
    Comma,
    Dot,
    Slash,
    Insert,
    KpReturn,
    KpMinus,
    KpPlus,
    KpMultiply,
    KpDivide,
    Kp0,
    Kp1,
    Kp2,
    Kp3,
    Kp4,
    Kp5,
    Kp6,
    Kp7,
    Kp8,
    Kp9,
    KpDelete,
    Function,
    /// A key the backend has no name for, by its platform code.
    Unknown(u32),
}

/// A keyboard event: a key going down or up. Events of other devices are
/// `Other`.
#[derive(Debug, Clone, Copy, PartialEq, Eq, Structural)]
pub enum KeyEvent {
    Press(Key),
    Release(Key),
    Other,
}

/// The decimal digits of `n`.
pub open spec fn decimal(n: nat) -> Seq<char>
    decreases n,
{
    if n < 10 {
        seq![((48 + n) as u32) as char]
    } else {
        decimal(n / 10).push(((48 + n % 10) as u32) as char)
    }
}

/// The name of a key: its variant name, and for `Unknown(n)` the text
/// `Unknown(n)` with `n` in decimal.
pub open spec fn key_name(k: Key) -> Seq<char> {
    match k {
        Key::Alt => "Alt"@,
        Key::AltGr => "AltGr"@,
        Key::Backspace => "Backspace"@,
        Key::CapsLock => "CapsLock"@,
        Key::ControlLeft => "ControlLeft"@,
        Key::ControlRight => "ControlRight"@,
        Key::Delete => "Delete"@,
        Key::DownArrow => "DownArrow"@,
        Key::End => "End"@,
        Key::Escape => "Escape"@,
        Key::F1 => "F1"@,
        Key::F10 => "F10"@,
        Key::F11 => "F11"@,
        Key::F12 => "F12"@,
        Key::F2 => "F2"@,
        Key::F3 => "F3"@,
        Key::F4 => "F4"@,
        Key::F5 => "F5"@,
        Key::F6 => "F6"@,
        Key::F7 => "F7"@,
        Key::F8 => "F8"@,
        Key::F9 => "F9"@,
        Key::Home => "Home"@,
        Key::LeftArrow => "LeftArrow"@,
        Key::MetaLeft => "MetaLeft"@,
        Key::MetaRight => "MetaRight"@,
        Key::PageDown => "PageDown"@,
        Key::PageUp => "PageUp"@,
        Key::Return => "Return"@,
        Key::RightArrow => "RightArrow"@,
        Key::ShiftLeft => "ShiftLeft"@,
        Key::ShiftRight => "ShiftRight"@,
        Key::Space => "Space"@,
        Key::Tab => "Tab"@,
        Key::UpArrow => "UpArrow"@,
        Key::PrintScreen => "PrintScreen"@,
        Key::ScrollLock => "ScrollLock"@,
        Key::Pause => "Pause"@,
        Key::NumLock => "NumLock"@,
        Key::BackQuote => "BackQuote"@,
        Key::Num1 => "Num1"@,
        Key::Num2 => "Num2"@,
        Key::Num3 => "Num3"@,
        Key::Num4 => "Num4"@,
        Key::Num5 => "Num5"@,
        Key::Num6 => "Num6"@,
        Key::Num7 => "Num7"@,
        Key::Num8 => "Num8"@,
        Key::Num9 => "Num9"@,
        Key::Num0 => "Num0"@,
        Key::Minus => "Minus"@,
        Key::Equal => "Equal"@,
        Key::KeyQ => "KeyQ"@,
        Key::KeyW => "KeyW"@,
        Key::KeyE => "KeyE"@,
        Key::KeyR => "KeyR"@,
        Key::KeyT => "KeyT"@,
        Key::KeyY => "KeyY"@,
        Key::KeyU => "KeyU"@,
        Key::KeyI => "KeyI"@,
        Key::KeyO => "KeyO"@,
        Key::KeyP => "KeyP"@,
        Key::LeftBracket => "LeftBracket"@,
        Key::RightBracket => "RightBracket"@,
        Key::KeyA => "KeyA"@,
        Key::KeyS => "KeyS"@,
        Key::KeyD => "KeyD"@,
        Key::KeyF => "KeyF"@,
        Key::KeyG => "KeyG"@,
        Key::KeyH => "KeyH"@,
        Key::KeyJ => "KeyJ"@,
        Key::KeyK => "KeyK"@,
        Key::KeyL => "KeyL"@,
        Key::SemiColon => "SemiColon"@,
        Key::Quote => "Quote"@,
        Key::BackSlash => "BackSlash"@,
        Key::IntlBackslash => "IntlBackslash"@,
        Key::KeyZ => "KeyZ"@,
        Key::KeyX => "KeyX"@,
        Key::KeyC => "KeyC"@,
        Key::KeyV => "KeyV"@,
        Key::KeyB => "KeyB"@,
        Key::KeyN => "KeyN"@,
        Key::KeyM => "KeyM"@,
        Key::Comma => "Comma"@,
        Key::Dot => "Dot"@,
        Key::Slash => "Slash"@,
        Key::Insert => "Insert"@,
        Key::KpReturn => "KpReturn"@,
        Key::KpMinus => "KpMinus"@,
        Key::KpPlus => "KpPlus"@,
        Key::KpMultiply => "KpMultiply"@,
        Key::KpDivide => "KpDivide"@,
        Key::Kp0 => "Kp0"@,
        Key::Kp1 => "Kp1"@,
        Key::Kp2 => "Kp2"@,
        Key::Kp3 => "Kp3"@,
        Key::Kp4 => "Kp4"@,
        Key::Kp5 => "Kp5"@,
        Key::Kp6 => "Kp6"@,
        Key::Kp7 => "Kp7"@,
        Key::Kp8 => "Kp8"@,
        Key::Kp9 => "Kp9"@,
        Key::KpDelete => "KpDelete"@,
        Key::Function => "Function"@,
        Key::Unknown(n) => "Unknown("@ + decimal(n as nat) + ")"@,
    }
}

proof fn lemma_decimal_ascii(n: nat)
    ensures
        is_ascii_chars(decimal(n)),
    decreases n,
{
    if n >= 10 {
        lemma_decimal_ascii(n / 10);
    }
}

/// Every key name is plain ASCII text.
pub proof fn lemma_key_name_ascii(k: Key)
    ensures
        is_ascii_chars(key_name(k)),
{
    match k {
        Key::Alt => reveal_strlit("Alt"),
        Key::AltGr => reveal_strlit("AltGr"),
        Key::Backspace => reveal_strlit("Backspace"),
        Key::CapsLock => reveal_strlit("CapsLock"),
        Key::ControlLeft => reveal_strlit("ControlLeft"),
        Key::ControlRight => reveal_strlit("ControlRight"),
        Key::Delete => reveal_strlit("Delete"),
        Key::DownArrow => reveal_strlit("DownArrow"),
        Key::End => reveal_strlit("End"),
        Key::Escape => reveal_strlit("Escape"),
        Key::F1 => reveal_strlit("F1"),
        Key::F10 => reveal_strlit("F10"),
        Key::F11 => reveal_strlit("F11"),
        Key::F12 => reveal_strlit("F12"),
        Key::F2 => reveal_strlit("F2"),
        Key::F3 => reveal_strlit("F3"),
        Key::F4 => reveal_strlit("F4"),
        Key::F5 => reveal_strlit("F5"),
        Key::F6 => reveal_strlit("F6"),
        Key::F7 => reveal_strlit("F7"),
        Key::F8 => reveal_strlit("F8"),
        Key::F9 => reveal_strlit("F9"),
        Key::Home => reveal_strlit("Home"),
        Key::LeftArrow => reveal_strlit("LeftArrow"),
        Key::MetaLeft => reveal_strlit("MetaLeft"),
        Key::MetaRight => reveal_strlit("MetaRight"),
        Key::PageDown => reveal_strlit("PageDown"),
        Key::PageUp => reveal_strlit("PageUp"),
        Key::Return => reveal_strlit("Return"),
        Key::RightArrow => reveal_strlit("RightArrow"),
        Key::ShiftLeft => reveal_strlit("ShiftLeft"),
        Key::ShiftRight => reveal_strlit("ShiftRight"),
        Key::Space => reveal_strlit("Space"),
        Key::Tab => reveal_strlit("Tab"),
        Key::UpArrow => reveal_strlit("UpArrow"),
        Key::PrintScreen => reveal_strlit("PrintScreen"),
        Key::ScrollLock => reveal_strlit("ScrollLock"),
        Key::Pause => reveal_strlit("Pause"),
        Key::NumLock => reveal_strlit("NumLock"),
        Key::BackQuote => reveal_strlit("BackQuote"),
        Key::Num1 => reveal_strlit("Num1"),
        Key::Num2 => reveal_strlit("Num2"),
        Key::Num3 => reveal_strlit("Num3"),
        Key::Num4 => reveal_strlit("Num4"),
        Key::Num5 => reveal_strlit("Num5"),
        Key::Num6 => reveal_strlit("Num6"),
        Key::Num7 => reveal_strlit("Num7"),
        Key::Num8 => reveal_strlit("Num8"),
        Key::Num9 => reveal_strlit("Num9"),
        Key::Num0 => reveal_strlit("Num0"),
        Key::Minus => reveal_strlit("Minus"),
        Key::Equal => reveal_strlit("Equal"),
        Key::KeyQ => reveal_strlit("KeyQ"),
        Key::KeyW => reveal_strlit("KeyW"),
        Key::KeyE => reveal_strlit("KeyE"),
        Key::KeyR => reveal_strlit("KeyR"),
        Key::KeyT => reveal_strlit("KeyT"),
        Key::KeyY => reveal_strlit("KeyY"),
        Key::KeyU => reveal_strlit("KeyU"),
        Key::KeyI => reveal_strlit("KeyI"),
        Key::KeyO => reveal_strlit("KeyO"),
        Key::KeyP => reveal_strlit("KeyP"),
        Key::LeftBracket => reveal_strlit("LeftBracket"),
        Key::RightBracket => reveal_strlit("RightBracket"),
        Key::KeyA => reveal_strlit("KeyA"),
        Key::KeyS => reveal_strlit("KeyS"),
        Key::KeyD => reveal_strlit("KeyD"),
        Key::KeyF => reveal_strlit("KeyF"),
        Key::KeyG => reveal_strlit("KeyG"),
        Key::KeyH => reveal_strlit("KeyH"),
        Key::KeyJ => reveal_strlit("KeyJ"),
        Key::KeyK => reveal_strlit("KeyK"),
        Key::KeyL => reveal_strlit("KeyL"),
        Key::SemiColon => reveal_strlit("SemiColon"),
        Key::Quote => reveal_strlit("Quote"),
        Key::BackSlash => reveal_strlit("BackSlash"),
        Key::IntlBackslash => reveal_strlit("IntlBackslash"),
        Key::KeyZ => reveal_strlit("KeyZ"),
        Key::KeyX => reveal_strlit("KeyX"),
        Key::KeyC => reveal_strlit("KeyC"),
        Key::KeyV => reveal_strlit("KeyV"),
        Key::KeyB => reveal_strlit("KeyB"),
        Key::KeyN => reveal_strlit("KeyN"),
        Key::KeyM => reveal_strlit("KeyM"),
        Key::Comma => reveal_strlit("Comma"),
        Key::Dot => reveal_strlit("Dot"),
        Key::Slash => reveal_strlit("Slash"),
        Key::Insert => reveal_strlit("Insert"),
        Key::KpReturn => reveal_strlit("KpReturn"),
        Key::KpMinus => reveal_strlit("KpMinus"),
        Key::KpPlus => reveal_strlit("KpPlus"),
        Key::KpMultiply => reveal_strlit("KpMultiply"),
        Key::KpDivide => reveal_strlit("KpDivide"),
        Key::Kp0 => reveal_strlit("Kp0"),
        Key::Kp1 => reveal_strlit("Kp1"),
        Key::Kp2 => reveal_strlit("Kp2"),
        Key::Kp3 => reveal_strlit("Kp3"),
        Key::Kp4 => reveal_strlit("Kp4"),
        Key::Kp5 => reveal_strlit("Kp5"),
        Key::Kp6 => reveal_strlit("Kp6"),
        Key::Kp7 => reveal_strlit("Kp7"),
        Key::Kp8 => reveal_strlit("Kp8"),
        Key::Kp9 => reveal_strlit("Kp9"),
        Key::KpDelete => reveal_strlit("KpDelete"),
        Key::Function => reveal_strlit("Function"),
        Key::Unknown(n) => {
            reveal_strlit("Unknown(");
            reveal_strlit(")");
            lemma_decimal_ascii(n as nat);
        },
    }
}

/// The function key `F<n>`, for `n` from 1 to 12.
pub open spec fn function_key(n: nat) -> Option<Key> {
    if n == 1 {
        Some(Key::F1)
    } else if n == 2 {
        Some(Key::F2)
    } else if n == 3 {
        Some(Key::F3)
    } else if n == 4 {
        Some(Key::F4)
    } else if n == 5 {
        Some(Key::F5)
    } else if n == 6 {
        Some(Key::F6)
    } else if n == 7 {
        Some(Key::F7)
    } else if n == 8 {
        Some(Key::F8)
    } else if n == 9 {
        Some(Key::F9)
    } else if n == 10 {
        Some(Key::F10)
    } else if n == 11 {
        Some(Key::F11)
    } else if n == 12 {
        Some(Key::F12)
    } else {
        None
    }
}

pub proof fn lemma_decimal_digits(n: nat)
    ensures
        decimal(n).len() >= 1,
        n >= 10 ==> decimal(n).len() >= 2,
        forall|i: int| 0 <= i < decimal(n).len() ==> '0' <= #[trigger] decimal(n)[i] <= '9',
    decreases n,
{
    if n >= 10 {
        lemma_decimal_digits(n / 10);
        let d = decimal(n);
        assert forall|i: int| 0 <= i < d.len() implies '0' <= #[trigger] d[i] <= '9' by {
            if i < d.len() - 1 {
                assert(d[i] == decimal(n / 10)[i]);
            }
        }
    }
}

/// Different numbers have different decimal digits.
pub proof fn lemma_decimal_injective(n: nat, m: nat)
    requires
        decimal(n) == decimal(m),
    ensures
        n == m,
    decreases n,
{
    lemma_decimal_digits(n);
    lemma_decimal_digits(m);
    let dn = decimal(n);
    let dm = decimal(m);
    assert(dn.last() == dm.last());
    assert(n % 10 == m % 10) by {
        let cn = ((48 + n % 10) as u32) as char;
        let cm = ((48 + m % 10) as u32) as char;
        assert(dn.last() == cn);
        assert(dm.last() == cm);
        assert(cn as u32 == 48 + n % 10);
        assert(cm as u32 == 48 + m % 10);
    }
    if n >= 10 && m >= 10 {
        assert(dn.drop_last() =~= decimal(n / 10));
        assert(dm.drop_last() =~= decimal(m / 10));
        lemma_decimal_injective(n / 10, m / 10);
    }
}

/// The function keys are named `F` and their number: F1 is "F1", F11 is
/// "F11".
pub proof fn lemma_function_key_names(n: nat)
    requires
        1 <= n <= 12,
    ensures
        function_key(n) is Some,
        key_name(function_key(n)->0) == seq!['F'] + decimal(n),
{
    reveal_with_fuel(decimal, 2);
    if n == 1 {
        reveal_strlit("F1");
        assert(key_name(Key::F1) =~= seq!['F'] + decimal(1));
    } else if n == 2 {
        reveal_strlit("F2");
        assert(key_name(Key::F2) =~= seq!['F'] + decimal(2));
    } else if n == 3 {
        reveal_strlit("F3");
        assert(key_name(Key::F3) =~= seq!['F'] + decimal(3));
    } else if n == 4 {
        reveal_strlit("F4");
        assert(key_name(Key::F4) =~= seq!['F'] + decimal(4));
    } else if n == 5 {
        reveal_strlit("F5");
        assert(key_name(Key::F5) =~= seq!['F'] + decimal(5));
    } else if n == 6 {
        reveal_strlit("F6");
        assert(key_name(Key::F6) =~= seq!['F'] + decimal(6));
    } else if n == 7 {
        reveal_strlit("F7");
        assert(key_name(Key::F7) =~= seq!['F'] + decimal(7));
    } else if n == 8 {
        reveal_strlit("F8");
        assert(key_name(Key::F8) =~= seq!['F'] + decimal(8));
    } else if n == 9 {
        reveal_strlit("F9");
        assert(key_name(Key::F9) =~= seq!['F'] + decimal(9));
    } else if n == 10 {
        reveal_strlit("F10");
        assert(key_name(Key::F10) =~= seq!['F'] + decimal(10));
    } else if n == 11 {
        reveal_strlit("F11");
        assert(key_name(Key::F11) =~= seq!['F'] + decimal(11));
    } else if n == 12 {
        reveal_strlit("F12");
        assert(key_name(Key::F12) =~= seq!['F'] + decimal(12));
    }
}

fn push_decimal(s: &mut String, n: u32)
    ensures
        final(s)@ == old(s)@ + decimal(n as nat),
    decreases n,
{
    if n >= 10 {
        push_decimal(s, n / 10);
    }
    let d = (n % 10) as u8;
    let c = (48u8 + d) as char;
    push_char(s, c);
    assert(old(s)@ + decimal(n as nat) =~= (if n >= 10 {
        old(s)@ + decimal((n / 10) as nat)
    } else {
        old(s)@
    }).push(c));
}

impl Key {
    /// The key's name (see [`key_name`]).
    pub fn name(self) -> (r: String)
        ensures
            r@ == key_name(self),
    {
        match self {
            Key::Alt => String::from_str("Alt"),
            Key::AltGr => String::from_str("AltGr"),
            Key::Backspace => String::from_str("Backspace"),
            Key::CapsLock => String::from_str("CapsLock"),
            Key::ControlLeft => String::from_str("ControlLeft"),
            Key::ControlRight => String::from_str("ControlRight"),
            Key::Delete => String::from_str("Delete"),
            Key::DownArrow => String::from_str("DownArrow"),
            Key::End => String::from_str("End"),
            Key::Escape => String::from_str("Escape"),
            Key::F1 => String::from_str("F1"),
            Key::F10 => String::from_str("F10"),
            Key::F11 => String::from_str("F11"),
            Key::F12 => String::from_str("F12"),
            Key::F2 => String::from_str("F2"),
            Key::F3 => String::from_str("F3"),
            Key::F4 => String::from_str("F4"),
            Key::F5 => String::from_str("F5"),
            Key::F6 => String::from_str("F6"),
            Key::F7 => String::from_str("F7"),
            Key::F8 => String::from_str("F8"),
            Key::F9 => String::from_str("F9"),
            Key::Home => String::from_str("Home"),
            Key::LeftArrow => String::from_str("LeftArrow"),
            Key::MetaLeft => String::from_str("MetaLeft"),
            Key::MetaRight => String::from_str("MetaRight"),
            Key::PageDown => String::from_str("PageDown"),
            Key::PageUp => String::from_str("PageUp"),
            Key::Return => String::from_str("Return"),
            Key::RightArrow => String::from_str("RightArrow"),
            Key::ShiftLeft => String::from_str("ShiftLeft"),
            Key::ShiftRight => String::from_str("ShiftRight"),
            Key::Space => String::from_str("Space"),
            Key::Tab => String::from_str("Tab"),
            Key::UpArrow => String::from_str("UpArrow"),
            Key::PrintScreen => String::from_str("PrintScreen"),
            Key::ScrollLock => String::from_str("ScrollLock"),
            Key::Pause => String::from_str("Pause"),
            Key::NumLock => String::from_str("NumLock"),
            Key::BackQuote => String::from_str("BackQuote"),
            Key::Num1 => String::from_str("Num1"),
            Key::Num2 => String::from_str("Num2"),
            Key::Num3 => String::from_str("Num3"),
            Key::Num4 => String::from_str("Num4"),
            Key::Num5 => String::from_str("Num5"),
            Key::Num6 => String::from_str("Num6"),
            Key::Num7 => String::from_str("Num7"),
            Key::Num8 => String::from_str("Num8"),
            Key::Num9 => String::from_str("Num9"),
            Key::Num0 => String::from_str("Num0"),
            Key::Minus => String::from_str("Minus"),
            Key::Equal => String::from_str("Equal"),
            Key::KeyQ => String::from_str("KeyQ"),
            Key::KeyW => String::from_str("KeyW"),
            Key::KeyE => String::from_str("KeyE"),
            Key::KeyR => String::from_str("KeyR"),
            Key::KeyT => String::from_str("KeyT"),
            Key::KeyY => String::from_str("KeyY"),
            Key::KeyU => String::from_str("KeyU"),
            Key::KeyI => String::from_str("KeyI"),
            Key::KeyO => String::from_str("KeyO"),
            Key::KeyP => String::from_str("KeyP"),
            Key::LeftBracket => String::from_str("LeftBracket"),
            Key::RightBracket => String::from_str("RightBracket"),
            Key::KeyA => String::from_str("KeyA"),
            Key::KeyS => String::from_str("KeyS"),
            Key::KeyD => String::from_str("KeyD"),
            Key::KeyF => String::from_str("KeyF"),
            Key::KeyG => String::from_str("KeyG"),
            Key::KeyH => String::from_str("KeyH"),
            Key::KeyJ => String::from_str("KeyJ"),
            Key::KeyK => String::from_str("KeyK"),
            Key::KeyL => String::from_str("KeyL"),
            Key::SemiColon => String::from_str("SemiColon"),
            Key::Quote => String::from_str("Quote"),
            Key::BackSlash => String::from_str("BackSlash"),
            Key::IntlBackslash => String::from_str("IntlBackslash"),
            Key::KeyZ => String::from_str("KeyZ"),
            Key::KeyX => String::from_str("KeyX"),
            Key::KeyC => String::from_str("KeyC"),
            Key::KeyV => String::from_str("KeyV"),
            Key::KeyB => String::from_str("KeyB"),
            Key::KeyN => String::from_str("KeyN"),
            Key::KeyM => String::from_str("KeyM"),
            Key::Comma => String::from_str("Comma"),
            Key::Dot => String::from_str("Dot"),
            Key::Slash => String::from_str("Slash"),
            Key::Insert => String::from_str("Insert"),
            Key::KpReturn => String::from_str("KpReturn"),
            Key::KpMinus => String::from_str("KpMinus"),
            Key::KpPlus => String::from_str("KpPlus"),
            Key::KpMultiply => String::from_str("KpMultiply"),
            Key::KpDivide => String::from_str("KpDivide"),
            Key::Kp0 => String::from_str("Kp0"),
            Key::Kp1 => String::from_str("Kp1"),
            Key::Kp2 => String::from_str("Kp2"),
            Key::Kp3 => String::from_str("Kp3"),
            Key::Kp4 => String::from_str("Kp4"),
            Key::Kp5 => String::from_str("Kp5"),
            Key::Kp6 => String::from_str("Kp6"),
            Key::Kp7 => String::from_str("Kp7"),
            Key::Kp8 => String::from_str("Kp8"),
            Key::Kp9 => String::from_str("Kp9"),
            Key::KpDelete => String::from_str("KpDelete"),
            Key::Function => String::from_str("Function"),
            Key::Unknown(n) => {
                let mut s = String::from_str("Unknown(");
                push_decimal(&mut s, n);
                s.append(")");
                s
            },
        }
    }
}

} // verus!
