//! Physical inputs: keyboard keys, mouse buttons and pad buttons, and
//! how binding values in the input config name them.

use vstd::prelude::*;

use crate::input::PadButton;
use crate::text::{has_prefix, parse_usize, parse_usize_from, same_text, starts_with};

verus! {

/// A keyboard key, spelled as the engine spells its key codes.
#[derive(Clone, Copy, Debug, PartialEq, Eq, Structural)]
pub enum KeyCode {
    Enter,
    Escape,
    Space,
    Tab,
    Backspace,
    ArrowUp,
    ArrowDown,
    ArrowLeft,
    ArrowRight,
    ShiftLeft,
    ShiftRight,
    ControlLeft,
    ControlRight,
    AltLeft,
    AltRight,
    Minus,
    Equal,
    Backquote,
    Comma,
    Period,
    Slash,
    Backslash,
    Semicolon,
    Quote,
    BracketLeft,
    BracketRight,
    KeyA,
    KeyB,
    KeyC,
    KeyD,
    KeyE,
    KeyF,
    KeyG,
    KeyH,
    KeyI,
    KeyJ,
    KeyK,
    KeyL,
    KeyM,
    KeyN,
    KeyO,
    KeyP,
    KeyQ,
    KeyR,
    KeyS,
    KeyT,
    KeyU,
    KeyV,
    KeyW,
    KeyX,
    KeyY,
    KeyZ,
    Digit0,
    Digit1,
    Digit2,
    Digit3,
    Digit4,
    Digit5,
    Digit6,
    Digit7,
    Digit8,
    Digit9,
    Numpad0,
    Numpad1,
    Numpad2,
    Numpad3,
    Numpad4,
    Numpad5,
    Numpad6,
    Numpad7,
    Numpad8,
    Numpad9,
    F1,
    F2,
    F3,
    F4,
    F5,
    F6,
    F7,
    F8,
    F9,
    F10,
    F11,
    F12,
}

/// A mouse button.
#[derive(Clone, Copy, Debug, PartialEq, Eq, Structural)]
pub enum MouseButton {
    Left,
    Right,
    Middle,
    Back,
    Forward,
}

/// A physical input bound to an action.
#[derive(Clone, Copy, Debug, PartialEq, Eq, Structural)]
pub enum Raw {
    Key(KeyCode),
    Mouse(MouseButton),
    Pad(PadButton),
}

/// The keys named by a whole word (`Enter`, `ArrowUp`, ...).
pub open spec fn word_key(name: Seq<char>) -> Option<KeyCode> {
    if name == "Enter"@ {
        Some(KeyCode::Enter)
    } else if name == "Escape"@ {
        Some(KeyCode::Escape)
    } else if name == "Space"@ {
        Some(KeyCode::Space)
    } else if name == "Tab"@ {
        Some(KeyCode::Tab)
    } else if name == "Backspace"@ {
        Some(KeyCode::Backspace)
    } else if name == "ArrowUp"@ {
        Some(KeyCode::ArrowUp)
    } else if name == "ArrowDown"@ {
        Some(KeyCode::ArrowDown)
    } else if name == "ArrowLeft"@ {
        Some(KeyCode::ArrowLeft)
    } else if name == "ArrowRight"@ {
        Some(KeyCode::ArrowRight)
    } else if name == "ShiftLeft"@ {
        Some(KeyCode::ShiftLeft)
    } else if name == "ShiftRight"@ {
        Some(KeyCode::ShiftRight)
    } else if name == "ControlLeft"@ {
        Some(KeyCode::ControlLeft)
    } else if name == "ControlRight"@ {
        Some(KeyCode::ControlRight)
    } else if name == "AltLeft"@ {
        Some(KeyCode::AltLeft)
    } else if name == "AltRight"@ {
        Some(KeyCode::AltRight)
    } else if name == "Minus"@ {
        Some(KeyCode::Minus)
    } else if name == "Equal"@ {
        Some(KeyCode::Equal)
    } else if name == "Backquote"@ {
        Some(KeyCode::Backquote)
    } else if name == "Comma"@ {
        Some(KeyCode::Comma)
    } else if name == "Period"@ {
        Some(KeyCode::Period)
    } else if name == "Slash"@ {
        Some(KeyCode::Slash)
    } else if name == "Backslash"@ {
        Some(KeyCode::Backslash)
    } else if name == "Semicolon"@ {
        Some(KeyCode::Semicolon)
    } else if name == "Quote"@ {
        Some(KeyCode::Quote)
    } else if name == "BracketLeft"@ {
        Some(KeyCode::BracketLeft)
    } else if name == "BracketRight"@ {
        Some(KeyCode::BracketRight)
    } else {
        None
    }
}

/// The letter key for an upper-case letter.
pub open spec fn letter_key_spec(c: char) -> Option<KeyCode> {
    match c {
        'A' => Some(KeyCode::KeyA),
        'B' => Some(KeyCode::KeyB),
        'C' => Some(KeyCode::KeyC),
        'D' => Some(KeyCode::KeyD),
        'E' => Some(KeyCode::KeyE),
        'F' => Some(KeyCode::KeyF),
        'G' => Some(KeyCode::KeyG),
        'H' => Some(KeyCode::KeyH),
        'I' => Some(KeyCode::KeyI),
        'J' => Some(KeyCode::KeyJ),
        'K' => Some(KeyCode::KeyK),
        'L' => Some(KeyCode::KeyL),
        'M' => Some(KeyCode::KeyM),
        'N' => Some(KeyCode::KeyN),
        'O' => Some(KeyCode::KeyO),
        'P' => Some(KeyCode::KeyP),
        'Q' => Some(KeyCode::KeyQ),
        'R' => Some(KeyCode::KeyR),
        'S' => Some(KeyCode::KeyS),
        'T' => Some(KeyCode::KeyT),
        'U' => Some(KeyCode::KeyU),
        'V' => Some(KeyCode::KeyV),
        'W' => Some(KeyCode::KeyW),
        'X' => Some(KeyCode::KeyX),
        'Y' => Some(KeyCode::KeyY),
        'Z' => Some(KeyCode::KeyZ),
        _ => None,
    }
}

/// The digit-row key for a digit.
pub open spec fn digit_key_spec(d: nat) -> Option<KeyCode> {
    if d == 0 {
        Some(KeyCode::Digit0)
    } else if d == 1 {
        Some(KeyCode::Digit1)
    } else if d == 2 {
        Some(KeyCode::Digit2)
    } else if d == 3 {
        Some(KeyCode::Digit3)
    } else if d == 4 {
        Some(KeyCode::Digit4)
    } else if d == 5 {
        Some(KeyCode::Digit5)
    } else if d == 6 {
        Some(KeyCode::Digit6)
    } else if d == 7 {
        Some(KeyCode::Digit7)
    } else if d == 8 {
        Some(KeyCode::Digit8)
    } else if d == 9 {
        Some(KeyCode::Digit9)
    } else {
        None
    }
}

/// The numpad key for a digit.
pub open spec fn numpad_key_spec(d: nat) -> Option<KeyCode> {
    if d == 0 {
        Some(KeyCode::Numpad0)
    } else if d == 1 {
        Some(KeyCode::Numpad1)
    } else if d == 2 {
        Some(KeyCode::Numpad2)
    } else if d == 3 {
        Some(KeyCode::Numpad3)
    } else if d == 4 {
        Some(KeyCode::Numpad4)
    } else if d == 5 {
        Some(KeyCode::Numpad5)
    } else if d == 6 {
        Some(KeyCode::Numpad6)
    } else if d == 7 {
        Some(KeyCode::Numpad7)
    } else if d == 8 {
        Some(KeyCode::Numpad8)
    } else if d == 9 {
        Some(KeyCode::Numpad9)
    } else {
        None
    }
}

/// The function key `F<n>`.
pub open spec fn function_key_spec(n: nat) -> Option<KeyCode> {
    if n == 1 {
        Some(KeyCode::F1)
    } else if n == 2 {
        Some(KeyCode::F2)
    } else if n == 3 {
        Some(KeyCode::F3)
    } else if n == 4 {
        Some(KeyCode::F4)
    } else if n == 5 {
        Some(KeyCode::F5)
    } else if n == 6 {
        Some(KeyCode::F6)
    } else if n == 7 {
        Some(KeyCode::F7)
    } else if n == 8 {
        Some(KeyCode::F8)
    } else if n == 9 {
        Some(KeyCode::F9)
    } else if n == 10 {
        Some(KeyCode::F10)
    } else if n == 11 {
        Some(KeyCode::F11)
    } else if n == 12 {
        Some(KeyCode::F12)
    } else {
        None
    }
}

/// Keys named by a prefix and what follows it: `Key` and a letter,
/// `Digit` or `Numpad` and a digit (only the first character after the
/// prefix counts), or `F` and a number.
pub open spec fn prefixed_key(name: Seq<char>) -> Option<KeyCode> {
    if starts_with(name, "Key"@) {
        if name.len() > 3 {
            letter_key_spec(name[3])
        } else {
            None
        }
    } else if starts_with(name, "Digit"@) {
        if name.len() > 5 && '0' <= name[5] && name[5] <= '9' {
            digit_key_spec((name[5] as int - '0' as int) as nat)
        } else {
            None
        }
    } else if starts_with(name, "Numpad"@) {
        if name.len() > 6 && '0' <= name[6] && name[6] <= '9' {
            numpad_key_spec((name[6] as int - '0' as int) as nat)
        } else {
            None
        }
    } else if starts_with(name, "F"@) {
        match parse_usize(name.skip(1)) {
            Some(n) => function_key_spec(n),
            None => None,
        }
    } else {
        None
    }
}

/// The key a binding value names, if any.
pub open spec fn key_named(name: Seq<char>) -> Option<KeyCode> {
    match word_key(name) {
        Some(k) => Some(k),
        None => prefixed_key(name),
    }
}

/// The mouse button a binding value names, if any.
pub open spec fn mouse_named(name: Seq<char>) -> Option<MouseButton> {
    if name == "MouseLeft"@ {
        Some(MouseButton::Left)
    } else if name == "MouseRight"@ {
        Some(MouseButton::Right)
    } else if name == "MouseMiddle"@ {
        Some(MouseButton::Middle)
    } else if name == "MouseBack"@ {
        Some(MouseButton::Back)
    } else if name == "MouseForward"@ {
        Some(MouseButton::Forward)
    } else {
        None
    }
}

/// What `str::to_lowercase` makes of a string.
pub uninterp spec fn lowercase_of(s: Seq<char>) -> Seq<char>;

/// Whether every character of `s` is ASCII.
pub open spec fn is_ascii_text(s: Seq<char>) -> bool {
    forall|i: int| 0 <= i < s.len() ==> (#[trigger] s[i] as int) < 128
}

/// An ASCII upper-case letter's lower-case letter; other characters
/// stay as they are.
pub open spec fn ascii_lower(c: char) -> char {
    if 'A' <= c && c <= 'Z' {
        ((c as int) + 32) as char
    } else {
        c
    }
}

/// Text lower-cased as `str::to_lowercase` does it: ASCII text letter by
/// letter, and other text by the standard library's Unicode case mapping.
pub open spec fn lowered(s: Seq<char>) -> Seq<char> {
    if is_ascii_text(s) {
        s.map_values(|c: char| ascii_lower(c))
    } else {
        lowercase_of(s)
    }
}

/// The raw input a binding value names: a pad button by its own name, or
/// by any spelling that lower-cases onto it, else a key, else a mouse
/// button.
pub open spec fn raw_named(name: Seq<char>) -> Option<Raw> {
    match PadButton::named(name) {
        Some(b) => Some(Raw::Pad(b)),
        None => match PadButton::named(lowered(name)) {
            Some(b) => Some(Raw::Pad(b)),
            None => match key_named(name) {
                Some(k) => Some(Raw::Key(k)),
                None => match mouse_named(name) {
                    Some(m) => Some(Raw::Mouse(m)),
                    None => None,
                },
            },
        },
    }
}

/// Lower-cases text with `str::to_lowercase`. ASCII text comes back
/// with each upper-case letter replaced by its lower-case letter and
/// every other character kept; for other text the result is whatever the
/// standard library's Unicode case mapping gives, which this contract
/// names rather than restates.
#[verifier::external_body]
fn lowercase(s: &str) -> (r: String)
    ensures
        r@ == lowercase_of(s@),
        is_ascii_text(s@) ==> r@ == s@.map_values(|c: char| ascii_lower(c)),
{
    s.to_lowercase()
}

/// The letter key for an upper-case letter.
pub fn letter_key(c: char) -> (r: Option<KeyCode>)
    ensures
        r == letter_key_spec(c),
{
    match c {
        'A' => Some(KeyCode::KeyA),
        'B' => Some(KeyCode::KeyB),
        'C' => Some(KeyCode::KeyC),
        'D' => Some(KeyCode::KeyD),
        'E' => Some(KeyCode::KeyE),
        'F' => Some(KeyCode::KeyF),
        'G' => Some(KeyCode::KeyG),
        'H' => Some(KeyCode::KeyH),
        'I' => Some(KeyCode::KeyI),
        'J' => Some(KeyCode::KeyJ),
        'K' => Some(KeyCode::KeyK),
        'L' => Some(KeyCode::KeyL),
        'M' => Some(KeyCode::KeyM),
        'N' => Some(KeyCode::KeyN),
        'O' => Some(KeyCode::KeyO),
        'P' => Some(KeyCode::KeyP),
        'Q' => Some(KeyCode::KeyQ),
        'R' => Some(KeyCode::KeyR),
        'S' => Some(KeyCode::KeyS),
        'T' => Some(KeyCode::KeyT),
        'U' => Some(KeyCode::KeyU),
        'V' => Some(KeyCode::KeyV),
        'W' => Some(KeyCode::KeyW),
        'X' => Some(KeyCode::KeyX),
        'Y' => Some(KeyCode::KeyY),
        'Z' => Some(KeyCode::KeyZ),
        _ => None,
    }
}

/// The digit-row key for a digit.
pub fn digit_code(digit: usize) -> (r: Option<KeyCode>)
    ensures
        r == digit_key_spec(digit as nat),
{
    match digit {
        0 => Some(KeyCode::Digit0),
        1 => Some(KeyCode::Digit1),
        2 => Some(KeyCode::Digit2),
        3 => Some(KeyCode::Digit3),
        4 => Some(KeyCode::Digit4),
        5 => Some(KeyCode::Digit5),
        6 => Some(KeyCode::Digit6),
        7 => Some(KeyCode::Digit7),
        8 => Some(KeyCode::Digit8),
        9 => Some(KeyCode::Digit9),
        _ => None,
    }
}

/// The numpad key for a digit.
pub fn numpad_code(digit: usize) -> (r: Option<KeyCode>)
    ensures
        r == numpad_key_spec(digit as nat),
{
    match digit {
        0 => Some(KeyCode::Numpad0),
        1 => Some(KeyCode::Numpad1),
        2 => Some(KeyCode::Numpad2),
        3 => Some(KeyCode::Numpad3),
        4 => Some(KeyCode::Numpad4),
        5 => Some(KeyCode::Numpad5),
        6 => Some(KeyCode::Numpad6),
        7 => Some(KeyCode::Numpad7),
        8 => Some(KeyCode::Numpad8),
        9 => Some(KeyCode::Numpad9),
        _ => None,
    }
}

/// The function key `F<n>`.
pub fn function_key(n: usize) -> (r: Option<KeyCode>)
    ensures
        r == function_key_spec(n as nat),
{
    match n {
        1 => Some(KeyCode::F1),
        2 => Some(KeyCode::F2),
        3 => Some(KeyCode::F3),
        4 => Some(KeyCode::F4),
        5 => Some(KeyCode::F5),
        6 => Some(KeyCode::F6),
        7 => Some(KeyCode::F7),
        8 => Some(KeyCode::F8),
        9 => Some(KeyCode::F9),
        10 => Some(KeyCode::F10),
        11 => Some(KeyCode::F11),
        12 => Some(KeyCode::F12),
        _ => None,
    }
}

/// "KeyA".."KeyZ", "Digit0".."Digit9", "Numpad0".."Numpad9", "F1".."F12".
pub fn parse_prefixed_key(name: &str) -> (r: Option<KeyCode>)
    ensures
        r == prefixed_key(name@),
{
    proof {
        reveal_strlit("Key");
        reveal_strlit("Digit");
        reveal_strlit("Numpad");
        reveal_strlit("F");
    }
    if has_prefix(name, "Key") {
        if name.unicode_len() > 3 {
            return letter_key(name.get_char(3));
        }
        return None;
    }
    if has_prefix(name, "Digit") {
        if name.unicode_len() > 5 {
            let c = name.get_char(5);
            if '0' <= c && c <= '9' {
                return digit_code((c as u32 - '0' as u32) as usize);
            }
        }
        return None;
    }
    if has_prefix(name, "Numpad") {
        if name.unicode_len() > 6 {
            let c = name.get_char(6);
            if '0' <= c && c <= '9' {
                return numpad_code((c as u32 - '0' as u32) as usize);
            }
        }
        return None;
    }
    if has_prefix(name, "F") {
        return match parse_usize_from(name, 1) {
            Some(n) => function_key(n),
            None => None,
        };
    }
    None
}

/// Keyboard names follow the engine's own key-code spellings.
pub fn parse_key(name: &str) -> (r: Option<KeyCode>)
    ensures
        r == key_named(name@),
{
    let word = if same_text(name, "Enter") {
        Some(KeyCode::Enter)
    } else if same_text(name, "Escape") {
        Some(KeyCode::Escape)
    } else if same_text(name, "Space") {
        Some(KeyCode::Space)
    } else if same_text(name, "Tab") {
        Some(KeyCode::Tab)
    } else if same_text(name, "Backspace") {
        Some(KeyCode::Backspace)
    } else if same_text(name, "ArrowUp") {
        Some(KeyCode::ArrowUp)
    } else if same_text(name, "ArrowDown") {
        Some(KeyCode::ArrowDown)
    } else if same_text(name, "ArrowLeft") {
        Some(KeyCode::ArrowLeft)
    } else if same_text(name, "ArrowRight") {
        Some(KeyCode::ArrowRight)
    } else if same_text(name, "ShiftLeft") {
        Some(KeyCode::ShiftLeft)
    } else if same_text(name, "ShiftRight") {
        Some(KeyCode::ShiftRight)
    } else if same_text(name, "ControlLeft") {
        Some(KeyCode::ControlLeft)
    } else if same_text(name, "ControlRight") {
        Some(KeyCode::ControlRight)
    } else if same_text(name, "AltLeft") {
        Some(KeyCode::AltLeft)
    } else if same_text(name, "AltRight") {
        Some(KeyCode::AltRight)
    } else if same_text(name, "Minus") {
        Some(KeyCode::Minus)
    } else if same_text(name, "Equal") {
        Some(KeyCode::Equal)
    } else if same_text(name, "Backquote") {
        Some(KeyCode::Backquote)
    } else if same_text(name, "Comma") {
        Some(KeyCode::Comma)
    } else if same_text(name, "Period") {
        Some(KeyCode::Period)
    } else if same_text(name, "Slash") {
        Some(KeyCode::Slash)
    } else if same_text(name, "Backslash") {
        Some(KeyCode::Backslash)
    } else if same_text(name, "Semicolon") {
        Some(KeyCode::Semicolon)
    } else if same_text(name, "Quote") {
        Some(KeyCode::Quote)
    } else if same_text(name, "BracketLeft") {
        Some(KeyCode::BracketLeft)
    } else if same_text(name, "BracketRight") {
        Some(KeyCode::BracketRight)
    } else {
        None
    };
    match word {
        Some(k) => Some(k),
        None => parse_prefixed_key(name),
    }
}

/// The mouse button a binding value names.
pub fn parse_mouse(name: &str) -> (r: Option<MouseButton>)
    ensures
        r == mouse_named(name@),
{
    if same_text(name, "MouseLeft") {
        Some(MouseButton::Left)
    } else if same_text(name, "MouseRight") {
        Some(MouseButton::Right)
    } else if same_text(name, "MouseMiddle") {
        Some(MouseButton::Middle)
    } else if same_text(name, "MouseBack") {
        Some(MouseButton::Back)
    } else if same_text(name, "MouseForward") {
        Some(MouseButton::Forward)
    } else {
        None
    }
}

impl Raw {
    /// Parses a binding value: pad buttons (`"Cross"`, or the lower-case
    /// config forms), engine key names (`"KeyZ"`, `"ArrowUp"`), or mouse
    /// buttons (`"MouseLeft"`).
    pub fn from_config(name: &str) -> (r: Option<Raw>)
        ensures
            r == raw_named(name@),
    {
        if let Some(b) = PadButton::from_config(name) {
            return Some(Raw::Pad(b));
        }
        let lower = lowercase(name);
        if let Some(b) = PadButton::from_config(lower.as_str()) {
            return Some(Raw::Pad(b));
        }
        if let Some(k) = parse_key(name) {
            return Some(Raw::Key(k));
        }
        match parse_mouse(name) {
            Some(m) => Some(Raw::Mouse(m)),
            None => None,
        }
    }
}

/// How the input config spells each key: the engine's own key-code
/// names.
pub open spec fn key_config_name(k: KeyCode) -> Seq<char> {
    match k {
        KeyCode::Enter => "Enter"@,
        KeyCode::Escape => "Escape"@,
        KeyCode::Space => "Space"@,
        KeyCode::Tab => "Tab"@,
        KeyCode::Backspace => "Backspace"@,
        KeyCode::ArrowUp => "ArrowUp"@,
        KeyCode::ArrowDown => "ArrowDown"@,
        KeyCode::ArrowLeft => "ArrowLeft"@,
        KeyCode::ArrowRight => "ArrowRight"@,
        KeyCode::ShiftLeft => "ShiftLeft"@,
        KeyCode::ShiftRight => "ShiftRight"@,
        KeyCode::ControlLeft => "ControlLeft"@,
        KeyCode::ControlRight => "ControlRight"@,
        KeyCode::AltLeft => "AltLeft"@,
        KeyCode::AltRight => "AltRight"@,
        KeyCode::Minus => "Minus"@,
        KeyCode::Equal => "Equal"@,
        KeyCode::Backquote => "Backquote"@,
        KeyCode::Comma => "Comma"@,
        KeyCode::Period => "Period"@,
        KeyCode::Slash => "Slash"@,
        KeyCode::Backslash => "Backslash"@,
        KeyCode::Semicolon => "Semicolon"@,
        KeyCode::Quote => "Quote"@,
        KeyCode::BracketLeft => "BracketLeft"@,
        KeyCode::BracketRight => "BracketRight"@,
        KeyCode::KeyA => "KeyA"@,
        KeyCode::KeyB => "KeyB"@,
        KeyCode::KeyC => "KeyC"@,
        KeyCode::KeyD => "KeyD"@,
        KeyCode::KeyE => "KeyE"@,
        KeyCode::KeyF => "KeyF"@,
        KeyCode::KeyG => "KeyG"@,
        KeyCode::KeyH => "KeyH"@,
        KeyCode::KeyI => "KeyI"@,
        KeyCode::KeyJ => "KeyJ"@,
        KeyCode::KeyK => "KeyK"@,
        KeyCode::KeyL => "KeyL"@,
        KeyCode::KeyM => "KeyM"@,
        KeyCode::KeyN => "KeyN"@,
        KeyCode::KeyO => "KeyO"@,
        KeyCode::KeyP => "KeyP"@,
        KeyCode::KeyQ => "KeyQ"@,
        KeyCode::KeyR => "KeyR"@,
        KeyCode::KeyS => "KeyS"@,
        KeyCode::KeyT => "KeyT"@,
        KeyCode::KeyU => "KeyU"@,
        KeyCode::KeyV => "KeyV"@,
        KeyCode::KeyW => "KeyW"@,
        KeyCode::KeyX => "KeyX"@,
        KeyCode::KeyY => "KeyY"@,
        KeyCode::KeyZ => "KeyZ"@,
        KeyCode::Digit0 => "Digit0"@,
        KeyCode::Digit1 => "Digit1"@,
        KeyCode::Digit2 => "Digit2"@,
        KeyCode::Digit3 => "Digit3"@,
        KeyCode::Digit4 => "Digit4"@,
        KeyCode::Digit5 => "Digit5"@,
        KeyCode::Digit6 => "Digit6"@,
        KeyCode::Digit7 => "Digit7"@,
        KeyCode::Digit8 => "Digit8"@,
        KeyCode::Digit9 => "Digit9"@,
        KeyCode::Numpad0 => "Numpad0"@,
        KeyCode::Numpad1 => "Numpad1"@,
        KeyCode::Numpad2 => "Numpad2"@,
        KeyCode::Numpad3 => "Numpad3"@,
        KeyCode::Numpad4 => "Numpad4"@,
        KeyCode::Numpad5 => "Numpad5"@,
        KeyCode::Numpad6 => "Numpad6"@,
        KeyCode::Numpad7 => "Numpad7"@,
        KeyCode::Numpad8 => "Numpad8"@,
        KeyCode::Numpad9 => "Numpad9"@,
        KeyCode::F1 => "F1"@,
        KeyCode::F2 => "F2"@,
        KeyCode::F3 => "F3"@,
        KeyCode::F4 => "F4"@,
        KeyCode::F5 => "F5"@,
        KeyCode::F6 => "F6"@,
        KeyCode::F7 => "F7"@,
        KeyCode::F8 => "F8"@,
        KeyCode::F9 => "F9"@,
        KeyCode::F10 => "F10"@,
        KeyCode::F11 => "F11"@,
        KeyCode::F12 => "F12"@,
    }
}

/// No key named by a whole word begins with `K`, `D`, `N` or `F`.
proof fn lemma_not_a_word(name: Seq<char>)
    requires
        name.len() > 0,
        name[0] == 'K' || name[0] == 'D' || name[0] == 'N' || name[0] == 'F',
    ensures
        word_key(name) is None,
{
    reveal_strlit("Enter");
    reveal_strlit("Escape");
    reveal_strlit("Space");
    reveal_strlit("Tab");
    reveal_strlit("Backspace");
    reveal_strlit("ArrowUp");
    reveal_strlit("ArrowDown");
    reveal_strlit("ArrowLeft");
    reveal_strlit("ArrowRight");
    reveal_strlit("ShiftLeft");
    reveal_strlit("ShiftRight");
    reveal_strlit("ControlLeft");
    reveal_strlit("ControlRight");
    reveal_strlit("AltLeft");
    reveal_strlit("AltRight");
    reveal_strlit("Minus");
    reveal_strlit("Equal");
    reveal_strlit("Backquote");
    reveal_strlit("Comma");
    reveal_strlit("Period");
    reveal_strlit("Slash");
    reveal_strlit("Backslash");
    reveal_strlit("Semicolon");
    reveal_strlit("Quote");
    reveal_strlit("BracketLeft");
    reveal_strlit("BracketRight");
}

/// `Key` followed by a letter names that letter's key.
proof fn lemma_letter_name(name: Seq<char>)
    requires
        name.len() == 4,
        name[0] == 'K' && name[1] == 'e' && name[2] == 'y',
    ensures
        key_named(name) == letter_key_spec(name[3]),
{
    reveal_strlit("Key");
    lemma_not_a_word(name);
    assert(name.take(3) =~= "Key"@);
}

/// `Digit` followed by a digit names that digit-row key.
proof fn lemma_digit_name(name: Seq<char>)
    requires
        name.len() == 6,
        name[0] == 'D' && name[1] == 'i' && name[2] == 'g' && name[3] == 'i' && name[4] == 't',
        '0' <= name[5] && name[5] <= '9',
    ensures
        key_named(name) == digit_key_spec((name[5] as int - '0' as int) as nat),
{
    reveal_strlit("Key");
    reveal_strlit("Digit");
    lemma_not_a_word(name);
    assert(name.take(3)[0] != "Key"@[0]);
    assert(name.take(5) =~= "Digit"@);
}

/// `Numpad` followed by a digit names that numpad key.
proof fn lemma_numpad_name(name: Seq<char>)
    requires
        name.len() == 7,
        name[0] == 'N' && name[1] == 'u' && name[2] == 'm' && name[3] == 'p' && name[4] == 'a' && name[5] == 'd',
        '0' <= name[6] && name[6] <= '9',
    ensures
        key_named(name) == numpad_key_spec((name[6] as int - '0' as int) as nat),
{
    reveal_strlit("Key");
    reveal_strlit("Digit");
    reveal_strlit("Numpad");
    lemma_not_a_word(name);
    assert(name.take(3)[0] != "Key"@[0]);
    assert(name.take(5)[0] != "Digit"@[0]);
    assert(name.take(6) =~= "Numpad"@);
}

/// `F` followed by a number names that function key.
proof fn lemma_function_name(name: Seq<char>)
    requires
        name.len() == 2 || name.len() == 3,
        name[0] == 'F',
        '1' <= name[1] && name[1] <= '9',
        name.len() == 3 ==> name[1] == '1' && '0' <= name[2] && name[2] <= '2',
    ensures
        name.len() == 2 ==> key_named(name) == function_key_spec((name[1] as int - '0' as int) as nat),
        name.len() == 3 ==> key_named(name) == function_key_spec((10 + name[2] as int - '0' as int) as nat),
{
    reveal_strlit("Key");
    reveal_strlit("Digit");
    reveal_strlit("Numpad");
    reveal_strlit("F");
    lemma_not_a_word(name);
    assert(!starts_with(name, "Key"@)) by {
        if starts_with(name, "Key"@) {
            assert(name.take(3)[0] == "Key"@[0]);
        }
    }
    assert(!starts_with(name, "Digit"@)) by {
        if starts_with(name, "Digit"@) {
            assert(name.take(5)[0] == "Digit"@[0]);
        }
    }
    assert(!starts_with(name, "Numpad"@)) by {
        if starts_with(name, "Numpad"@) {
            assert(name.take(6)[0] == "Numpad"@[0]);
        }
    }
    assert(name.take(1) =~= "F"@);
    let d = name.skip(1);
    assert(d[0] != '+');
    assert(d.len() > 0 && crate::text::all_digits(d));
    assert(crate::text::digits_value(Seq::<char>::empty()) == 0);
    if name.len() == 2 {
        assert(d.drop_last() =~= Seq::<char>::empty());
        assert(d.last() == name[1]);
        assert(crate::text::digits_value(d) == crate::text::digit_value(name[1]));
    } else {
        assert(d.drop_last() =~= seq![name[1]]);
        assert(seq![name[1]].drop_last() =~= Seq::<char>::empty());
        assert(seq![name[1]].last() == '1');
        assert(d.last() == name[2]);
        assert(crate::text::digits_value(seq![name[1]]) == 1);
        assert(crate::text::digits_value(d) == 10 + crate::text::digit_value(name[2]));
    }
}

/// Key names round-trip: the config spelling of every key parses back
/// to that key.
pub proof fn lemma_key_names_round_trip(k: KeyCode)
    ensures
        key_named(key_config_name(k)) == Some(k),
{
    reveal_strlit("Enter");
    reveal_strlit("Escape");
    reveal_strlit("Space");
    reveal_strlit("Tab");
    reveal_strlit("Backspace");
    reveal_strlit("ArrowUp");
    reveal_strlit("ArrowDown");
    reveal_strlit("ArrowLeft");
    reveal_strlit("ArrowRight");
    reveal_strlit("ShiftLeft");
    reveal_strlit("ShiftRight");
    reveal_strlit("ControlLeft");
    reveal_strlit("ControlRight");
    reveal_strlit("AltLeft");
    reveal_strlit("AltRight");
    reveal_strlit("Minus");
    reveal_strlit("Equal");
    reveal_strlit("Backquote");
    reveal_strlit("Comma");
    reveal_strlit("Period");
    reveal_strlit("Slash");
    reveal_strlit("Backslash");
    reveal_strlit("Semicolon");
    reveal_strlit("Quote");
    reveal_strlit("BracketLeft");
    reveal_strlit("BracketRight");
    match k {
        KeyCode::Enter => {},
        KeyCode::Escape => {},
        KeyCode::Space => {},
        KeyCode::Tab => {},
        KeyCode::Backspace => {},
        KeyCode::ArrowUp => {},
        KeyCode::ArrowDown => {},
        KeyCode::ArrowLeft => {},
        KeyCode::ArrowRight => {},
        KeyCode::ShiftLeft => {},
        KeyCode::ShiftRight => {},
        KeyCode::ControlLeft => {},
        KeyCode::ControlRight => {},
        KeyCode::AltLeft => {},
        KeyCode::AltRight => {},
        KeyCode::Minus => {},
        KeyCode::Equal => {},
        KeyCode::Backquote => {},
        KeyCode::Comma => {},
        KeyCode::Period => {},
        KeyCode::Slash => {},
        KeyCode::Backslash => {},
        KeyCode::Semicolon => {},
        KeyCode::Quote => {},
        KeyCode::BracketLeft => {},
        KeyCode::BracketRight => {},
        KeyCode::KeyA => {
            reveal_strlit("KeyA");
            lemma_letter_name("KeyA"@);
        },
        KeyCode::KeyB => {
            reveal_strlit("KeyB");
            lemma_letter_name("KeyB"@);
        },
        KeyCode::KeyC => {
            reveal_strlit("KeyC");
            lemma_letter_name("KeyC"@);
        },
        KeyCode::KeyD => {
            reveal_strlit("KeyD");
            lemma_letter_name("KeyD"@);
        },
        KeyCode::KeyE => {
            reveal_strlit("KeyE");
            lemma_letter_name("KeyE"@);
        },
        KeyCode::KeyF => {
            reveal_strlit("KeyF");
            lemma_letter_name("KeyF"@);
        },
        KeyCode::KeyG => {
            reveal_strlit("KeyG");
            lemma_letter_name("KeyG"@);
        },
        KeyCode::KeyH => {
            reveal_strlit("KeyH");
            lemma_letter_name("KeyH"@);
        },
        KeyCode::KeyI => {
            reveal_strlit("KeyI");
            lemma_letter_name("KeyI"@);
        },
        KeyCode::KeyJ => {
            reveal_strlit("KeyJ");
            lemma_letter_name("KeyJ"@);
        },
        KeyCode::KeyK => {
            reveal_strlit("KeyK");
            lemma_letter_name("KeyK"@);
        },
        KeyCode::KeyL => {
            reveal_strlit("KeyL");
            lemma_letter_name("KeyL"@);
        },
        KeyCode::KeyM => {
            reveal_strlit("KeyM");
            lemma_letter_name("KeyM"@);
        },
        KeyCode::KeyN => {
            reveal_strlit("KeyN");
            lemma_letter_name("KeyN"@);
        },
        KeyCode::KeyO => {
            reveal_strlit("KeyO");
            lemma_letter_name("KeyO"@);
        },
        KeyCode::KeyP => {
            reveal_strlit("KeyP");
            lemma_letter_name("KeyP"@);
        },
        KeyCode::KeyQ => {
            reveal_strlit("KeyQ");
            lemma_letter_name("KeyQ"@);
        },
        KeyCode::KeyR => {
            reveal_strlit("KeyR");
            lemma_letter_name("KeyR"@);
        },
        KeyCode::KeyS => {
            reveal_strlit("KeyS");
            lemma_letter_name("KeyS"@);
        },
        KeyCode::KeyT => {
            reveal_strlit("KeyT");
            lemma_letter_name("KeyT"@);
        },
        KeyCode::KeyU => {
            reveal_strlit("KeyU");
            lemma_letter_name("KeyU"@);
        },
        KeyCode::KeyV => {
            reveal_strlit("KeyV");
            lemma_letter_name("KeyV"@);
        },
        KeyCode::KeyW => {
            reveal_strlit("KeyW");
            lemma_letter_name("KeyW"@);
        },
        KeyCode::KeyX => {
            reveal_strlit("KeyX");
            lemma_letter_name("KeyX"@);
        },
        KeyCode::KeyY => {
            reveal_strlit("KeyY");
            lemma_letter_name("KeyY"@);
        },
        KeyCode::KeyZ => {
            reveal_strlit("KeyZ");
            lemma_letter_name("KeyZ"@);
        },
        KeyCode::Digit0 => {
            reveal_strlit("Digit0");
            lemma_digit_name("Digit0"@);
        },
        KeyCode::Digit1 => {
            reveal_strlit("Digit1");
            lemma_digit_name("Digit1"@);
        },
        KeyCode::Digit2 => {
            reveal_strlit("Digit2");
            lemma_digit_name("Digit2"@);
        },
        KeyCode::Digit3 => {
            reveal_strlit("Digit3");
            lemma_digit_name("Digit3"@);
        },
        KeyCode::Digit4 => {
            reveal_strlit("Digit4");
            lemma_digit_name("Digit4"@);
        },
        KeyCode::Digit5 => {
            reveal_strlit("Digit5");
            lemma_digit_name("Digit5"@);
        },
        KeyCode::Digit6 => {
            reveal_strlit("Digit6");
            lemma_digit_name("Digit6"@);
        },
        KeyCode::Digit7 => {
            reveal_strlit("Digit7");
            lemma_digit_name("Digit7"@);
        },
        KeyCode::Digit8 => {
            reveal_strlit("Digit8");
            lemma_digit_name("Digit8"@);
        },
        KeyCode::Digit9 => {
            reveal_strlit("Digit9");
            lemma_digit_name("Digit9"@);
        },
        KeyCode::Numpad0 => {
            reveal_strlit("Numpad0");
            lemma_numpad_name("Numpad0"@);
        },
        KeyCode::Numpad1 => {
            reveal_strlit("Numpad1");
            lemma_numpad_name("Numpad1"@);
        },
        KeyCode::Numpad2 => {
            reveal_strlit("Numpad2");
            lemma_numpad_name("Numpad2"@);
        },
        KeyCode::Numpad3 => {
            reveal_strlit("Numpad3");
            lemma_numpad_name("Numpad3"@);
        },
        KeyCode::Numpad4 => {
            reveal_strlit("Numpad4");
            lemma_numpad_name("Numpad4"@);
        },
        KeyCode::Numpad5 => {
            reveal_strlit("Numpad5");
            lemma_numpad_name("Numpad5"@);
        },
        KeyCode::Numpad6 => {
            reveal_strlit("Numpad6");
            lemma_numpad_name("Numpad6"@);
        },
        KeyCode::Numpad7 => {
            reveal_strlit("Numpad7");
            lemma_numpad_name("Numpad7"@);
        },
        KeyCode::Numpad8 => {
            reveal_strlit("Numpad8");
            lemma_numpad_name("Numpad8"@);
        },
        KeyCode::Numpad9 => {
            reveal_strlit("Numpad9");
            lemma_numpad_name("Numpad9"@);
        },
        KeyCode::F1 => {
            reveal_strlit("F1");
            lemma_function_name("F1"@);
        },
        KeyCode::F2 => {
            reveal_strlit("F2");
            lemma_function_name("F2"@);
        },
        KeyCode::F3 => {
            reveal_strlit("F3");
            lemma_function_name("F3"@);
        },
        KeyCode::F4 => {
            reveal_strlit("F4");
            lemma_function_name("F4"@);
        },
        KeyCode::F5 => {
            reveal_strlit("F5");
            lemma_function_name("F5"@);
        },
        KeyCode::F6 => {
            reveal_strlit("F6");
            lemma_function_name("F6"@);
        },
        KeyCode::F7 => {
            reveal_strlit("F7");
            lemma_function_name("F7"@);
        },
        KeyCode::F8 => {
            reveal_strlit("F8");
            lemma_function_name("F8"@);
        },
        KeyCode::F9 => {
            reveal_strlit("F9");
            lemma_function_name("F9"@);
        },
        KeyCode::F10 => {
            reveal_strlit("F10");
            lemma_function_name("F10"@);
        },
        KeyCode::F11 => {
            reveal_strlit("F11");
            lemma_function_name("F11"@);
        },
        KeyCode::F12 => {
            reveal_strlit("F12");
            lemma_function_name("F12"@);
        },
    }
}

/// How the input config spells each mouse button.
pub open spec fn mouse_config_name(m: MouseButton) -> Seq<char> {
    match m {
        MouseButton::Left => "MouseLeft"@,
        MouseButton::Right => "MouseRight"@,
        MouseButton::Middle => "MouseMiddle"@,
        MouseButton::Back => "MouseBack"@,
        MouseButton::Forward => "MouseForward"@,
    }
}

/// Mouse button names round-trip: the config spelling of every button
/// parses back to that button.
pub proof fn lemma_mouse_names_round_trip(m: MouseButton)
    ensures
        mouse_named(mouse_config_name(m)) == Some(m),
{
    reveal_strlit("MouseLeft");
    reveal_strlit("MouseRight");
    reveal_strlit("MouseMiddle");
    reveal_strlit("MouseBack");
    reveal_strlit("MouseForward");
    assert("MouseLeft"@.len() == 9 && "MouseRight"@.len() == 10 && "MouseMiddle"@.len() == 11
        && "MouseBack"@.len() == 9 && "MouseForward"@.len() == 12);
    assert("MouseBack"@[5] != "MouseLeft"@[5]);
}

/// No pad button's config name begins like `x`: pad names begin with
/// `cross`/`circle`'s `cr`/`ci`, `triangle`'s `tr`, `square`, `start`
/// and `select`'s `sq`, `st` and `sel`, `dpad`'s `dp`, or `l`/`r`.
proof fn lemma_not_a_pad_name(x: Seq<char>)
    requires
        x.len() >= 2,
        x[0] != 'l' && x[0] != 'r',
        x[0] == 'c' ==> x[1] != 'r' && x[1] != 'i',
        x[0] == 't' ==> x[1] != 'r',
        x[0] == 's' ==> x[1] != 'q' && x[1] != 't' && (x[1] == 'e' ==> x.len() >= 3 && x[2] != 'l'),
        x[0] == 'd' ==> x[1] != 'p',
    ensures
        PadButton::named(x) is None,
{
    reveal_strlit("cross");
    reveal_strlit("circle");
    reveal_strlit("triangle");
    reveal_strlit("square");
    reveal_strlit("dpad_up");
    reveal_strlit("dpad_down");
    reveal_strlit("dpad_left");
    reveal_strlit("dpad_right");
    reveal_strlit("l1");
    reveal_strlit("r1");
    reveal_strlit("l2");
    reveal_strlit("r2");
    reveal_strlit("l3");
    reveal_strlit("r3");
    reveal_strlit("start");
    reveal_strlit("select");
    assert("cross"@.len() == 5 && "cross"@[0] == 'c' && "cross"@[1] == 'r' && "cross"@[2] == 'o');
    assert("circle"@.len() == 6 && "circle"@[0] == 'c' && "circle"@[1] == 'i' && "circle"@[2] == 'r');
    assert("triangle"@.len() == 8 && "triangle"@[0] == 't' && "triangle"@[1] == 'r' && "triangle"@[2] == 'i');
    assert("square"@.len() == 6 && "square"@[0] == 's' && "square"@[1] == 'q' && "square"@[2] == 'u');
    assert("dpad_up"@.len() == 7 && "dpad_up"@[0] == 'd' && "dpad_up"@[1] == 'p' && "dpad_up"@[2] == 'a');
    assert("dpad_down"@.len() == 9 && "dpad_down"@[0] == 'd' && "dpad_down"@[1] == 'p' && "dpad_down"@[2] == 'a');
    assert("dpad_left"@.len() == 9 && "dpad_left"@[0] == 'd' && "dpad_left"@[1] == 'p' && "dpad_left"@[2] == 'a');
    assert("dpad_right"@.len() == 10 && "dpad_right"@[0] == 'd' && "dpad_right"@[1] == 'p' && "dpad_right"@[2] == 'a');
    assert("l1"@.len() == 2 && "l1"@[0] == 'l' && "l1"@[1] == '1');
    assert("r1"@.len() == 2 && "r1"@[0] == 'r' && "r1"@[1] == '1');
    assert("l2"@.len() == 2 && "l2"@[0] == 'l' && "l2"@[1] == '2');
    assert("r2"@.len() == 2 && "r2"@[0] == 'r' && "r2"@[1] == '2');
    assert("l3"@.len() == 2 && "l3"@[0] == 'l' && "l3"@[1] == '3');
    assert("r3"@.len() == 2 && "r3"@[0] == 'r' && "r3"@[1] == '3');
    assert("start"@.len() == 5 && "start"@[0] == 's' && "start"@[1] == 't' && "start"@[2] == 'a');
    assert("select"@.len() == 6 && "select"@[0] == 's' && "select"@[1] == 'e' && "select"@[2] == 'l');
}

/// A name beginning with an upper-case letter is no pad button's name,
/// as written or lower-cased, when its lower-cased form begins unlike
/// every pad name.
proof fn lemma_not_pad_in_either_case(name: Seq<char>)
    requires
        is_ascii_text(name),
        name.len() >= 2,
        'A' <= name[0] && name[0] <= 'Z',
        lowered(name)[0] != 'l' && lowered(name)[0] != 'r',
        lowered(name)[0] == 'c' ==> lowered(name)[1] != 'r' && lowered(name)[1] != 'i',
        lowered(name)[0] == 't' ==> lowered(name)[1] != 'r',
        lowered(name)[0] == 's' ==> lowered(name)[1] != 'q' && lowered(name)[1] != 't' && (lowered(name)[1]
            == 'e' ==> name.len() >= 3 && lowered(name)[2] != 'l'),
        lowered(name)[0] == 'd' ==> lowered(name)[1] != 'p',
    ensures
        PadButton::named(name) is None,
        PadButton::named(lowered(name)) is None,
{
    lemma_not_a_pad_name(lowered(name));
    lemma_not_a_pad_name(name);
}

/// A name beginning with `Mouse` names no key.
proof fn lemma_mouse_name_is_no_key(name: Seq<char>)
    requires
        name.len() > 5,
        name[0] == 'M' && name[1] == 'o',
    ensures
        key_named(name) is None,
{
    reveal_strlit("Enter");
    reveal_strlit("Escape");
    reveal_strlit("Space");
    reveal_strlit("Tab");
    reveal_strlit("Backspace");
    reveal_strlit("ArrowUp");
    reveal_strlit("ArrowDown");
    reveal_strlit("ArrowLeft");
    reveal_strlit("ArrowRight");
    reveal_strlit("ShiftLeft");
    reveal_strlit("ShiftRight");
    reveal_strlit("ControlLeft");
    reveal_strlit("ControlRight");
    reveal_strlit("AltLeft");
    reveal_strlit("AltRight");
    reveal_strlit("Minus");
    reveal_strlit("Equal");
    reveal_strlit("Backquote");
    reveal_strlit("Comma");
    reveal_strlit("Period");
    reveal_strlit("Slash");
    reveal_strlit("Backslash");
    reveal_strlit("Semicolon");
    reveal_strlit("Quote");
    reveal_strlit("BracketLeft");
    reveal_strlit("BracketRight");
    reveal_strlit("Key");
    reveal_strlit("Digit");
    reveal_strlit("Numpad");
    reveal_strlit("F");
    assert("Minus"@[1] == 'i');
    assert(!starts_with(name, "Key"@)) by {
        if starts_with(name, "Key"@) {
            assert(name.take(3)[0] == "Key"@[0]);
        }
    }
    assert(!starts_with(name, "Digit"@)) by {
        if starts_with(name, "Digit"@) {
            assert(name.take(5)[0] == "Digit"@[0]);
        }
    }
    assert(!starts_with(name, "Numpad"@)) by {
        if starts_with(name, "Numpad"@) {
            assert(name.take(6)[0] == "Numpad"@[0]);
        }
    }
    assert(!starts_with(name, "F"@)) by {
        if starts_with(name, "F"@) {
            assert(name.take(1)[0] == "F"@[0]);
        }
    }
}

/// Binding values round-trip: the config spelling of every key and every
/// mouse button reads back, as a binding value, as that key or button.
pub proof fn lemma_binding_values_round_trip(k: KeyCode, m: MouseButton)
    ensures
        raw_named(key_config_name(k)) == Some(Raw::Key(k)),
        raw_named(mouse_config_name(m)) == Some(Raw::Mouse(m)),
{
    lemma_key_names_round_trip(k);
    lemma_mouse_names_round_trip(m);
    match k {
        KeyCode::Enter => {
            reveal_strlit("Enter");
            assert(is_ascii_text("Enter"@));
            lemma_not_pad_in_either_case("Enter"@);
        },
        KeyCode::Escape => {
            reveal_strlit("Escape");
            assert(is_ascii_text("Escape"@));
            lemma_not_pad_in_either_case("Escape"@);
        },
        KeyCode::Space => {
            reveal_strlit("Space");
            assert(is_ascii_text("Space"@));
            lemma_not_pad_in_either_case("Space"@);
        },
        KeyCode::Tab => {
            reveal_strlit("Tab");
            assert(is_ascii_text("Tab"@));
            lemma_not_pad_in_either_case("Tab"@);
        },
        KeyCode::Backspace => {
            reveal_strlit("Backspace");
            assert(is_ascii_text("Backspace"@));
            lemma_not_pad_in_either_case("Backspace"@);
        },
        KeyCode::ArrowUp => {
            reveal_strlit("ArrowUp");
            assert(is_ascii_text("ArrowUp"@));
            lemma_not_pad_in_either_case("ArrowUp"@);
        },
        KeyCode::ArrowDown => {
            reveal_strlit("ArrowDown");
            assert(is_ascii_text("ArrowDown"@));
            lemma_not_pad_in_either_case("ArrowDown"@);
        },
        KeyCode::ArrowLeft => {
            reveal_strlit("ArrowLeft");
            assert(is_ascii_text("ArrowLeft"@));
            lemma_not_pad_in_either_case("ArrowLeft"@);
        },
        KeyCode::ArrowRight => {
            reveal_strlit("ArrowRight");
            assert(is_ascii_text("ArrowRight"@));
            lemma_not_pad_in_either_case("ArrowRight"@);
        },
        KeyCode::ShiftLeft => {
            reveal_strlit("ShiftLeft");
            assert(is_ascii_text("ShiftLeft"@));
            lemma_not_pad_in_either_case("ShiftLeft"@);
        },
        KeyCode::ShiftRight => {
            reveal_strlit("ShiftRight");
            assert(is_ascii_text("ShiftRight"@));
            lemma_not_pad_in_either_case("ShiftRight"@);
        },
        KeyCode::ControlLeft => {
            reveal_strlit("ControlLeft");
            assert(is_ascii_text("ControlLeft"@));
            lemma_not_pad_in_either_case("ControlLeft"@);
        },
        KeyCode::ControlRight => {
            reveal_strlit("ControlRight");
            assert(is_ascii_text("ControlRight"@));
            lemma_not_pad_in_either_case("ControlRight"@);
        },
        KeyCode::AltLeft => {
            reveal_strlit("AltLeft");
            assert(is_ascii_text("AltLeft"@));
            lemma_not_pad_in_either_case("AltLeft"@);
        },
        KeyCode::AltRight => {
            reveal_strlit("AltRight");
            assert(is_ascii_text("AltRight"@));
            lemma_not_pad_in_either_case("AltRight"@);
        },
        KeyCode::Minus => {
            reveal_strlit("Minus");
            assert(is_ascii_text("Minus"@));
            lemma_not_pad_in_either_case("Minus"@);
        },
        KeyCode::Equal => {
            reveal_strlit("Equal");
            assert(is_ascii_text("Equal"@));
            lemma_not_pad_in_either_case("Equal"@);
        },
        KeyCode::Backquote => {
            reveal_strlit("Backquote");
            assert(is_ascii_text("Backquote"@));
            lemma_not_pad_in_either_case("Backquote"@);
        },
        KeyCode::Comma => {
            reveal_strlit("Comma");
            assert(is_ascii_text("Comma"@));
            lemma_not_pad_in_either_case("Comma"@);
        },
        KeyCode::Period => {
            reveal_strlit("Period");
            assert(is_ascii_text("Period"@));
            lemma_not_pad_in_either_case("Period"@);
        },
        KeyCode::Slash => {
            reveal_strlit("Slash");
            assert(is_ascii_text("Slash"@));
            lemma_not_pad_in_either_case("Slash"@);
        },
        KeyCode::Backslash => {
            reveal_strlit("Backslash");
            assert(is_ascii_text("Backslash"@));
            lemma_not_pad_in_either_case("Backslash"@);
        },
        KeyCode::Semicolon => {
            reveal_strlit("Semicolon");
            assert(is_ascii_text("Semicolon"@));
            lemma_not_pad_in_either_case("Semicolon"@);
        },
        KeyCode::Quote => {
            reveal_strlit("Quote");
            assert(is_ascii_text("Quote"@));
            lemma_not_pad_in_either_case("Quote"@);
        },
        KeyCode::BracketLeft => {
            reveal_strlit("BracketLeft");
            assert(is_ascii_text("BracketLeft"@));
            lemma_not_pad_in_either_case("BracketLeft"@);
        },
        KeyCode::BracketRight => {
            reveal_strlit("BracketRight");
            assert(is_ascii_text("BracketRight"@));
            lemma_not_pad_in_either_case("BracketRight"@);
        },
        KeyCode::KeyA => {
            reveal_strlit("KeyA");
            assert(is_ascii_text("KeyA"@));
            lemma_not_pad_in_either_case("KeyA"@);
        },
        KeyCode::KeyB => {
            reveal_strlit("KeyB");
            assert(is_ascii_text("KeyB"@));
            lemma_not_pad_in_either_case("KeyB"@);
        },
        KeyCode::KeyC => {
            reveal_strlit("KeyC");
            assert(is_ascii_text("KeyC"@));
            lemma_not_pad_in_either_case("KeyC"@);
        },
        KeyCode::KeyD => {
            reveal_strlit("KeyD");
            assert(is_ascii_text("KeyD"@));
            lemma_not_pad_in_either_case("KeyD"@);
        },
        KeyCode::KeyE => {
            reveal_strlit("KeyE");
            assert(is_ascii_text("KeyE"@));
            lemma_not_pad_in_either_case("KeyE"@);
        },
        KeyCode::KeyF => {
            reveal_strlit("KeyF");
            assert(is_ascii_text("KeyF"@));
            lemma_not_pad_in_either_case("KeyF"@);
        },
        KeyCode::KeyG => {
            reveal_strlit("KeyG");
            assert(is_ascii_text("KeyG"@));
            lemma_not_pad_in_either_case("KeyG"@);
        },
        KeyCode::KeyH => {
            reveal_strlit("KeyH");
            assert(is_ascii_text("KeyH"@));
            lemma_not_pad_in_either_case("KeyH"@);
        },
        KeyCode::KeyI => {
            reveal_strlit("KeyI");
            assert(is_ascii_text("KeyI"@));
            lemma_not_pad_in_either_case("KeyI"@);
        },
        KeyCode::KeyJ => {
            reveal_strlit("KeyJ");
            assert(is_ascii_text("KeyJ"@));
            lemma_not_pad_in_either_case("KeyJ"@);
        },
        KeyCode::KeyK => {
            reveal_strlit("KeyK");
            assert(is_ascii_text("KeyK"@));
            lemma_not_pad_in_either_case("KeyK"@);
        },
        KeyCode::KeyL => {
            reveal_strlit("KeyL");
            assert(is_ascii_text("KeyL"@));
            lemma_not_pad_in_either_case("KeyL"@);
        },
        KeyCode::KeyM => {
            reveal_strlit("KeyM");
            assert(is_ascii_text("KeyM"@));
            lemma_not_pad_in_either_case("KeyM"@);
        },
        KeyCode::KeyN => {
            reveal_strlit("KeyN");
            assert(is_ascii_text("KeyN"@));
            lemma_not_pad_in_either_case("KeyN"@);
        },
        KeyCode::KeyO => {
            reveal_strlit("KeyO");
            assert(is_ascii_text("KeyO"@));
            lemma_not_pad_in_either_case("KeyO"@);
        },
        KeyCode::KeyP => {
            reveal_strlit("KeyP");
            assert(is_ascii_text("KeyP"@));
            lemma_not_pad_in_either_case("KeyP"@);
        },
        KeyCode::KeyQ => {
            reveal_strlit("KeyQ");
            assert(is_ascii_text("KeyQ"@));
            lemma_not_pad_in_either_case("KeyQ"@);
        },
        KeyCode::KeyR => {
            reveal_strlit("KeyR");
            assert(is_ascii_text("KeyR"@));
            lemma_not_pad_in_either_case("KeyR"@);
        },
        KeyCode::KeyS => {
            reveal_strlit("KeyS");
            assert(is_ascii_text("KeyS"@));
            lemma_not_pad_in_either_case("KeyS"@);
        },
        KeyCode::KeyT => {
            reveal_strlit("KeyT");
            assert(is_ascii_text("KeyT"@));
            lemma_not_pad_in_either_case("KeyT"@);
        },
        KeyCode::KeyU => {
            reveal_strlit("KeyU");
            assert(is_ascii_text("KeyU"@));
            lemma_not_pad_in_either_case("KeyU"@);
        },
        KeyCode::KeyV => {
            reveal_strlit("KeyV");
            assert(is_ascii_text("KeyV"@));
            lemma_not_pad_in_either_case("KeyV"@);
        },
        KeyCode::KeyW => {
            reveal_strlit("KeyW");
            assert(is_ascii_text("KeyW"@));
            lemma_not_pad_in_either_case("KeyW"@);
        },
        KeyCode::KeyX => {
            reveal_strlit("KeyX");
            assert(is_ascii_text("KeyX"@));
            lemma_not_pad_in_either_case("KeyX"@);
        },
        KeyCode::KeyY => {
            reveal_strlit("KeyY");
            assert(is_ascii_text("KeyY"@));
            lemma_not_pad_in_either_case("KeyY"@);
        },
        KeyCode::KeyZ => {
            reveal_strlit("KeyZ");
            assert(is_ascii_text("KeyZ"@));
            lemma_not_pad_in_either_case("KeyZ"@);
        },
        KeyCode::Digit0 => {
            reveal_strlit("Digit0");
            assert(is_ascii_text("Digit0"@));
            lemma_not_pad_in_either_case("Digit0"@);
        },
        KeyCode::Digit1 => {
            reveal_strlit("Digit1");
            assert(is_ascii_text("Digit1"@));
            lemma_not_pad_in_either_case("Digit1"@);
        },
        KeyCode::Digit2 => {
            reveal_strlit("Digit2");
            assert(is_ascii_text("Digit2"@));
            lemma_not_pad_in_either_case("Digit2"@);
        },
        KeyCode::Digit3 => {
            reveal_strlit("Digit3");
            assert(is_ascii_text("Digit3"@));
            lemma_not_pad_in_either_case("Digit3"@);
        },
        KeyCode::Digit4 => {
            reveal_strlit("Digit4");
            assert(is_ascii_text("Digit4"@));
            lemma_not_pad_in_either_case("Digit4"@);
        },
        KeyCode::Digit5 => {
            reveal_strlit("Digit5");
            assert(is_ascii_text("Digit5"@));
            lemma_not_pad_in_either_case("Digit5"@);
        },
        KeyCode::Digit6 => {
            reveal_strlit("Digit6");
            assert(is_ascii_text("Digit6"@));
            lemma_not_pad_in_either_case("Digit6"@);
        },
        KeyCode::Digit7 => {
            reveal_strlit("Digit7");
            assert(is_ascii_text("Digit7"@));
            lemma_not_pad_in_either_case("Digit7"@);
        },
        KeyCode::Digit8 => {
            reveal_strlit("Digit8");
            assert(is_ascii_text("Digit8"@));
            lemma_not_pad_in_either_case("Digit8"@);
        },
        KeyCode::Digit9 => {
            reveal_strlit("Digit9");
            assert(is_ascii_text("Digit9"@));
            lemma_not_pad_in_either_case("Digit9"@);
        },
        KeyCode::Numpad0 => {
            reveal_strlit("Numpad0");
            assert(is_ascii_text("Numpad0"@));
            lemma_not_pad_in_either_case("Numpad0"@);
        },
        KeyCode::Numpad1 => {
            reveal_strlit("Numpad1");
            assert(is_ascii_text("Numpad1"@));
            lemma_not_pad_in_either_case("Numpad1"@);
        },
        KeyCode::Numpad2 => {
            reveal_strlit("Numpad2");
            assert(is_ascii_text("Numpad2"@));
            lemma_not_pad_in_either_case("Numpad2"@);
        },
        KeyCode::Numpad3 => {
            reveal_strlit("Numpad3");
            assert(is_ascii_text("Numpad3"@));
            lemma_not_pad_in_either_case("Numpad3"@);
        },
        KeyCode::Numpad4 => {
            reveal_strlit("Numpad4");
            assert(is_ascii_text("Numpad4"@));
            lemma_not_pad_in_either_case("Numpad4"@);
        },
        KeyCode::Numpad5 => {
            reveal_strlit("Numpad5");
            assert(is_ascii_text("Numpad5"@));
            lemma_not_pad_in_either_case("Numpad5"@);
        },
        KeyCode::Numpad6 => {
            reveal_strlit("Numpad6");
            assert(is_ascii_text("Numpad6"@));
            lemma_not_pad_in_either_case("Numpad6"@);
        },
        KeyCode::Numpad7 => {
            reveal_strlit("Numpad7");
            assert(is_ascii_text("Numpad7"@));
            lemma_not_pad_in_either_case("Numpad7"@);
        },
        KeyCode::Numpad8 => {
            reveal_strlit("Numpad8");
            assert(is_ascii_text("Numpad8"@));
            lemma_not_pad_in_either_case("Numpad8"@);
        },
        KeyCode::Numpad9 => {
            reveal_strlit("Numpad9");
            assert(is_ascii_text("Numpad9"@));
            lemma_not_pad_in_either_case("Numpad9"@);
        },
        KeyCode::F1 => {
            reveal_strlit("F1");
            assert(is_ascii_text("F1"@));
            lemma_not_pad_in_either_case("F1"@);
        },
        KeyCode::F2 => {
            reveal_strlit("F2");
            assert(is_ascii_text("F2"@));
            lemma_not_pad_in_either_case("F2"@);
        },
        KeyCode::F3 => {
            reveal_strlit("F3");
            assert(is_ascii_text("F3"@));
            lemma_not_pad_in_either_case("F3"@);
        },
        KeyCode::F4 => {
            reveal_strlit("F4");
            assert(is_ascii_text("F4"@));
            lemma_not_pad_in_either_case("F4"@);
        },
        KeyCode::F5 => {
            reveal_strlit("F5");
            assert(is_ascii_text("F5"@));
            lemma_not_pad_in_either_case("F5"@);
        },
        KeyCode::F6 => {
            reveal_strlit("F6");
            assert(is_ascii_text("F6"@));
            lemma_not_pad_in_either_case("F6"@);
        },
        KeyCode::F7 => {
            reveal_strlit("F7");
            assert(is_ascii_text("F7"@));
            lemma_not_pad_in_either_case("F7"@);
        },
        KeyCode::F8 => {
            reveal_strlit("F8");
            assert(is_ascii_text("F8"@));
            lemma_not_pad_in_either_case("F8"@);
        },
        KeyCode::F9 => {
            reveal_strlit("F9");
            assert(is_ascii_text("F9"@));
            lemma_not_pad_in_either_case("F9"@);
        },
        KeyCode::F10 => {
            reveal_strlit("F10");
            assert(is_ascii_text("F10"@));
            lemma_not_pad_in_either_case("F10"@);
        },
        KeyCode::F11 => {
            reveal_strlit("F11");
            assert(is_ascii_text("F11"@));
            lemma_not_pad_in_either_case("F11"@);
        },
        KeyCode::F12 => {
            reveal_strlit("F12");
            assert(is_ascii_text("F12"@));
            lemma_not_pad_in_either_case("F12"@);
        },
    }
    match m {
        MouseButton::Left => {
            reveal_strlit("MouseLeft");
            assert(is_ascii_text("MouseLeft"@));
            lemma_not_pad_in_either_case("MouseLeft"@);
            lemma_mouse_name_is_no_key("MouseLeft"@);
        },
        MouseButton::Right => {
            reveal_strlit("MouseRight");
            assert(is_ascii_text("MouseRight"@));
            lemma_not_pad_in_either_case("MouseRight"@);
            lemma_mouse_name_is_no_key("MouseRight"@);
        },
        MouseButton::Middle => {
            reveal_strlit("MouseMiddle");
            assert(is_ascii_text("MouseMiddle"@));
            lemma_not_pad_in_either_case("MouseMiddle"@);
            lemma_mouse_name_is_no_key("MouseMiddle"@);
        },
        MouseButton::Back => {
            reveal_strlit("MouseBack");
            assert(is_ascii_text("MouseBack"@));
            lemma_not_pad_in_either_case("MouseBack"@);
            lemma_mouse_name_is_no_key("MouseBack"@);
        },
        MouseButton::Forward => {
            reveal_strlit("MouseForward");
            assert(is_ascii_text("MouseForward"@));
            lemma_not_pad_in_either_case("MouseForward"@);
            lemma_mouse_name_is_no_key("MouseForward"@);
        },
    }
}

} // verus!
