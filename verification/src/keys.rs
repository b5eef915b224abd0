//! The chord vocabulary: modifier sets, the closed list of bindable keys and
//! the Linux input-event code each key produces.

use vstd::prelude::*;

verus! {

/// Which of the four chord modifiers are part of a set.
#[derive(Debug, Clone, Copy, PartialEq, Eq, Hash, Structural)]
pub struct Mods {
    pub meta: bool,
    pub ctrl: bool,
    pub alt: bool,
    pub shift: bool,
}

impl Mods {
    pub open spec fn spec_none() -> Mods {
        Mods { meta: false, ctrl: false, alt: false, shift: false }
    }

    pub open spec fn spec_meta() -> Mods {
        Mods { meta: true, ctrl: false, alt: false, shift: false }
    }

    /// No modifier at all.
    pub fn none() -> (m: Mods)
        ensures
            m == Mods::spec_none(),
    {
        Mods { meta: false, ctrl: false, alt: false, shift: false }
    }

    /// The logo key (Super / Meta / Cmd / Win) alone.
    pub fn meta_only() -> (m: Mods)
        ensures
            m == Mods::spec_meta(),
    {
        Mods { meta: true, ctrl: false, alt: false, shift: false }
    }

    pub open spec fn spec_is_none(self) -> bool {
        !self.meta && !self.ctrl && !self.alt && !self.shift
    }

    /// Whether no modifier is set.
    pub fn is_none(&self) -> (r: bool)
        ensures
            r == self.spec_is_none(),
    {
        !self.meta && !self.ctrl && !self.alt && !self.shift
    }
}

/// Every ordinary key a chord can name. The list is closed on purpose: a key
/// outside it is not bindable.
#[derive(Debug, Clone, Copy, PartialEq, Eq, Hash, Structural)]
pub enum KeyCode {
    A,
    B,
    C,
    D,
    E,
    F,
    G,
    H,
    I,
    J,
    K,
    L,
    M,
    N,
    O,
    P,
    Q,
    R,
    S,
    T,
    U,
    V,
    W,
    X,
    Y,
    Z,
    Digit0,
    Digit1,
    Digit2,
    Digit3,
    Digit4,
    Digit5,
    Digit6,
    Digit7,
    Digit8,
    Digit9,
    F1,
    F2,
    F3,
    F4,
    F5,
    F6,
    F7,
    F8,
    F9,
    F10,
    F11,
    F12,
    Space,
    Enter,
    Tab,
    Escape,
    Backspace,
    Delete,
    Insert,
    Home,
    End,
    PageUp,
    PageDown,
    CapsLock,
    ArrowUp,
    ArrowDown,
    ArrowLeft,
    ArrowRight,
    Minus,
    Equal,
    LeftBracket,
    RightBracket,
    Backslash,
    Semicolon,
    Quote,
    Backquote,
    Comma,
    Period,
    Slash,
}

/// A chord: a set of modifiers plus at most one ordinary key.
///
/// A binding with no modifier and no key binds nothing (written `None`).
#[derive(Debug, Clone, Copy, PartialEq, Eq, Hash, Structural)]
pub struct Keybind {
    pub mods: Mods,
    pub key: Option<KeyCode>,
}

impl Keybind {
    pub open spec fn spec_is_empty(self) -> bool {
        self.mods.spec_is_none() && self.key is None
    }

    /// Whether the binding binds nothing.
    pub fn is_empty(&self) -> (r: bool)
        ensures
            r == self.spec_is_empty(),
    {
        self.mods.is_none() && self.key.is_none()
    }

    pub open spec fn spec_unbound() -> Keybind {
        Keybind { mods: Mods::spec_none(), key: None }
    }

    /// The binding that binds nothing.
    pub fn unbound() -> (k: Keybind)
        ensures
            k == Keybind::spec_unbound(),
    {
        Keybind { mods: Mods::none(), key: None }
    }

    pub open spec fn spec_super_space() -> Keybind {
        Keybind { mods: Mods::spec_meta(), key: Some(KeyCode::Space) }
    }

    /// `Super+Space`, the default dictation shortcut.
    pub fn super_space() -> (k: Keybind)
        ensures
            k == Keybind::spec_super_space(),
    {
        Keybind { mods: Mods::meta_only(), key: Some(KeyCode::Space) }
    }

    pub open spec fn spec_super_ctrl() -> Keybind {
        Keybind { mods: Mods { meta: true, ctrl: true, alt: false, shift: false }, key: None }
    }

    /// `Super+Ctrl`, a modifier-only chord.
    pub fn super_ctrl() -> (k: Keybind)
        ensures
            k == Keybind::spec_super_ctrl(),
    {
        Keybind { mods: Mods { meta: true, ctrl: true, alt: false, shift: false }, key: None }
    }
}

/// Number of bindable keys.
pub const KEY_COUNT: usize = 75;

/// Every bindable key, in declaration order.
pub open spec fn spec_all_keys() -> Seq<KeyCode> {
    seq![
        KeyCode::A,
        KeyCode::B,
        KeyCode::C,
        KeyCode::D,
        KeyCode::E,
        KeyCode::F,
        KeyCode::G,
        KeyCode::H,
        KeyCode::I,
        KeyCode::J,
        KeyCode::K,
        KeyCode::L,
        KeyCode::M,
        KeyCode::N,
        KeyCode::O,
        KeyCode::P,
        KeyCode::Q,
        KeyCode::R,
        KeyCode::S,
        KeyCode::T,
        KeyCode::U,
        KeyCode::V,
        KeyCode::W,
        KeyCode::X,
        KeyCode::Y,
        KeyCode::Z,
        KeyCode::Digit0,
        KeyCode::Digit1,
        KeyCode::Digit2,
        KeyCode::Digit3,
        KeyCode::Digit4,
        KeyCode::Digit5,
        KeyCode::Digit6,
        KeyCode::Digit7,
        KeyCode::Digit8,
        KeyCode::Digit9,
        KeyCode::F1,
        KeyCode::F2,
        KeyCode::F3,
        KeyCode::F4,
        KeyCode::F5,
        KeyCode::F6,
        KeyCode::F7,
        KeyCode::F8,
        KeyCode::F9,
        KeyCode::F10,
        KeyCode::F11,
        KeyCode::F12,
        KeyCode::Space,
        KeyCode::Enter,
        KeyCode::Tab,
        KeyCode::Escape,
        KeyCode::Backspace,
        KeyCode::Delete,
        KeyCode::Insert,
        KeyCode::Home,
        KeyCode::End,
        KeyCode::PageUp,
        KeyCode::PageDown,
        KeyCode::CapsLock,
        KeyCode::ArrowUp,
        KeyCode::ArrowDown,
        KeyCode::ArrowLeft,
        KeyCode::ArrowRight,
        KeyCode::Minus,
        KeyCode::Equal,
        KeyCode::LeftBracket,
        KeyCode::RightBracket,
        KeyCode::Backslash,
        KeyCode::Semicolon,
        KeyCode::Quote,
        KeyCode::Backquote,
        KeyCode::Comma,
        KeyCode::Period,
        KeyCode::Slash
    ]
}

/// The Linux input-event code (`KEY_*` in `input-event-codes.h`) that a key
/// produces on a keyboard.
pub open spec fn spec_evdev_code(key: KeyCode) -> u16 {
    match key {
        KeyCode::A => 30,
        KeyCode::B => 48,
        KeyCode::C => 46,
        KeyCode::D => 32,
        KeyCode::E => 18,
        KeyCode::F => 33,
        KeyCode::G => 34,
        KeyCode::H => 35,
        KeyCode::I => 23,
        KeyCode::J => 36,
        KeyCode::K => 37,
        KeyCode::L => 38,
        KeyCode::M => 50,
        KeyCode::N => 49,
        KeyCode::O => 24,
        KeyCode::P => 25,
        KeyCode::Q => 16,
        KeyCode::R => 19,
        KeyCode::S => 31,
        KeyCode::T => 20,
        KeyCode::U => 22,
        KeyCode::V => 47,
        KeyCode::W => 17,
        KeyCode::X => 45,
        KeyCode::Y => 21,
        KeyCode::Z => 44,
        KeyCode::Digit0 => 11,
        KeyCode::Digit1 => 2,
        KeyCode::Digit2 => 3,
        KeyCode::Digit3 => 4,
        KeyCode::Digit4 => 5,
        KeyCode::Digit5 => 6,
        KeyCode::Digit6 => 7,
        KeyCode::Digit7 => 8,
        KeyCode::Digit8 => 9,
        KeyCode::Digit9 => 10,
        KeyCode::F1 => 59,
        KeyCode::F2 => 60,
        KeyCode::F3 => 61,
        KeyCode::F4 => 62,
        KeyCode::F5 => 63,
        KeyCode::F6 => 64,
        KeyCode::F7 => 65,
        KeyCode::F8 => 66,
        KeyCode::F9 => 67,
        KeyCode::F10 => 68,
        KeyCode::F11 => 87,
        KeyCode::F12 => 88,
        KeyCode::Space => 57,
        KeyCode::Enter => 28,
        KeyCode::Tab => 15,
        KeyCode::Escape => 1,
        KeyCode::Backspace => 14,
        KeyCode::Delete => 111,
        KeyCode::Insert => 110,
        KeyCode::Home => 102,
        KeyCode::End => 107,
        KeyCode::PageUp => 104,
        KeyCode::PageDown => 109,
        KeyCode::CapsLock => 58,
        KeyCode::ArrowUp => 103,
        KeyCode::ArrowDown => 108,
        KeyCode::ArrowLeft => 105,
        KeyCode::ArrowRight => 106,
        KeyCode::Minus => 12,
        KeyCode::Equal => 13,
        KeyCode::LeftBracket => 26,
        KeyCode::RightBracket => 27,
        KeyCode::Backslash => 43,
        KeyCode::Semicolon => 39,
        KeyCode::Quote => 40,
        KeyCode::Backquote => 41,
        KeyCode::Comma => 51,
        KeyCode::Period => 52,
        KeyCode::Slash => 53,
    }
}

/// The bindable key that produces an input-event code, if any.
pub open spec fn spec_key_for_code(code: u16) -> Option<KeyCode> {
    if code == 30 {
        Some(KeyCode::A)
    }     else if code == 48 {
        Some(KeyCode::B)
    }     else if code == 46 {
        Some(KeyCode::C)
    }     else if code == 32 {
        Some(KeyCode::D)
    }     else if code == 18 {
        Some(KeyCode::E)
    }     else if code == 33 {
        Some(KeyCode::F)
    }     else if code == 34 {
        Some(KeyCode::G)
    }     else if code == 35 {
        Some(KeyCode::H)
    }     else if code == 23 {
        Some(KeyCode::I)
    }     else if code == 36 {
        Some(KeyCode::J)
    }     else if code == 37 {
        Some(KeyCode::K)
    }     else if code == 38 {
        Some(KeyCode::L)
    }     else if code == 50 {
        Some(KeyCode::M)
    }     else if code == 49 {
        Some(KeyCode::N)
    }     else if code == 24 {
        Some(KeyCode::O)
    }     else if code == 25 {
        Some(KeyCode::P)
    }     else if code == 16 {
        Some(KeyCode::Q)
    }     else if code == 19 {
        Some(KeyCode::R)
    }     else if code == 31 {
        Some(KeyCode::S)
    }     else if code == 20 {
        Some(KeyCode::T)
    }     else if code == 22 {
        Some(KeyCode::U)
    }     else if code == 47 {
        Some(KeyCode::V)
    }     else if code == 17 {
        Some(KeyCode::W)
    }     else if code == 45 {
        Some(KeyCode::X)
    }     else if code == 21 {
        Some(KeyCode::Y)
    }     else if code == 44 {
        Some(KeyCode::Z)
    }     else if code == 11 {
        Some(KeyCode::Digit0)
    }     else if code == 2 {
        Some(KeyCode::Digit1)
    }     else if code == 3 {
        Some(KeyCode::Digit2)
    }     else if code == 4 {
        Some(KeyCode::Digit3)
    }     else if code == 5 {
        Some(KeyCode::Digit4)
    }     else if code == 6 {
        Some(KeyCode::Digit5)
    }     else if code == 7 {
        Some(KeyCode::Digit6)
    }     else if code == 8 {
        Some(KeyCode::Digit7)
    }     else if code == 9 {
        Some(KeyCode::Digit8)
    }     else if code == 10 {
        Some(KeyCode::Digit9)
    }     else if code == 59 {
        Some(KeyCode::F1)
    }     else if code == 60 {
        Some(KeyCode::F2)
    }     else if code == 61 {
        Some(KeyCode::F3)
    }     else if code == 62 {
        Some(KeyCode::F4)
    }     else if code == 63 {
        Some(KeyCode::F5)
    }     else if code == 64 {
        Some(KeyCode::F6)
    }     else if code == 65 {
        Some(KeyCode::F7)
    }     else if code == 66 {
        Some(KeyCode::F8)
    }     else if code == 67 {
        Some(KeyCode::F9)
    }     else if code == 68 {
        Some(KeyCode::F10)
    }     else if code == 87 {
        Some(KeyCode::F11)
    }     else if code == 88 {
        Some(KeyCode::F12)
    }     else if code == 57 {
        Some(KeyCode::Space)
    }     else if code == 28 {
        Some(KeyCode::Enter)
    }     else if code == 15 {
        Some(KeyCode::Tab)
    }     else if code == 1 {
        Some(KeyCode::Escape)
    }     else if code == 14 {
        Some(KeyCode::Backspace)
    }     else if code == 111 {
        Some(KeyCode::Delete)
    }     else if code == 110 {
        Some(KeyCode::Insert)
    }     else if code == 102 {
        Some(KeyCode::Home)
    }     else if code == 107 {
        Some(KeyCode::End)
    }     else if code == 104 {
        Some(KeyCode::PageUp)
    }     else if code == 109 {
        Some(KeyCode::PageDown)
    }     else if code == 58 {
        Some(KeyCode::CapsLock)
    }     else if code == 103 {
        Some(KeyCode::ArrowUp)
    }     else if code == 108 {
        Some(KeyCode::ArrowDown)
    }     else if code == 105 {
        Some(KeyCode::ArrowLeft)
    }     else if code == 106 {
        Some(KeyCode::ArrowRight)
    }     else if code == 12 {
        Some(KeyCode::Minus)
    }     else if code == 13 {
        Some(KeyCode::Equal)
    }     else if code == 26 {
        Some(KeyCode::LeftBracket)
    }     else if code == 27 {
        Some(KeyCode::RightBracket)
    }     else if code == 43 {
        Some(KeyCode::Backslash)
    }     else if code == 39 {
        Some(KeyCode::Semicolon)
    }     else if code == 40 {
        Some(KeyCode::Quote)
    }     else if code == 41 {
        Some(KeyCode::Backquote)
    }     else if code == 51 {
        Some(KeyCode::Comma)
    }     else if code == 52 {
        Some(KeyCode::Period)
    }     else if code == 53 {
        Some(KeyCode::Slash)
    } else {
        None
    }
}

impl KeyCode {
    /// Every bindable key, in declaration order.
    pub fn all() -> (keys: Vec<KeyCode>)
        ensures
            keys@ == spec_all_keys(),
            keys@.len() == KEY_COUNT,
    {
        vec![
            KeyCode::A,
            KeyCode::B,
            KeyCode::C,
            KeyCode::D,
            KeyCode::E,
            KeyCode::F,
            KeyCode::G,
            KeyCode::H,
            KeyCode::I,
            KeyCode::J,
            KeyCode::K,
            KeyCode::L,
            KeyCode::M,
            KeyCode::N,
            KeyCode::O,
            KeyCode::P,
            KeyCode::Q,
            KeyCode::R,
            KeyCode::S,
            KeyCode::T,
            KeyCode::U,
            KeyCode::V,
            KeyCode::W,
            KeyCode::X,
            KeyCode::Y,
            KeyCode::Z,
            KeyCode::Digit0,
            KeyCode::Digit1,
            KeyCode::Digit2,
            KeyCode::Digit3,
            KeyCode::Digit4,
            KeyCode::Digit5,
            KeyCode::Digit6,
            KeyCode::Digit7,
            KeyCode::Digit8,
            KeyCode::Digit9,
            KeyCode::F1,
            KeyCode::F2,
            KeyCode::F3,
            KeyCode::F4,
            KeyCode::F5,
            KeyCode::F6,
            KeyCode::F7,
            KeyCode::F8,
            KeyCode::F9,
            KeyCode::F10,
            KeyCode::F11,
            KeyCode::F12,
            KeyCode::Space,
            KeyCode::Enter,
            KeyCode::Tab,
            KeyCode::Escape,
            KeyCode::Backspace,
            KeyCode::Delete,
            KeyCode::Insert,
            KeyCode::Home,
            KeyCode::End,
            KeyCode::PageUp,
            KeyCode::PageDown,
            KeyCode::CapsLock,
            KeyCode::ArrowUp,
            KeyCode::ArrowDown,
            KeyCode::ArrowLeft,
            KeyCode::ArrowRight,
            KeyCode::Minus,
            KeyCode::Equal,
            KeyCode::LeftBracket,
            KeyCode::RightBracket,
            KeyCode::Backslash,
            KeyCode::Semicolon,
            KeyCode::Quote,
            KeyCode::Backquote,
            KeyCode::Comma,
            KeyCode::Period,
            KeyCode::Slash
        ]
    }
}

/// The input-event code one schema key means.
pub fn evdev_code(key: KeyCode) -> (code: u16)
    ensures
        code == spec_evdev_code(key),
{
    match key {
        KeyCode::A => 30,
        KeyCode::B => 48,
        KeyCode::C => 46,
        KeyCode::D => 32,
        KeyCode::E => 18,
        KeyCode::F => 33,
        KeyCode::G => 34,
        KeyCode::H => 35,
        KeyCode::I => 23,
        KeyCode::J => 36,
        KeyCode::K => 37,
        KeyCode::L => 38,
        KeyCode::M => 50,
        KeyCode::N => 49,
        KeyCode::O => 24,
        KeyCode::P => 25,
        KeyCode::Q => 16,
        KeyCode::R => 19,
        KeyCode::S => 31,
        KeyCode::T => 20,
        KeyCode::U => 22,
        KeyCode::V => 47,
        KeyCode::W => 17,
        KeyCode::X => 45,
        KeyCode::Y => 21,
        KeyCode::Z => 44,
        KeyCode::Digit0 => 11,
        KeyCode::Digit1 => 2,
        KeyCode::Digit2 => 3,
        KeyCode::Digit3 => 4,
        KeyCode::Digit4 => 5,
        KeyCode::Digit5 => 6,
        KeyCode::Digit6 => 7,
        KeyCode::Digit7 => 8,
        KeyCode::Digit8 => 9,
        KeyCode::Digit9 => 10,
        KeyCode::F1 => 59,
        KeyCode::F2 => 60,
        KeyCode::F3 => 61,
        KeyCode::F4 => 62,
        KeyCode::F5 => 63,
        KeyCode::F6 => 64,
        KeyCode::F7 => 65,
        KeyCode::F8 => 66,
        KeyCode::F9 => 67,
        KeyCode::F10 => 68,
        KeyCode::F11 => 87,
        KeyCode::F12 => 88,
        KeyCode::Space => 57,
        KeyCode::Enter => 28,
        KeyCode::Tab => 15,
        KeyCode::Escape => 1,
        KeyCode::Backspace => 14,
        KeyCode::Delete => 111,
        KeyCode::Insert => 110,
        KeyCode::Home => 102,
        KeyCode::End => 107,
        KeyCode::PageUp => 104,
        KeyCode::PageDown => 109,
        KeyCode::CapsLock => 58,
        KeyCode::ArrowUp => 103,
        KeyCode::ArrowDown => 108,
        KeyCode::ArrowLeft => 105,
        KeyCode::ArrowRight => 106,
        KeyCode::Minus => 12,
        KeyCode::Equal => 13,
        KeyCode::LeftBracket => 26,
        KeyCode::RightBracket => 27,
        KeyCode::Backslash => 43,
        KeyCode::Semicolon => 39,
        KeyCode::Quote => 40,
        KeyCode::Backquote => 41,
        KeyCode::Comma => 51,
        KeyCode::Period => 52,
        KeyCode::Slash => 53,
    }
}

/// Each key's code leads back to the key, so no two keys share a code.
pub proof fn lemma_key_for_code_inverts(key: KeyCode)
    ensures
        spec_key_for_code(spec_evdev_code(key)) == Some(key),
{
}

/// Every member of the list is bindable and the list holds each key once.
pub proof fn lemma_all_keys_complete(key: KeyCode)
    ensures
        spec_all_keys().contains(key),
{
    let all = spec_all_keys();
    match key {
        KeyCode::A => { assert(all[0] == key); },
        KeyCode::B => { assert(all[1] == key); },
        KeyCode::C => { assert(all[2] == key); },
        KeyCode::D => { assert(all[3] == key); },
        KeyCode::E => { assert(all[4] == key); },
        KeyCode::F => { assert(all[5] == key); },
        KeyCode::G => { assert(all[6] == key); },
        KeyCode::H => { assert(all[7] == key); },
        KeyCode::I => { assert(all[8] == key); },
        KeyCode::J => { assert(all[9] == key); },
        KeyCode::K => { assert(all[10] == key); },
        KeyCode::L => { assert(all[11] == key); },
        KeyCode::M => { assert(all[12] == key); },
        KeyCode::N => { assert(all[13] == key); },
        KeyCode::O => { assert(all[14] == key); },
        KeyCode::P => { assert(all[15] == key); },
        KeyCode::Q => { assert(all[16] == key); },
        KeyCode::R => { assert(all[17] == key); },
        KeyCode::S => { assert(all[18] == key); },
        KeyCode::T => { assert(all[19] == key); },
        KeyCode::U => { assert(all[20] == key); },
        KeyCode::V => { assert(all[21] == key); },
        KeyCode::W => { assert(all[22] == key); },
        KeyCode::X => { assert(all[23] == key); },
        KeyCode::Y => { assert(all[24] == key); },
        KeyCode::Z => { assert(all[25] == key); },
        KeyCode::Digit0 => { assert(all[26] == key); },
        KeyCode::Digit1 => { assert(all[27] == key); },
        KeyCode::Digit2 => { assert(all[28] == key); },
        KeyCode::Digit3 => { assert(all[29] == key); },
        KeyCode::Digit4 => { assert(all[30] == key); },
        KeyCode::Digit5 => { assert(all[31] == key); },
        KeyCode::Digit6 => { assert(all[32] == key); },
        KeyCode::Digit7 => { assert(all[33] == key); },
        KeyCode::Digit8 => { assert(all[34] == key); },
        KeyCode::Digit9 => { assert(all[35] == key); },
        KeyCode::F1 => { assert(all[36] == key); },
        KeyCode::F2 => { assert(all[37] == key); },
        KeyCode::F3 => { assert(all[38] == key); },
        KeyCode::F4 => { assert(all[39] == key); },
        KeyCode::F5 => { assert(all[40] == key); },
        KeyCode::F6 => { assert(all[41] == key); },
        KeyCode::F7 => { assert(all[42] == key); },
        KeyCode::F8 => { assert(all[43] == key); },
        KeyCode::F9 => { assert(all[44] == key); },
        KeyCode::F10 => { assert(all[45] == key); },
        KeyCode::F11 => { assert(all[46] == key); },
        KeyCode::F12 => { assert(all[47] == key); },
        KeyCode::Space => { assert(all[48] == key); },
        KeyCode::Enter => { assert(all[49] == key); },
        KeyCode::Tab => { assert(all[50] == key); },
        KeyCode::Escape => { assert(all[51] == key); },
        KeyCode::Backspace => { assert(all[52] == key); },
        KeyCode::Delete => { assert(all[53] == key); },
        KeyCode::Insert => { assert(all[54] == key); },
        KeyCode::Home => { assert(all[55] == key); },
        KeyCode::End => { assert(all[56] == key); },
        KeyCode::PageUp => { assert(all[57] == key); },
        KeyCode::PageDown => { assert(all[58] == key); },
        KeyCode::CapsLock => { assert(all[59] == key); },
        KeyCode::ArrowUp => { assert(all[60] == key); },
        KeyCode::ArrowDown => { assert(all[61] == key); },
        KeyCode::ArrowLeft => { assert(all[62] == key); },
        KeyCode::ArrowRight => { assert(all[63] == key); },
        KeyCode::Minus => { assert(all[64] == key); },
        KeyCode::Equal => { assert(all[65] == key); },
        KeyCode::LeftBracket => { assert(all[66] == key); },
        KeyCode::RightBracket => { assert(all[67] == key); },
        KeyCode::Backslash => { assert(all[68] == key); },
        KeyCode::Semicolon => { assert(all[69] == key); },
        KeyCode::Quote => { assert(all[70] == key); },
        KeyCode::Backquote => { assert(all[71] == key); },
        KeyCode::Comma => { assert(all[72] == key); },
        KeyCode::Period => { assert(all[73] == key); },
        KeyCode::Slash => { assert(all[74] == key); },
    }
}

} // verus!
