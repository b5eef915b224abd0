use crowndictator::hotkey::{
    KEY_LEFTALT, KEY_LEFTCTRL, KEY_LEFTMETA, KEY_LEFTSHIFT, KEY_RIGHTALT, KEY_RIGHTCTRL, KEY_RIGHTMETA,
    KEY_RIGHTSHIFT,
};
use crowndictator::keys::{evdev_code, KeyCode};
use evdev::KeyCode as EvKey;

/// The table of codes agrees with the evdev crate's names for them.
#[test]
fn key_codes_agree_with_evdev() {
    let table: [(KeyCode, EvKey); 75] = [
        (KeyCode::A, EvKey::KEY_A),
        (KeyCode::B, EvKey::KEY_B),
        (KeyCode::C, EvKey::KEY_C),
        (KeyCode::D, EvKey::KEY_D),
        (KeyCode::E, EvKey::KEY_E),
        (KeyCode::F, EvKey::KEY_F),
        (KeyCode::G, EvKey::KEY_G),
        (KeyCode::H, EvKey::KEY_H),
        (KeyCode::I, EvKey::KEY_I),
        (KeyCode::J, EvKey::KEY_J),
        (KeyCode::K, EvKey::KEY_K),
        (KeyCode::L, EvKey::KEY_L),
        (KeyCode::M, EvKey::KEY_M),
        (KeyCode::N, EvKey::KEY_N),
        (KeyCode::O, EvKey::KEY_O),
        (KeyCode::P, EvKey::KEY_P),
        (KeyCode::Q, EvKey::KEY_Q),
        (KeyCode::R, EvKey::KEY_R),
        (KeyCode::S, EvKey::KEY_S),
        (KeyCode::T, EvKey::KEY_T),
        (KeyCode::U, EvKey::KEY_U),
        (KeyCode::V, EvKey::KEY_V),
        (KeyCode::W, EvKey::KEY_W),
        (KeyCode::X, EvKey::KEY_X),
        (KeyCode::Y, EvKey::KEY_Y),
        (KeyCode::Z, EvKey::KEY_Z),
        (KeyCode::Digit0, EvKey::KEY_0),
        (KeyCode::Digit1, EvKey::KEY_1),
        (KeyCode::Digit2, EvKey::KEY_2),
        (KeyCode::Digit3, EvKey::KEY_3),
        (KeyCode::Digit4, EvKey::KEY_4),
        (KeyCode::Digit5, EvKey::KEY_5),
        (KeyCode::Digit6, EvKey::KEY_6),
        (KeyCode::Digit7, EvKey::KEY_7),
        (KeyCode::Digit8, EvKey::KEY_8),
        (KeyCode::Digit9, EvKey::KEY_9),
        (KeyCode::F1, EvKey::KEY_F1),
        (KeyCode::F2, EvKey::KEY_F2),
        (KeyCode::F3, EvKey::KEY_F3),
        (KeyCode::F4, EvKey::KEY_F4),
        (KeyCode::F5, EvKey::KEY_F5),
        (KeyCode::F6, EvKey::KEY_F6),
        (KeyCode::F7, EvKey::KEY_F7),
        (KeyCode::F8, EvKey::KEY_F8),
        (KeyCode::F9, EvKey::KEY_F9),
        (KeyCode::F10, EvKey::KEY_F10),
        (KeyCode::F11, EvKey::KEY_F11),
        (KeyCode::F12, EvKey::KEY_F12),
        (KeyCode::Space, EvKey::KEY_SPACE),
        (KeyCode::Enter, EvKey::KEY_ENTER),
        (KeyCode::Tab, EvKey::KEY_TAB),
        (KeyCode::Escape, EvKey::KEY_ESC),
        (KeyCode::Backspace, EvKey::KEY_BACKSPACE),
        (KeyCode::Delete, EvKey::KEY_DELETE),
        (KeyCode::Insert, EvKey::KEY_INSERT),
        (KeyCode::Home, EvKey::KEY_HOME),
        (KeyCode::End, EvKey::KEY_END),
        (KeyCode::PageUp, EvKey::KEY_PAGEUP),
        (KeyCode::PageDown, EvKey::KEY_PAGEDOWN),
        (KeyCode::CapsLock, EvKey::KEY_CAPSLOCK),
        (KeyCode::ArrowUp, EvKey::KEY_UP),
        (KeyCode::ArrowDown, EvKey::KEY_DOWN),
        (KeyCode::ArrowLeft, EvKey::KEY_LEFT),
        (KeyCode::ArrowRight, EvKey::KEY_RIGHT),
        (KeyCode::Minus, EvKey::KEY_MINUS),
        (KeyCode::Equal, EvKey::KEY_EQUAL),
        (KeyCode::LeftBracket, EvKey::KEY_LEFTBRACE),
        (KeyCode::RightBracket, EvKey::KEY_RIGHTBRACE),
        (KeyCode::Backslash, EvKey::KEY_BACKSLASH),
        (KeyCode::Semicolon, EvKey::KEY_SEMICOLON),
        (KeyCode::Quote, EvKey::KEY_APOSTROPHE),
        (KeyCode::Backquote, EvKey::KEY_GRAVE),
        (KeyCode::Comma, EvKey::KEY_COMMA),
        (KeyCode::Period, EvKey::KEY_DOT),
        (KeyCode::Slash, EvKey::KEY_SLASH),
    ];
    for (key, ev) in table {
        assert_eq!(evdev_code(key), ev.code(), "{key:?}");
    }
    assert_eq!(KeyCode::all().len(), table.len());
}

/// The modifier codes agree with the evdev crate's names for them.
#[test]
fn modifier_codes_agree_with_evdev() {
    assert_eq!(KEY_LEFTMETA, EvKey::KEY_LEFTMETA.code());
    assert_eq!(KEY_RIGHTMETA, EvKey::KEY_RIGHTMETA.code());
    assert_eq!(KEY_LEFTCTRL, EvKey::KEY_LEFTCTRL.code());
    assert_eq!(KEY_RIGHTCTRL, EvKey::KEY_RIGHTCTRL.code());
    assert_eq!(KEY_LEFTALT, EvKey::KEY_LEFTALT.code());
    assert_eq!(KEY_RIGHTALT, EvKey::KEY_RIGHTALT.code());
    assert_eq!(KEY_LEFTSHIFT, EvKey::KEY_LEFTSHIFT.code());
    assert_eq!(KEY_RIGHTSHIFT, EvKey::KEY_RIGHTSHIFT.code());
}
