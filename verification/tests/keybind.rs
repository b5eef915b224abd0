use crowndictator::binding_text::KeybindError;
use crowndictator::keys::{KeyCode, Keybind, Mods};

fn kb(meta: bool, ctrl: bool, alt: bool, shift: bool, key: Option<KeyCode>) -> Keybind {
    Keybind { mods: Mods { meta, ctrl, alt, shift }, key }
}

#[test]
fn chords_parse_case_and_order_insensitively() {
    let want = kb(false, true, true, false, Some(KeyCode::D));
    assert_eq!(Keybind::parse("ctrl + alt + d"), Ok(want));
    assert_eq!(Keybind::parse("Alt+Ctrl+D"), Ok(want));
    assert_eq!(Keybind::parse("CONTROL+option+d"), Ok(want));
}

#[test]
fn modifier_spellings_are_accepted() {
    for s in ["Super", "Meta", "Cmd", "Win"] {
        assert_eq!(Keybind::parse(s), Ok(kb(true, false, false, false, None)), "{s}");
    }
    assert_eq!(Keybind::parse("Shift"), Ok(kb(false, false, false, true, None)));
    assert_eq!(Keybind::parse("Super+Ctrl"), Ok(Keybind::super_ctrl()));
    assert_eq!(Keybind::parse("Super+Space"), Ok(Keybind::super_space()));
}

#[test]
fn unbound_is_a_value() {
    for s in ["", "  ", "None", "none"] {
        assert_eq!(Keybind::parse(s), Ok(Keybind::unbound()), "{s:?}");
    }
    assert!(Keybind::unbound().is_empty());
}

#[test]
fn malformed_chords_are_errors() {
    assert_eq!(Keybind::parse("Super+"), Err(KeybindError::EmptyPart));
    assert_eq!(Keybind::parse("Super+Space+Enter"), Err(KeybindError::TwoKeys));
    assert_eq!(Keybind::parse("Supper+Space"), Err(KeybindError::UnknownName));
    assert_eq!(Keybind::parse("Super+Return"), Err(KeybindError::UnknownName));
    assert_eq!(Keybind::parse("KeyA"), Err(KeybindError::UnknownName));
    assert_eq!(Keybind::parse("Super+-"), Err(KeybindError::UnknownName));
}

#[test]
fn key_labels_are_labels() {
    assert_eq!(Keybind::parse("Left"), Ok(kb(false, false, false, false, Some(KeyCode::ArrowLeft))));
    assert_eq!(Keybind::parse("1"), Ok(kb(false, false, false, false, Some(KeyCode::Digit1))));
    assert_eq!(Keybind::parse("f12"), Ok(kb(false, false, false, false, Some(KeyCode::F12))));
    assert_eq!(Keybind::parse("Super+PageUp"), Ok(kb(true, false, false, false, Some(KeyCode::PageUp))));
    assert_eq!("capslock".parse::<Keybind>(), Ok(kb(false, false, false, false, Some(KeyCode::CapsLock))));
}

#[test]
fn printing_is_canonical() {
    assert_eq!(Keybind::parse("alt+ctrl+d").unwrap().to_text(), "Ctrl+Alt+D");
    assert_eq!(Keybind::super_space().to_text(), "Super+Space");
    assert_eq!(Keybind::unbound().to_text(), "None");
    assert_eq!(kb(true, true, true, true, Some(KeyCode::Slash)).to_text(), "Super+Ctrl+Alt+Shift+Slash");
    assert_eq!(kb(false, false, false, false, Some(KeyCode::ArrowUp)).to_text(), "Up");
}

#[test]
fn every_printed_chord_parses_back() {
    for key in KeyCode::all() {
        for bits in 0..16u8 {
            let k = kb(bits & 1 != 0, bits & 2 != 0, bits & 4 != 0, bits & 8 != 0, Some(key));
            assert_eq!(Keybind::parse(&k.to_text()), Ok(k));
        }
    }
    for bits in 0..16u8 {
        let k = kb(bits & 1 != 0, bits & 2 != 0, bits & 4 != 0, bits & 8 != 0, None);
        assert_eq!(Keybind::parse(&k.to_text()), Ok(k));
    }
}
