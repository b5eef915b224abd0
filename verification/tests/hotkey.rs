use std::collections::HashSet;

use crowndictator::hotkey::{modifier_of, Chord, HotkeyEvent};
use crowndictator::keys::{evdev_code, KeyCode, Keybind};
use evdev::KeyCode as EvKey;

/// One keyboard, as far as the chord is concerned.
const KBD: usize = 1;

/// A chord, enabled, and the edges it has reported and nobody has read yet.
struct Harness {
    chord: Chord,
    pending: Vec<HotkeyEvent>,
}

fn chord(binding: &str) -> Harness {
    let binding: Keybind = binding.parse().expect("test binding");
    Harness { chord: Chord::new(binding, true), pending: Vec::new() }
}

impl Harness {
    fn note(&mut self, edge: Option<HotkeyEvent>) {
        if let Some(e) = edge {
            self.pending.push(e);
        }
    }

    fn update(&mut self, code: u16, value: i32) {
        let e = self.chord.update(KBD, code, value);
        self.note(e);
    }

    fn settle(&mut self) {
        let e = self.chord.settle();
        self.note(e);
    }

    fn drop_device(&mut self, dev: usize) {
        let e = self.chord.drop_device(dev);
        self.note(e);
    }

    fn edges(&mut self) -> Vec<HotkeyEvent> {
        std::mem::take(&mut self.pending)
    }
}

fn hold(h: &mut Harness, key: EvKey) {
    h.update(key.code(), 1);
}

fn release(h: &mut Harness, key: EvKey) {
    h.update(key.code(), 0);
}

#[test]
fn a_chord_reports_one_edge_each_way() {
    let mut h = chord("Super+Space");

    hold(&mut h, EvKey::KEY_LEFTMETA);
    assert!(h.edges().is_empty(), "a modifier alone is not the chord");

    hold(&mut h, EvKey::KEY_SPACE);
    assert_eq!(h.edges(), [HotkeyEvent::Pressed]);

    // Auto-repeat while held says nothing new.
    h.update(EvKey::KEY_SPACE.code(), 2);
    assert!(h.edges().is_empty());

    release(&mut h, EvKey::KEY_SPACE);
    assert_eq!(h.edges(), [HotkeyEvent::Released]);
}

/// Either side of the keyboard, and both at once.
#[test]
fn a_modifier_is_whichever_key_sets_it() {
    let mut h = chord("Super+Space");

    hold(&mut h, EvKey::KEY_RIGHTMETA);
    hold(&mut h, EvKey::KEY_SPACE);
    assert_eq!(h.edges(), [HotkeyEvent::Pressed]);

    // Adding the other Super changes nothing: it is the same modifier.
    hold(&mut h, EvKey::KEY_LEFTMETA);
    assert!(h.edges().is_empty());
    release(&mut h, EvKey::KEY_LEFTMETA);
    assert!(h.edges().is_empty(), "the right one is still down");

    release(&mut h, EvKey::KEY_RIGHTMETA);
    assert_eq!(h.edges(), [HotkeyEvent::Released]);
}

/// Modifiers are matched exactly, so a chord with an extra one on it is
/// somebody reaching for something else.
#[test]
fn an_extra_modifier_is_a_different_shortcut() {
    let mut h = chord("Super+Space");

    hold(&mut h, EvKey::KEY_LEFTCTRL);
    hold(&mut h, EvKey::KEY_LEFTMETA);
    hold(&mut h, EvKey::KEY_SPACE);
    assert!(h.edges().is_empty());

    // Letting go of the stray one leaves exactly the chord.
    release(&mut h, EvKey::KEY_LEFTCTRL);
    assert_eq!(h.edges(), [HotkeyEvent::Pressed]);
}

/// An ordinary key struck mid-utterance is not a reason to stop recording.
#[test]
fn an_unrelated_key_does_not_break_the_chord() {
    let mut h = chord("Super+Space");

    hold(&mut h, EvKey::KEY_LEFTMETA);
    hold(&mut h, EvKey::KEY_SPACE);
    assert_eq!(h.edges(), [HotkeyEvent::Pressed]);

    hold(&mut h, EvKey::KEY_K);
    release(&mut h, EvKey::KEY_K);
    assert!(h.edges().is_empty());
}

/// The push-to-talk shape: no ordinary key at all.
#[test]
fn a_modifier_only_chord_is_held_by_its_modifiers() {
    let mut h = chord("Super+Ctrl");

    hold(&mut h, EvKey::KEY_LEFTMETA);
    assert!(h.edges().is_empty(), "half the chord is not the chord");

    hold(&mut h, EvKey::KEY_LEFTCTRL);
    assert_eq!(h.edges(), [HotkeyEvent::Pressed]);

    release(&mut h, EvKey::KEY_LEFTMETA);
    assert_eq!(h.edges(), [HotkeyEvent::Released]);
}

/// Switched off, nothing is ever held, and switching off while the chord
/// is held reports the release, so nothing is left recording.
#[test]
fn a_disabled_chord_is_never_held() {
    let mut h = chord("Super+Space");
    h.chord.enabled = false;

    hold(&mut h, EvKey::KEY_LEFTMETA);
    hold(&mut h, EvKey::KEY_SPACE);
    assert!(h.edges().is_empty());

    h.chord.enabled = true;
    h.settle();
    assert_eq!(h.edges(), [HotkeyEvent::Pressed], "still physically held");

    h.chord.enabled = false;
    h.settle();
    assert_eq!(h.edges(), [HotkeyEvent::Released]);
}

/// A shortcut cleared to nothing binds nothing, rather than binding
/// "no keys at all", which is a condition that is always true.
#[test]
fn an_empty_binding_is_never_held() {
    let mut h = chord("None");

    hold(&mut h, EvKey::KEY_LEFTMETA);
    hold(&mut h, EvKey::KEY_SPACE);
    assert!(h.edges().is_empty());
}

/// Rebinding is answered against the keys that are down at the time.
#[test]
fn rebinding_takes_effect_against_what_is_already_held() {
    let mut h = chord("Super+Space");

    hold(&mut h, EvKey::KEY_LEFTCTRL);
    hold(&mut h, EvKey::KEY_D);
    assert!(h.edges().is_empty());

    h.chord.binding = "Ctrl+D".parse().unwrap();
    h.settle();
    assert_eq!(h.edges(), [HotkeyEvent::Pressed]);
}

/// A keyboard unplugged mid-chord takes its keys with it.
#[test]
fn a_vanished_device_releases_what_it_was_holding() {
    let mut h = chord("Super+Space");

    hold(&mut h, EvKey::KEY_LEFTMETA);
    hold(&mut h, EvKey::KEY_SPACE);
    assert_eq!(h.edges(), [HotkeyEvent::Pressed]);

    h.drop_device(KBD);
    assert_eq!(h.edges(), [HotkeyEvent::Released]);
    assert!(h.chord.down.is_empty());
}

/// Every key the schema can hold has an evdev code, and no two share one.
#[test]
fn every_bindable_key_maps_to_a_distinct_evdev_code() {
    let mut seen: HashSet<u16> = HashSet::new();
    for key in KeyCode::all() {
        let code = evdev_code(key);
        assert!(seen.insert(code), "{key:?} shares an evdev code");
        assert!(modifier_of(code).is_none(), "{key:?} maps onto a modifier key");
    }
}
