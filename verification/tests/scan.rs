use crowndictator::controller::{demo_next, demo_start, DemoStage};
use crowndictator::hotkey::{is_event_node, is_keyboard, KEY_A, KEY_SPACE, KEY_Z};
use crowndictator::state::Phase;

#[test]
fn a_keyboard_has_letters_and_a_space_bar() {
    assert!(is_keyboard(&[KEY_SPACE, 1, KEY_Z, KEY_A]));
    assert!(!is_keyboard(&[KEY_A, KEY_Z]));
    assert!(!is_keyboard(&[]));
    // A mouse's buttons.
    assert!(!is_keyboard(&[0x110, 0x111, 0x112]));
}

#[test]
fn only_event_nodes_are_opened() {
    assert!(is_event_node("event0"));
    assert!(is_event_node("event12"));
    assert!(!is_event_node("mouse0"));
    assert!(!is_event_node("even"));
    assert!(!is_event_node("by-id"));
}

#[test]
fn the_demo_cycles_listening_thinking_success() {
    let s = demo_start();
    assert_eq!(s, DemoStage { phase: Phase::Listening, secs: 5 });
    let s = demo_next(s.phase);
    assert_eq!(s, DemoStage { phase: Phase::Thinking, secs: 2 });
    let s = demo_next(s.phase);
    assert_eq!(s, DemoStage { phase: Phase::Success, secs: 3 });
    assert_eq!(demo_next(s.phase), demo_start());
}
