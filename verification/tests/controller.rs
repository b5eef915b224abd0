use crowndictator::controller::{
    after_recording, after_typing, announce, gpu_wanted, transcript_of, trim_text, Announcement, Controller,
    Options, PressAction, Rebind, Transcript,
};
use crowndictator::keys::Keybind;
use crowndictator::settings::Input;
use crowndictator::state::Phase;

/// The flag is the stronger statement of the two.
#[test]
fn the_cpu_flag_overrides_the_preference() {
    let on = Input { dictation_gpu: true, ..Input::default() };
    let off = Input { dictation_gpu: false, ..Input::default() };

    assert!(gpu_wanted(&on, false));
    assert!(!gpu_wanted(&off, false));
    assert!(!gpu_wanted(&on, true), "--cpu wins over the setting");
    assert!(!gpu_wanted(&off, true));
}

#[test]
fn the_default_section_listens_for_super_space_on_the_gpu() {
    let d = Input::default();
    assert!(d.dictation_enabled);
    assert_eq!(d.dictation_microphone, None);
    assert_eq!(d.dictation_hotkey, Keybind::super_space());
    assert!(d.dictation_gpu);
    assert_eq!(d.keyboard_repeat_rate, 200);
}

#[test]
fn the_announcement_says_what_the_daemon_does() {
    let off = Input { dictation_enabled: false, ..Input::default() };
    assert_eq!(announce(&off), Announcement::SwitchedOff);
    let unbound = Input { dictation_hotkey: Keybind::unbound(), ..Input::default() };
    assert_eq!(announce(&unbound), Announcement::NoShortcut);
    assert_eq!(announce(&Input::default()), Announcement::Hold(Keybind::super_space()));
}

#[test]
fn an_unchanged_file_asks_for_nothing() {
    let mut c = Controller::new(Input::default(), Options { force_cpu: false });
    let a = c.on_settings(Input::default());
    assert_eq!(a.rebind, None);
    assert!(!a.unload_model);
    assert_eq!(a.announce, None);
}

#[test]
fn switching_the_backend_unloads_the_model() {
    let mut c = Controller::new(Input::default(), Options { force_cpu: false });
    assert!(c.prefer_gpu());
    let cpu = Input { dictation_gpu: false, ..Input::default() };
    let a = c.on_settings(cpu);
    assert!(a.unload_model);
    assert!(!c.prefer_gpu());
    assert_eq!(a.rebind, Some(Rebind { binding: Keybind::super_space(), enabled: true }));
    assert_eq!(a.announce, Some(Announcement::Hold(Keybind::super_space())));

    // Under --cpu the preference never reaches the loader.
    let mut forced = Controller::new(Input::default(), Options { force_cpu: true });
    assert!(!forced.prefer_gpu());
    let a = forced.on_settings(Input { dictation_gpu: false, ..Input::default() });
    assert!(!a.unload_model);
}

#[test]
fn switching_off_rebinds_the_watcher_to_nothing() {
    let mut c = Controller::new(Input::default(), Options { force_cpu: false });
    let a = c.on_settings(Input { dictation_enabled: false, ..Input::default() });
    assert_eq!(a.rebind, Some(Rebind { binding: Keybind::super_space(), enabled: false }));
    assert_eq!(a.announce, Some(Announcement::SwitchedOff));
    assert!(!a.unload_model);
}

#[test]
fn a_press_opens_the_configured_microphone_once() {
    let input = Input { dictation_microphone: Some("Blue Yeti Analog Stereo".to_string()), ..Input::default() };
    let mut c = Controller::new(input, Options { force_cpu: false });
    match c.on_pressed() {
        PressAction::StartRecording(Some(name)) => assert_eq!(name, "Blue Yeti Analog Stereo"),
        _ => panic!("expected to start recording from the named microphone"),
    }
    assert_eq!(c.recording_started(true), Phase::Listening);
    assert!(c.is_recording());
    assert!(matches!(c.on_pressed(), PressAction::Ignore));
    assert!(c.on_released());
    assert!(!c.is_recording());
    assert!(!c.on_released(), "a second release has nothing to stop");
}

#[test]
fn a_microphone_that_fails_to_open_shows_the_error() {
    let mut c = Controller::new(Input::default(), Options { force_cpu: false });
    assert!(matches!(c.on_pressed(), PressAction::StartRecording(None)));
    assert_eq!(c.recording_started(false), Phase::Error);
    assert!(!c.on_released());
}

#[test]
fn a_short_tap_is_not_an_utterance() {
    // 350 ms is the shortest utterance.
    assert_eq!(after_recording(16_799, 48_000), Phase::Hidden);
    assert_eq!(after_recording(16_800, 48_000), Phase::Thinking);
    assert_eq!(after_recording(0, 16_000), Phase::Hidden);
    assert_eq!(after_recording(5_600, 16_000), Phase::Thinking);
}

#[test]
fn what_the_model_says_decides_the_overlay() {
    match transcript_of(Some("  hello world \n")) {
        Transcript::Type(t) => assert_eq!(t, "hello world"),
        _ => panic!("expected text to type"),
    }
    assert!(matches!(transcript_of(Some(" \t\u{3000} ")), Transcript::Nothing));
    assert!(matches!(transcript_of(None), Transcript::Failed));
    assert_eq!(after_typing(true), Phase::Success);
    assert_eq!(after_typing(false), Phase::Error);
    assert_eq!(trim_text("\u{a0}x y\u{2003}"), "x y");
}
