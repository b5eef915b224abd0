use crowndictator::keys::Keybind;
use crowndictator::settings::{load, watch, FileRead, Input, SECTION};

#[test]
fn a_missing_file_is_the_defaults_written_out() {
    let l = load(FileRead::Missing);
    assert!(l.write_defaults);
    assert_eq!(l.input, Input::default());
    assert_eq!(SECTION, "input");
}

#[test]
fn a_broken_file_is_the_defaults_and_stays_as_it_is() {
    let l = load(FileRead::Unparseable);
    assert!(!l.write_defaults);
    assert_eq!(l.input, Input::default());
}

#[test]
fn a_parsed_file_is_used_as_it_is() {
    let mine = Input { dictation_enabled: false, dictation_microphone: Some("USB Mic".into()), ..Input::default() };
    let l = load(FileRead::Parsed(mine.clone()));
    assert!(!l.write_defaults);
    assert_eq!(l.input, mine);
}

#[test]
fn a_change_is_delivered_once() {
    let mut s = watch();
    let off = Input { dictation_enabled: false, ..Input::default() };
    assert_eq!(s.on_change(7, FileRead::Parsed(off.clone())), Some(off.clone()));
    // The same contents heard again (a duplicate inotify event).
    assert_eq!(s.on_change(7, FileRead::Parsed(off.clone())), None);
    // New contents are news.
    let unbound = Input { dictation_hotkey: Keybind::unbound(), ..Input::default() };
    assert_eq!(s.on_change(8, FileRead::Parsed(unbound.clone())), Some(unbound));
    // And going back to the earlier contents is news again.
    assert_eq!(s.on_change(7, FileRead::Parsed(off.clone())), Some(off));
}

#[test]
fn a_broken_edit_is_dropped_and_the_fix_is_delivered() {
    let mut s = watch();
    assert_eq!(s.on_change(1, FileRead::Unparseable), None);
    assert_eq!(s.on_change(1, FileRead::Parsed(Input::default())), Some(Input::default()));
    assert_eq!(s.on_change(2, FileRead::Missing), None);
}

#[test]
fn what_the_process_wrote_is_not_heard_back() {
    let mut s = watch();
    s.wrote(42);
    assert_eq!(s.on_change(42, FileRead::Parsed(Input::default())), None);
    assert_eq!(s.on_change(43, FileRead::Parsed(Input::default())), Some(Input::default()));
}
