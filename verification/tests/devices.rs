use crowndictator::audio::{choose_input, keep_sample, InputChoice, InputError, MAX_SAMPLES};
use crowndictator::inject::{after_attempt, arguments, first_tool, program, Next, Tool};

fn names(list: &[Option<&str>]) -> Vec<Option<String>> {
    list.iter().map(|n| n.map(|s| s.to_string())).collect()
}

#[test]
fn the_named_microphone_is_used_when_connected() {
    let n = names(&[Some("Built-in"), None, Some("USB Mic"), Some("USB Mic")]);
    assert_eq!(choose_input(Some("USB Mic"), &n, true), Ok(InputChoice::Listed(2)));
    assert_eq!(choose_input(Some("USB Mic"), &n, false), Ok(InputChoice::Listed(2)));
}

#[test]
fn an_unplugged_microphone_falls_back_to_the_default() {
    let n = names(&[Some("Built-in")]);
    assert_eq!(choose_input(Some("Headset"), &n, true), Ok(InputChoice::Default));
    assert_eq!(choose_input(Some("Headset"), &n, false), Err(InputError::NotConnected));
}

#[test]
fn no_name_means_the_default() {
    let n = names(&[Some("Built-in")]);
    assert_eq!(choose_input(None, &n, true), Ok(InputChoice::Default));
    assert_eq!(choose_input(None, &n, false), Err(InputError::NoDefault));
}

#[test]
fn a_recording_stops_growing_at_its_cap() {
    assert_eq!(MAX_SAMPLES, 48_000 * 300);
    let mut buf: Vec<u8> = vec![0; MAX_SAMPLES - 1];
    keep_sample(&mut buf, 1);
    assert_eq!(buf.len(), MAX_SAMPLES);
    assert_eq!(buf[MAX_SAMPLES - 1], 1);
    keep_sample(&mut buf, 2);
    assert_eq!(buf.len(), MAX_SAMPLES);
}

#[test]
fn delivery_falls_back_from_typing_to_the_clipboard() {
    assert_eq!(first_tool(), Tool::Wtype);
    assert_eq!(after_attempt(Tool::Wtype, true), Next::Done);
    assert_eq!(after_attempt(Tool::Wtype, false), Next::Try(Tool::Ydotool));
    assert_eq!(after_attempt(Tool::Ydotool, true), Next::Done);
    assert_eq!(after_attempt(Tool::Ydotool, false), Next::Try(Tool::WlCopy));
    assert_eq!(after_attempt(Tool::WlCopy, true), Next::NotifyCopied);
    assert_eq!(after_attempt(Tool::WlCopy, false), Next::GiveUp);
}

#[test]
fn each_tool_reads_the_text_from_stdin() {
    assert_eq!(program(Tool::Wtype), "wtype");
    assert_eq!(arguments(Tool::Wtype), vec!["-"]);
    assert_eq!(program(Tool::Ydotool), "ydotool");
    assert_eq!(arguments(Tool::Ydotool), vec!["type", "--file", "-"]);
    assert_eq!(program(Tool::WlCopy), "wl-copy");
    assert!(arguments(Tool::WlCopy).is_empty());
}
