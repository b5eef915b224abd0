//! The `input` section of the configuration: what the dictation daemon is
//! told to do, and staying in step with the file that holds it.
//!
//! Reading the file and parsing its text are the caller's: what this module
//! decides is what a read amounts to. A missing file is the defaults, which
//! are then written out; a file that does not parse is the defaults too, and
//! stays as it is on disk. While the daemon runs, a change of the file is
//! delivered only when its contents differ from what was last delivered and
//! from what the process last wrote itself, and only when they parse: a
//! broken edit leaves the daemon with what it had.

use vstd::prelude::*;

use crate::keys::Keybind;

verus! {

/// `input.ron`.
#[derive(Debug, Clone, PartialEq, Eq)]
pub struct Input {
    /// Off leaves the daemon resident but the shortcut inert and no
    /// microphone ever opened.
    pub dictation_enabled: bool,
    /// Device name from the audio host; `None` follows the system default.
    pub dictation_microphone: Option<String>,
    /// Push-to-talk: held to record, released to transcribe.
    pub dictation_hotkey: Keybind,
    /// Load the model on the GPU when one is usable.
    pub dictation_gpu: bool,
    pub keyboard_repeat_rate: u16,
}

/// An `Input` seen as plain values.
pub struct InputModel {
    pub dictation_enabled: bool,
    pub dictation_microphone: Option<Seq<char>>,
    pub dictation_hotkey: Keybind,
    pub dictation_gpu: bool,
    pub keyboard_repeat_rate: u16,
}

pub open spec fn microphone_view(m: Option<String>) -> Option<Seq<char>> {
    match m {
        Some(s) => Some(s@),
        None => None,
    }
}

impl View for Input {
    type V = InputModel;

    open spec fn view(&self) -> InputModel {
        InputModel {
            dictation_enabled: self.dictation_enabled,
            dictation_microphone: microphone_view(self.dictation_microphone),
            dictation_hotkey: self.dictation_hotkey,
            dictation_gpu: self.dictation_gpu,
            keyboard_repeat_rate: self.keyboard_repeat_rate,
        }
    }
}

/// Default repeat rate of the keyboard, in milliseconds.
pub const DEFAULT_REPEAT_RATE: u16 = 200;

impl Input {
    /// Whether two sections say the same thing.
    pub fn same_as(&self, other: &Input) -> (r: bool)
        ensures
            r == (self@ == other@),
    {
        let mic_same = match &self.dictation_microphone {
            Some(a) => match &other.dictation_microphone {
                Some(b) => {
                    let same = a.eq(b);
                    proof {
                        if same {
                            assert(microphone_view(self.dictation_microphone) == microphone_view(other.dictation_microphone));
                        }
                    }
                    same
                },
                None => false,
            },
            None => other.dictation_microphone.is_none(),
        };
        self.dictation_enabled == other.dictation_enabled && mic_same && self.dictation_hotkey
            == other.dictation_hotkey && self.dictation_gpu == other.dictation_gpu
            && self.keyboard_repeat_rate == other.keyboard_repeat_rate
    }
}

impl Default for Input {
    fn default() -> (d: Input)
        ensures
            d@ == (InputModel {
                dictation_enabled: true,
                dictation_microphone: None,
                dictation_hotkey: Keybind::spec_super_space(),
                dictation_gpu: true,
                keyboard_repeat_rate: DEFAULT_REPEAT_RATE,
            }),
    {
        Input {
            dictation_enabled: true,
            dictation_microphone: None,
            dictation_hotkey: Keybind::super_space(),
            dictation_gpu: true,
            keyboard_repeat_rate: DEFAULT_REPEAT_RATE,
        }
    }
}

/// The name of the section, and of its file (`input.ron`).
pub const SECTION: &'static str = "input";

/// What reading the section's file found.
pub enum FileRead {
    /// There is no file.
    Missing,
    /// The file is there and does not parse as the section.
    Unparseable,
    /// The file parsed.
    Parsed(Input),
}

/// What `load` settles on.
pub struct Loaded {
    /// The section as the daemon uses it.
    pub input: Input,
    /// Write the defaults out, so that the file exists from now on.
    pub write_defaults: bool,
}

/// Read the section as it stands, materialising the file with defaults if
/// nothing has written it yet.
pub fn load(read: FileRead) -> (l: Loaded)
    ensures
        match read {
            FileRead::Missing => l.input@ == default_input() && l.write_defaults,
            FileRead::Unparseable => l.input@ == default_input() && !l.write_defaults,
            FileRead::Parsed(i) => l.input == i && !l.write_defaults,
        },
{
    match read {
        FileRead::Missing => Loaded { input: Input::default(), write_defaults: true },
        FileRead::Unparseable => Loaded { input: Input::default(), write_defaults: false },
        FileRead::Parsed(i) => Loaded { input: i, write_defaults: false },
    }
}

/// The section's defaults, as plain values.
pub open spec fn default_input() -> InputModel {
    InputModel {
        dictation_enabled: true,
        dictation_microphone: None,
        dictation_hotkey: Keybind::spec_super_space(),
        dictation_gpu: true,
        keyboard_repeat_rate: DEFAULT_REPEAT_RATE,
    }
}

/// A registration for later versions of the section: what it has already
/// seen, so that a change is delivered once.
pub struct Subscription {
    /// The hash of the contents last delivered.
    last_delivered: Option<u64>,
    /// The hash of the contents this process last wrote itself.
    last_written: Option<u64>,
}

/// A subscription's memory, as plain values.
pub struct SubscriptionModel {
    pub last_delivered: Option<u64>,
    pub last_written: Option<u64>,
}

impl View for Subscription {
    type V = SubscriptionModel;

    closed spec fn view(&self) -> SubscriptionModel {
        SubscriptionModel { last_delivered: self.last_delivered, last_written: self.last_written }
    }
}

/// Whether contents with this hash are news to a subscription.
pub open spec fn is_news(s: SubscriptionModel, hash: u64) -> bool {
    s.last_delivered != Some(hash) && s.last_written != Some(hash)
}

/// Whether a read of contents with this hash is delivered.
pub open spec fn delivers(s: SubscriptionModel, hash: u64, parsed: bool) -> bool {
    is_news(s, hash) && parsed
}

/// The subscription after a read of contents with this hash.
pub open spec fn after_read(s: SubscriptionModel, hash: u64, parsed: bool) -> SubscriptionModel {
    if delivers(s, hash, parsed) {
        SubscriptionModel { last_delivered: Some(hash), last_written: s.last_written }
    } else {
        s
    }
}

pub open spec fn read_parsed(read: FileRead) -> bool {
    read is Parsed
}

/// Follow the section: a subscription that has seen nothing yet.
pub fn watch() -> (s: Subscription)
    ensures
        s@ == (SubscriptionModel { last_delivered: None, last_written: None }),
{
    Subscription { last_delivered: None, last_written: None }
}

impl Subscription {
    /// The process wrote contents with this hash itself: hearing them back
    /// is no change.
    pub fn wrote(&mut self, hash: u64)
        ensures
            final(self)@ == (SubscriptionModel { last_delivered: old(self)@.last_delivered, last_written: Some(hash) }),
    {
        self.last_written = Some(hash);
    }

    /// The file changed on disk and now holds contents with this hash, which
    /// read as `read`. Returns the section to act on, if this is one.
    pub fn on_change(&mut self, hash: u64, read: FileRead) -> (r: Option<Input>)
        ensures
            final(self)@ == after_read(old(self)@, hash, read_parsed(read)),
            delivers(old(self)@, hash, read_parsed(read)) ==> (match read {
                FileRead::Parsed(i) => r == Some(i),
                _ => false,
            }),
            !delivers(old(self)@, hash, read_parsed(read)) ==> r is None,
    {
        let news = match self.last_delivered {
            Some(h) => h != hash,
            None => true,
        } && match self.last_written {
            Some(h) => h != hash,
            None => true,
        };
        if !news {
            return None;
        }
        match read {
            FileRead::Parsed(i) => {
                self.last_delivered = Some(hash);
                Some(i)
            },
            _ => None,
        }
    }
}

/// The same contents heard twice are delivered at most once.
pub proof fn lemma_repeat_is_silent(s: SubscriptionModel, hash: u64, first: bool, second: bool)
    requires
        delivers(s, hash, first),
    ensures
        !delivers(after_read(s, hash, first), hash, second),
{
}

/// What the process wrote itself is never delivered back to it.
pub proof fn lemma_own_write_is_silent(s: SubscriptionModel, hash: u64, parsed: bool)
    ensures
        !delivers(SubscriptionModel { last_delivered: s.last_delivered, last_written: Some(hash) }, hash, parsed),
{
}

/// A broken edit leaves the subscription as it was, so the contents before
/// it are still what was last delivered.
pub proof fn lemma_unparseable_changes_nothing(s: SubscriptionModel, hash: u64)
    ensures
        after_read(s, hash, false) == s,
        !delivers(s, hash, false),
{
}

} // verus!
