//! The controller's decisions: what each hotkey edge and each settings
//! change means for the recorder, the model and the overlay.
//!
//! The controller hears about two things on one channel: the chord going down
//! or coming up, and the settings changing. The settings are only read
//! between events, so there is no moment where half of a change is applied.
//! Each setting lands where it means something: the switch and the shortcut
//! go to the hotkey watcher at once, the microphone is read when a recording
//! starts, and the backend preference goes to the model loader, which is told
//! to unload a model built for the backend the user just turned off.

use vstd::prelude::*;

use crate::binding_text::trim;
use crate::keys::Keybind;
use crate::settings::{microphone_view, Input, InputModel};
use crate::state::Phase;

verus! {

/// Recordings shorter than this many milliseconds are treated as an
/// accidental tap.
pub const MIN_UTTERANCE_MS: u64 = 350;

/// Seconds without dictation after which the model is dropped from memory.
pub const IDLE_TTL_SECS: u64 = 300;

pub struct Options {
    /// `--cpu`: never use the GPU, whatever `input.ron` says. A flag beats
    /// a preference, because the flag is what somebody typed for this run.
    pub force_cpu: bool,
}

pub open spec fn spec_gpu_wanted(input: InputModel, force_cpu: bool) -> bool {
    !force_cpu && input.dictation_gpu
}

/// Whether the model should be loaded onto the GPU.
pub fn gpu_wanted(input: &Input, force_cpu: bool) -> (r: bool)
    ensures
        r == spec_gpu_wanted(input@, force_cpu),
{
    !force_cpu && input.dictation_gpu
}

/// What the daemon is now doing, for the log.
#[derive(Debug, Clone, Copy, PartialEq, Eq, Structural)]
pub enum Announcement {
    /// Dictation is switched off in `input.ron`.
    SwitchedOff,
    /// Dictation is on but no shortcut is set.
    NoShortcut,
    /// Hold this chord to dictate.
    Hold(Keybind),
}

pub open spec fn spec_announce(input: InputModel) -> Announcement {
    if !input.dictation_enabled {
        Announcement::SwitchedOff
    } else if input.dictation_hotkey.spec_is_empty() {
        Announcement::NoShortcut
    } else {
        Announcement::Hold(input.dictation_hotkey)
    }
}

/// Say what the daemon is now doing, so the log answers "why is nothing
/// happening" without anybody opening the config file.
pub fn announce(input: &Input) -> (a: Announcement)
    ensures
        a == spec_announce(input@),
{
    if !input.dictation_enabled {
        Announcement::SwitchedOff
    } else if input.dictation_hotkey.is_empty() {
        Announcement::NoShortcut
    } else {
        Announcement::Hold(input.dictation_hotkey)
    }
}

/// A binding and switch to hand the hotkey watcher.
#[derive(Debug, Clone, Copy, PartialEq, Eq, Structural)]
pub struct Rebind {
    pub binding: Keybind,
    pub enabled: bool,
}

/// What a settings change asks of the rest of the daemon.
#[derive(Debug, Clone, Copy, PartialEq, Eq, Structural)]
pub struct SettingsActions {
    /// Hand the hotkey watcher this binding and switch (`None`: the file
    /// did not really change).
    pub rebind: Option<Rebind>,
    /// Drop the resident model: it was built for the other backend.
    pub unload_model: bool,
    /// Log what the daemon is now doing.
    pub announce: Option<Announcement>,
}

/// What a press of the chord asks for.
pub enum PressAction {
    /// Already recording: nothing to do.
    Ignore,
    /// Start loading the model and open this microphone (`None`: the system
    /// default).
    StartRecording(Option<String>),
}

/// The controller's own state.
pub struct ControllerModel {
    pub input: InputModel,
    pub force_cpu: bool,
    pub prefer_gpu: bool,
    pub recording: bool,
}

/// The controller loop's state between events.
pub struct Controller {
    input: Input,
    force_cpu: bool,
    prefer_gpu: bool,
    recording: bool,
}

impl View for Controller {
    type V = ControllerModel;

    closed spec fn view(&self) -> ControllerModel {
        ControllerModel {
            input: self.input@,
            force_cpu: self.force_cpu,
            prefer_gpu: self.prefer_gpu,
            recording: self.recording,
        }
    }
}

impl Controller {
    /// Start from the settings as read at startup.
    pub fn new(input: Input, opts: Options) -> (c: Controller)
        ensures
            c@.input == input@,
            c@.force_cpu == opts.force_cpu,
            c@.prefer_gpu == spec_gpu_wanted(input@, opts.force_cpu),
            !c@.recording,
    {
        let prefer_gpu = gpu_wanted(&input, opts.force_cpu);
        Controller { input, force_cpu: opts.force_cpu, prefer_gpu, recording: false }
    }

    /// The settings in force.
    pub fn input(&self) -> (i: &Input)
        ensures
            i@ == self@.input,
    {
        &self.input
    }

    /// Whether the model should be built for the GPU.
    pub fn prefer_gpu(&self) -> (g: bool)
        ensures
            g == self@.prefer_gpu,
    {
        self.prefer_gpu
    }

    /// Whether a recording is running.
    pub fn is_recording(&self) -> (r: bool)
        ensures
            r == self@.recording,
    {
        self.recording
    }

    /// `input.ron` changed.
    pub fn on_settings(&mut self, new: Input) -> (a: SettingsActions)
        ensures
            old(self)@.input == new@ ==> {
                &&& a == (SettingsActions { rebind: None, unload_model: false, announce: None })
                &&& final(self)@ == old(self)@
            },
            old(self)@.input != new@ ==> {
                &&& a.rebind == Some(Rebind { binding: new@.dictation_hotkey, enabled: new@.dictation_enabled })
                &&& a.unload_model == (spec_gpu_wanted(new@, old(self)@.force_cpu) != old(self)@.prefer_gpu)
                &&& a.announce == Some(spec_announce(new@))
                &&& final(self)@.input == new@
                &&& final(self)@.prefer_gpu == spec_gpu_wanted(new@, old(self)@.force_cpu)
                &&& final(self)@.force_cpu == old(self)@.force_cpu
                &&& final(self)@.recording == old(self)@.recording
            },
    {
        if new.same_as(&self.input) {
            return SettingsActions { rebind: None, unload_model: false, announce: None };
        }
        let rebind = Some(Rebind { binding: new.dictation_hotkey, enabled: new.dictation_enabled });
        let gpu = gpu_wanted(&new, self.force_cpu);
        let unload_model = gpu != self.prefer_gpu;
        self.prefer_gpu = gpu;
        let announcement = announce(&new);
        self.input = new;
        SettingsActions { rebind, unload_model, announce: Some(announcement) }
    }

    /// The chord went down.
    pub fn on_pressed(&mut self) -> (a: PressAction)
        ensures
            final(self)@ == old(self)@,
            old(self)@.recording ==> a is Ignore,
            !old(self)@.recording ==> (a matches PressAction::StartRecording(m) && microphone_view(m)
                == old(self)@.input.dictation_microphone),
    {
        if self.recording {
            return PressAction::Ignore;
        }
        let mic = match &self.input.dictation_microphone {
            Some(name) => Some(name.clone()),
            None => None,
        };
        PressAction::StartRecording(mic)
    }

    /// The recorder asked for by a press opened (`ok`) or failed to.
    pub fn recording_started(&mut self, ok: bool) -> (p: Phase)
        ensures
            final(self)@.recording == ok,
            final(self)@.input == old(self)@.input,
            final(self)@.force_cpu == old(self)@.force_cpu,
            final(self)@.prefer_gpu == old(self)@.prefer_gpu,
            p == (if ok { Phase::Listening } else { Phase::Error }),
    {
        self.recording = ok;
        if ok {
            Phase::Listening
        } else {
            Phase::Error
        }
    }

    /// The chord came up: whether there is a recording to stop.
    pub fn on_released(&mut self) -> (stop: bool)
        ensures
            stop == old(self)@.recording,
            !final(self)@.recording,
            final(self)@.input == old(self)@.input,
            final(self)@.force_cpu == old(self)@.force_cpu,
            final(self)@.prefer_gpu == old(self)@.prefer_gpu,
    {
        let stop = self.recording;
        self.recording = false;
        stop
    }
}

/// Whether `n_samples` at `rate` Hz is shorter than the shortest utterance.
pub open spec fn spec_is_tap(n_samples: nat, rate: nat) -> bool {
    n_samples * 1000 < MIN_UTTERANCE_MS * rate
}

/// What a stopped recording becomes: an accidental tap hides the overlay,
/// anything longer is transcribed.
pub fn after_recording(n_samples: usize, rate: u32) -> (p: Phase)
    ensures
        p == (if spec_is_tap(n_samples as nat, rate as nat) { Phase::Hidden } else { Phase::Thinking }),
{
    let n = n_samples as u128;
    let r = rate as u128;
    let min_ms: u128 = 350;
    assert(min_ms == MIN_UTTERANCE_MS);
    if n * 1000 < min_ms * r {
        Phase::Hidden
    } else {
        Phase::Thinking
    }
}

/// What to do with what the model returned.
pub enum Transcript {
    /// Type this (the recognized text without surrounding white space).
    Type(String),
    /// Nothing was recognized.
    Nothing,
    /// Recognition failed.
    Failed,
}

fn copy_range(s: &Vec<char>, from: usize, to: usize) -> (out: String)
    requires
        from <= to <= s.len(),
    ensures
        out@ == s@.subrange(from as int, to as int),
{
    let mut out = String::new();
    let mut i: usize = from;
    while i < to
        invariant
            from <= i <= to <= s.len(),
            out@ == s@.subrange(from as int, i as int),
        decreases to - i,
    {
        out.push(s[i]);
        proof {
            assert(s@.subrange(from as int, i + 1) =~= s@.subrange(from as int, i as int).push(s@[i as int]));
        }
        i += 1;
    }
    out
}

/// `text` without leading and trailing white space.
pub fn trim_text(text: &str) -> (t: String)
    ensures
        t@ == trim(text@),
{
    let n = text.unicode_len();
    let mut chars: Vec<char> = Vec::new();
    let mut i: usize = 0;
    while i < n
        invariant
            i <= n,
            n == text@.len(),
            chars@ == text@.subrange(0, i as int),
        decreases n - i,
    {
        chars.push(text.get_char(i));
        proof {
            assert(text@.subrange(0, i + 1) =~= text@.subrange(0, i as int).push(text@[i as int]));
        }
        i += 1;
    }
    proof {
        assert(chars@ =~= text@);
    }
    let (start, end) = crate::binding_text::trim_bounds(&chars);
    copy_range(&chars, start, end)
}

pub open spec fn spec_transcript(result: Option<Seq<char>>) -> TranscriptModel {
    match result {
        None => TranscriptModel::Failed,
        Some(t) => if trim(t).len() == 0 {
            TranscriptModel::Nothing
        } else {
            TranscriptModel::Type(trim(t))
        },
    }
}

/// A `Transcript` as plain values.
pub enum TranscriptModel {
    Type(Seq<char>),
    Nothing,
    Failed,
}

impl View for Transcript {
    type V = TranscriptModel;

    open spec fn view(&self) -> TranscriptModel {
        match self {
            Transcript::Type(s) => TranscriptModel::Type(s@),
            Transcript::Nothing => TranscriptModel::Nothing,
            Transcript::Failed => TranscriptModel::Failed,
        }
    }
}

/// What the model's answer (`None` if it failed) means.
pub fn transcript_of(result: Option<&str>) -> (t: Transcript)
    ensures
        t@ == spec_transcript(match result {
            Some(s) => Some(s@),
            None => None,
        }),
{
    match result {
        None => Transcript::Failed,
        Some(text) => {
            let trimmed = trim_text(text);
            if trimmed.as_str().unicode_len() == 0 {
                Transcript::Nothing
            } else {
                Transcript::Type(trimmed)
            }
        },
    }
}

/// The overlay after typing the text: success, or failure to deliver it.
pub fn after_typing(delivered: bool) -> (p: Phase)
    ensures
        p == (if delivered { Phase::Success } else { Phase::Error }),
{
    if delivered {
        Phase::Success
    } else {
        Phase::Error
    }
}

/// The flag is the stronger statement of the two: with `--cpu` the GPU is
/// never wanted, and without it the setting decides.
pub proof fn lemma_flag_beats_preference(input: InputModel)
    ensures
        !spec_gpu_wanted(input, true),
        spec_gpu_wanted(input, false) == input.dictation_gpu,
{
}

/// One stage of the `--demo` cycle, which runs the overlay through its
/// states with synthetic audio: the phase to show and for how many seconds.
#[derive(Debug, Clone, Copy, PartialEq, Eq, Structural)]
pub struct DemoStage {
    pub phase: Phase,
    pub secs: u64,
}

/// The stage the demo opens with: five seconds of listening.
pub fn demo_start() -> (s: DemoStage)
    ensures
        s == (DemoStage { phase: Phase::Listening, secs: 5 }),
{
    DemoStage { phase: Phase::Listening, secs: 5 }
}

pub open spec fn spec_demo_next(phase: Phase) -> DemoStage {
    match phase {
        Phase::Listening => DemoStage { phase: Phase::Thinking, secs: 2 },
        Phase::Thinking => DemoStage { phase: Phase::Success, secs: 3 },
        _ => DemoStage { phase: Phase::Listening, secs: 5 },
    }
}

/// The stage after one showing `phase`: listening, then thinking for two
/// seconds, then success for three, and round again.
pub fn demo_next(phase: Phase) -> (s: DemoStage)
    ensures
        s == spec_demo_next(phase),
{
    match phase {
        Phase::Listening => DemoStage { phase: Phase::Thinking, secs: 2 },
        Phase::Thinking => DemoStage { phase: Phase::Success, secs: 3 },
        _ => DemoStage { phase: Phase::Listening, secs: 5 },
    }
}

/// The demo cycles through three stages and comes back to where it began.
pub proof fn lemma_demo_cycles()
    ensures
        spec_demo_next(spec_demo_next(spec_demo_next(Phase::Listening).phase).phase) == (DemoStage {
            phase: Phase::Listening,
            secs: 5,
        }),
{
}

} // verus!
