//! Speech recognition: the model files, the greedy token-and-duration
//! decode, the text the tokens make, and the engine thread's decisions.
//!
//! The network runs are the caller's. The decoder here says which encoder
//! frame to run next and with which previous token, and takes back the two
//! indices the joint network's output picks: the token and the frame step.
//! It always finishes: every answer moves it strictly closer to the end of
//! the frames (see `lemma_decode_progress`).

pub mod download;
pub mod vocab;

use vstd::prelude::*;

use crate::binding_text::{char_is_space, is_space};

verus! {

/// The most tokens emitted at one encoder frame before the decoder moves on
/// to the next frame regardless.
pub const MAX_TOKENS_PER_STEP: usize = 10;

/// Recordings shorter than this many 16 kHz samples (a tenth of a second)
/// transcribe to nothing without running the model.
pub const MIN_SAMPLES: usize = 1600;

/// Whether a recording of `n` samples is too short to transcribe.
pub fn too_short(n: usize) -> (r: bool)
    ensures
        r == (n < MIN_SAMPLES),
{
    n < MIN_SAMPLES
}

// --- MARK: greedy decode ---

/// The decoder's state as plain values.
pub struct DecodeModel {
    /// The encoder frame the next run is for.
    pub t: int,
    /// How many encoder frames there are.
    pub t_len: int,
    /// Tokens emitted at the current frame.
    pub emitted: int,
    /// Tokens emitted so far.
    pub tokens: Seq<usize>,
    /// The blank token.
    pub blank: usize,
}

/// The decoder after the network picked `token` and frame step `step`.
pub open spec fn feed_spec(m: DecodeModel, token: usize, step: usize) -> DecodeModel {
    let tokens = if token != m.blank { m.tokens.push(token) } else { m.tokens };
    let emitted = if token != m.blank { m.emitted + 1 } else { m.emitted };
    if step > 0 {
        DecodeModel { t: m.t + step, t_len: m.t_len, emitted: 0, tokens, blank: m.blank }
    } else if token == m.blank || emitted >= MAX_TOKENS_PER_STEP {
        DecodeModel { t: m.t + 1, t_len: m.t_len, emitted: 0, tokens, blank: m.blank }
    } else {
        DecodeModel { t: m.t, t_len: m.t_len, emitted, tokens, blank: m.blank }
    }
}

/// The previous token the next run is given: the last one emitted, or the
/// blank before any.
pub open spec fn last_token(m: DecodeModel) -> usize {
    if m.tokens.len() == 0 {
        m.blank
    } else {
        m.tokens.last()
    }
}

/// How far the decoder is from the end, counted in network runs at most.
pub open spec fn remaining_work(m: DecodeModel) -> int {
    if m.t >= m.t_len {
        0
    } else {
        (m.t_len - m.t) * (MAX_TOKENS_PER_STEP + 1) + (MAX_TOKENS_PER_STEP - m.emitted)
    }
}

/// What holds of a decoder between runs.
pub open spec fn decode_invariant(m: DecodeModel) -> bool {
    &&& 0 <= m.t
    &&& 0 <= m.emitted < MAX_TOKENS_PER_STEP
    &&& forall|i: int| 0 <= i < m.tokens.len() ==> m.tokens[i] != m.blank
}

/// Greedy token-and-duration decoding over `t_len` encoder frames.
pub struct TdtDecoder {
    t: usize,
    t_len: usize,
    emitted: usize,
    tokens: Vec<usize>,
    blank: usize,
}

impl View for TdtDecoder {
    type V = DecodeModel;

    closed spec fn view(&self) -> DecodeModel {
        DecodeModel {
            t: self.t as int,
            t_len: self.t_len as int,
            emitted: self.emitted as int,
            tokens: self.tokens@,
            blank: self.blank,
        }
    }
}

impl TdtDecoder {
    /// A decoder at the first of `t_len` frames, with nothing emitted.
    pub fn new(t_len: usize, blank: usize) -> (d: TdtDecoder)
        ensures
            d@ == (DecodeModel { t: 0, t_len: t_len as int, emitted: 0, tokens: Seq::empty(), blank }),
            decode_invariant(d@),
    {
        TdtDecoder { t: 0, t_len, emitted: 0, tokens: Vec::new(), blank }
    }

    /// The next run to make: the frame and the previous token, or `None`
    /// when the frames are used up.
    pub fn next_run(&self) -> (r: Option<(usize, usize)>)
        ensures
            self@.t < self@.t_len ==> r == Some((self@.t as usize, last_token(self@))),
            self@.t >= self@.t_len ==> r is None,
    {
        if self.t < self.t_len {
            let n = self.tokens.len();
            let last = if n == 0 { self.blank } else { self.tokens[n - 1] };
            Some((self.t, last))
        } else {
            None
        }
    }

    /// Take the network's picks for the current frame. Returns whether the
    /// token was emitted, in which case the decoder's recurrent state moves
    /// on to the state the run produced; after a blank it stays.
    pub fn feed(&mut self, token: usize, step: usize) -> (emitted: bool)
        requires
            decode_invariant(old(self)@),
            old(self)@.t < old(self)@.t_len,
            old(self)@.t + step <= usize::MAX,
        ensures
            final(self)@ == feed_spec(old(self)@, token, step),
            decode_invariant(final(self)@),
            emitted == (token != old(self)@.blank),
    {
        let emitted = token != self.blank;
        if emitted {
            self.tokens.push(token);
            self.emitted = self.emitted + 1;
        }
        if step > 0 {
            self.t = self.t + step;
            self.emitted = 0;
        } else if !emitted || self.emitted >= MAX_TOKENS_PER_STEP {
            self.t = self.t + 1;
            self.emitted = 0;
        }
        proof {
            lemma_decode_progress(old(self)@, token, step);
        }
        emitted
    }

    /// The tokens emitted so far.
    pub fn tokens(&self) -> (t: &Vec<usize>)
        ensures
            t@ == self@.tokens,
    {
        &self.tokens
    }
}

/// Every run moves the decoder strictly closer to the end, so a decode of
/// `t_len` frames makes at most `(t_len + 1) * 11` runs and always finishes.
pub proof fn lemma_decode_progress(m: DecodeModel, token: usize, step: usize)
    requires
        decode_invariant(m),
        m.t < m.t_len,
    ensures
        0 <= remaining_work(feed_spec(m, token, step)) < remaining_work(m),
        decode_invariant(feed_spec(m, token, step)),
{
}

/// A duration step moves the decoder on by exactly that many frames, blank
/// or not, and starts the new frame with nothing emitted; without a step, a
/// blank moves it on by one frame.
pub proof fn lemma_step_advances(m: DecodeModel, token: usize, step: usize)
    ensures
        step > 0 ==> feed_spec(m, token, step).t == m.t + step && feed_spec(m, token, step).emitted == 0,
        step == 0 && token == m.blank ==> feed_spec(m, token, step).t == m.t + 1,
        step == 0 && token != m.blank && m.emitted + 1 < MAX_TOKENS_PER_STEP ==> feed_spec(m, token, step).t == m.t
            && feed_spec(m, token, step).emitted == m.emitted + 1,
        token != m.blank ==> feed_spec(m, token, step).tokens == m.tokens.push(token),
        token == m.blank ==> feed_spec(m, token, step).tokens == m.tokens,
{
}

/// The blank is never part of the transcript.
pub proof fn lemma_blank_never_emitted(m: DecodeModel, step: usize)
    requires
        decode_invariant(m),
    ensures
        feed_spec(m, m.blank, step).tokens == m.tokens,
{
}

// --- MARK: detokenization ---

/// The tokens' pieces of text, one after another.
pub open spec fn concat_pieces(vocab: Seq<Seq<char>>, tokens: Seq<usize>) -> Seq<char>
    decreases tokens.len(),
{
    if tokens.len() == 0 {
        Seq::empty()
    } else {
        concat_pieces(vocab, tokens.drop_last()) + vocab[tokens.last() as int]
    }
}

/// `s` with its words joined by single spaces: runs of whitespace become
/// one space, and whitespace at either end goes.
pub open spec fn squeeze(s: Seq<char>) -> Seq<char>
    decreases s.len(),
{
    if s.len() == 0 {
        Seq::empty()
    } else {
        let prev = squeeze(s.drop_last());
        let c = s.last();
        if is_space(c) {
            prev
        } else if s.len() >= 2 && is_space(s[s.len() - 2]) && prev.len() > 0 {
            prev.push(' ').push(c)
        } else {
            prev.push(c)
        }
    }
}

/// What `squeeze` leaves: the only white space is single plain spaces
/// between two other characters.
pub open spec fn words_spaced(r: Seq<char>) -> bool {
    forall|i: int|
        0 <= i < r.len() && is_space(#[trigger] r[i]) ==> r[i] == ' ' && 0 < i < r.len() - 1 && !is_space(r[i - 1])
            && !is_space(r[i + 1])
}

/// A transcript never starts or ends with white space, and its words stand
/// exactly one space apart.
pub proof fn lemma_transcript_is_spaced(s: Seq<char>)
    ensures
        words_spaced(squeeze(s)),
    decreases s.len(),
{
    if s.len() > 0 {
        lemma_transcript_is_spaced(s.drop_last());
        let prev = squeeze(s.drop_last());
        let c = s.last();
        let r = squeeze(s);
        assert(is_space(' '));
        if !is_space(c) {
            if s.len() >= 2 && is_space(s[s.len() - 2]) && prev.len() > 0 {
                assert(r == prev.push(' ').push(c));
                assert forall|i: int| 0 <= i < r.len() && is_space(#[trigger] r[i]) implies r[i] == ' ' && 0 < i < r.len()
                    - 1 && !is_space(r[i - 1]) && !is_space(r[i + 1]) by {
                    if i < prev.len() {
                        assert(r[i] == prev[i]);
                        assert(r[i - 1] == prev[i - 1]);
                        assert(r[i + 1] == prev[i + 1]);
                    } else if i == prev.len() {
                        assert(r[i - 1] == prev[prev.len() - 1]);
                        if is_space(prev[prev.len() - 1]) {
                            assert(false);
                        }
                    }
                }
            } else {
                assert(r == prev.push(c));
                assert forall|i: int| 0 <= i < r.len() && is_space(#[trigger] r[i]) implies r[i] == ' ' && 0 < i < r.len()
                    - 1 && !is_space(r[i - 1]) && !is_space(r[i + 1]) by {
                    if i < prev.len() {
                        assert(r[i] == prev[i]);
                        assert(r[i - 1] == prev[i - 1]);
                        assert(r[i + 1] == prev[i + 1]);
                    }
                }
            }
        }
    }
}

/// The characters of `s` that are not white space, in order.
pub open spec fn non_space(s: Seq<char>) -> Seq<char>
    decreases s.len(),
{
    if s.len() == 0 {
        Seq::empty()
    } else if is_space(s.last()) {
        non_space(s.drop_last())
    } else {
        non_space(s.drop_last()).push(s.last())
    }
}

/// The transcript keeps every character of the pieces that is not white
/// space, in order, and adds none: only white space changes.
pub proof fn lemma_transcript_keeps_text(s: Seq<char>)
    ensures
        non_space(squeeze(s)) == non_space(s),
    decreases s.len(),
{
    if s.len() > 0 {
        lemma_transcript_keeps_text(s.drop_last());
        let prev = squeeze(s.drop_last());
        let c = s.last();
        assert(is_space(' '));
        if !is_space(c) {
            assert(non_space(s) == non_space(s.drop_last()).push(c));
            if s.len() >= 2 && is_space(s[s.len() - 2]) && prev.len() > 0 {
                let a = prev.push(' ');
                assert(squeeze(s) == a.push(c));
                assert(a.push(c).drop_last() =~= a);
                assert(a.push(c).last() == c);
                assert(non_space(a.push(c)) == non_space(a).push(c));
                assert(a.drop_last() =~= prev);
                assert(a.last() == ' ');
                assert(non_space(a) == non_space(prev));
            } else {
                assert(squeeze(s) == prev.push(c));
                assert(prev.push(c).drop_last() =~= prev);
                assert(prev.push(c).last() == c);
                assert(non_space(prev.push(c)) == non_space(prev).push(c));
            }
        } else {
            assert(squeeze(s) == prev);
            assert(non_space(s) == non_space(s.drop_last()));
        }
    }
}

pub open spec fn vocab_view(vocab: Seq<String>) -> Seq<Seq<char>> {
    Seq::new(vocab.len(), |i: int| vocab[i]@)
}

/// The transcript the tokens spell: their pieces joined, with the word
/// marks (already spaces) collapsed so that words stand one space apart.
pub fn detokenize(vocab: &Vec<String>, tokens: &Vec<usize>) -> (text: String)
    requires
        forall|i: int| 0 <= i < tokens@.len() ==> tokens@[i] < vocab@.len(),
    ensures
        text@ == squeeze(concat_pieces(vocab_view(vocab@), tokens@)),
{
    let ghost pieces = vocab_view(vocab@);
    let mut chars: Vec<char> = Vec::new();
    let mut k: usize = 0;
    while k < tokens.len()
        invariant
            k <= tokens@.len(),
            pieces == vocab_view(vocab@),
            forall|i: int| 0 <= i < tokens@.len() ==> tokens@[i] < vocab@.len(),
            chars@ == concat_pieces(pieces, tokens@.take(k as int)),
        decreases tokens@.len() - k,
    {
        let piece = vocab[tokens[k]].as_str();
        let n = piece.unicode_len();
        let ghost before = chars@;
        let mut j: usize = 0;
        while j < n
            invariant
                j <= n,
                n == piece@.len(),
                chars@ == before + piece@.take(j as int),
            decreases n - j,
        {
            chars.push(piece.get_char(j));
            proof {
                assert(piece@.take(j + 1) =~= piece@.take(j as int).push(piece@[j as int]));
            }
            j += 1;
        }
        proof {
            assert(piece@.take(n as int) =~= piece@);
            assert(tokens@.take(k + 1).drop_last() =~= tokens@.take(k as int));
            assert(pieces[tokens@[k as int] as int] == piece@);
        }
        k += 1;
    }
    proof {
        assert(tokens@.take(tokens@.len() as int) =~= tokens@);
    }
    let mut text = String::new();
    let mut gap = false;
    let mut i: usize = 0;
    while i < chars.len()
        invariant
            i <= chars@.len(),
            text@ == squeeze(chars@.take(i as int)),
            gap == (i > 0 && is_space(chars@[i - 1])),
        decreases chars@.len() - i,
    {
        let c = chars[i];
        proof {
            assert(chars@.take(i + 1).drop_last() =~= chars@.take(i as int));
            if i > 0 {
                assert(chars@.take(i + 1)[i - 1] == chars@[i - 1]);
            }
        }
        if char_is_space(c) {
            gap = true;
        } else {
            if gap && text.as_str().unicode_len() > 0 {
                text.push(' ');
            }
            text.push(c);
            gap = false;
        }
        i += 1;
    }
    proof {
        assert(chars@.take(chars@.len() as int) =~= chars@);
    }
    text
}

// --- MARK: the engine thread ---

/// What the engine thread hears.
#[derive(Debug, Clone, Copy, PartialEq, Eq, Structural)]
pub enum EngineCommand {
    /// Start loading the model if it is not resident yet.
    Preload,
    /// Drop the model if it is resident: the backend preference changed,
    /// and the next load honours it.
    Unload,
    /// Transcribe a recording and send back the text.
    Transcribe,
    /// No command came for the idle time.
    IdleTimeout,
    /// Nobody can send commands any more.
    Disconnected,
}

/// What the engine thread does about a command.
#[derive(Debug, Clone, Copy, PartialEq, Eq, Structural)]
pub enum EngineAction {
    Nothing,
    /// Load the model (and report with `loaded`).
    Load,
    /// Drop the resident model.
    Drop,
    /// Transcribe with the resident model (and report with `transcribed`).
    Transcribe,
    /// Load the model first (and report with `loaded`); if that worked,
    /// transcribe (and report with `transcribed`); else send back the load's
    /// error.
    LoadThenTranscribe,
    /// Stop the thread.
    Exit,
}

/// The action a command asks for when a model is or is not resident.
pub open spec fn command_action(resident: bool, cmd: EngineCommand) -> EngineAction {
    match cmd {
        EngineCommand::Preload => if resident { EngineAction::Nothing } else { EngineAction::Load },
        EngineCommand::Unload => if resident { EngineAction::Drop } else { EngineAction::Nothing },
        EngineCommand::Transcribe => if resident {
            EngineAction::Transcribe
        } else {
            EngineAction::LoadThenTranscribe
        },
        EngineCommand::IdleTimeout => if resident { EngineAction::Drop } else { EngineAction::Nothing },
        EngineCommand::Disconnected => EngineAction::Exit,
    }
}

/// Whether a model is resident after the command's action was chosen (a
/// load's outcome is reported separately).
pub open spec fn resident_after_command(resident: bool, cmd: EngineCommand) -> bool {
    match cmd {
        EngineCommand::Unload => false,
        EngineCommand::IdleTimeout => false,
        _ => resident,
    }
}

/// Whether the engine thread holds a loaded model.
pub struct EngineSlot {
    resident: bool,
}

impl View for EngineSlot {
    type V = bool;

    closed spec fn view(&self) -> bool {
        self.resident
    }
}

impl EngineSlot {
    /// Nothing is loaded until the first command asks for it.
    pub fn new() -> (s: EngineSlot)
        ensures
            s@ == false,
    {
        EngineSlot { resident: false }
    }

    /// Decide what to do about a command.
    pub fn on_command(&mut self, cmd: EngineCommand) -> (a: EngineAction)
        ensures
            a == command_action(old(self)@, cmd),
            final(self)@ == resident_after_command(old(self)@, cmd),
    {
        match cmd {
            EngineCommand::Preload => if self.resident { EngineAction::Nothing } else { EngineAction::Load },
            EngineCommand::Unload => if self.resident {
                self.resident = false;
                EngineAction::Drop
            } else {
                EngineAction::Nothing
            },
            EngineCommand::Transcribe => if self.resident {
                EngineAction::Transcribe
            } else {
                EngineAction::LoadThenTranscribe
            },
            EngineCommand::IdleTimeout => if self.resident {
                self.resident = false;
                EngineAction::Drop
            } else {
                EngineAction::Nothing
            },
            EngineCommand::Disconnected => EngineAction::Exit,
        }
    }

    /// A load finished; `ok` says whether it worked.
    pub fn loaded(&mut self, ok: bool)
        ensures
            final(self)@ == ok,
    {
        self.resident = ok;
    }

    /// A transcription finished. A failed one drops the model, so that a
    /// wedged session does not poison later requests.
    pub fn transcribed(&mut self, ok: bool)
        ensures
            final(self)@ == (old(self)@ && ok),
    {
        if !ok {
            self.resident = false;
        }
    }
}

/// After a failed transcription, the next transcription loads the model
/// afresh.
pub proof fn lemma_failure_reloads(resident: bool)
    ensures
        command_action(resident && false, EngineCommand::Transcribe) == EngineAction::LoadThenTranscribe,
{
}

/// An idle timeout and an unload both leave nothing resident, and the next
/// command that needs the model loads it, with the preference as it is then.
pub proof fn lemma_dropped_model_reloads(resident: bool, cmd: EngineCommand)
    requires
        cmd == EngineCommand::Unload || cmd == EngineCommand::IdleTimeout,
    ensures
        !resident_after_command(resident, cmd),
        command_action(resident_after_command(resident, cmd), EngineCommand::Preload) == EngineAction::Load,
        command_action(resident_after_command(resident, cmd), EngineCommand::Transcribe)
            == EngineAction::LoadThenTranscribe,
{
}

/// A preload of a resident model, or a second preload after a load that
/// worked, does nothing.
pub proof fn lemma_preload_is_idempotent()
    ensures
        command_action(true, EngineCommand::Preload) == EngineAction::Nothing,
{
}

} // verus!
