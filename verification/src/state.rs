//! State shared between the controller and the overlay: the phase the
//! overlay shows, and the ring of recent waveform samples it draws.

use vstd::prelude::*;

verus! {

/// Number of waveform envelope samples kept for visualization.
/// Two per rendered bar, so each bar shows a peak over its slice.
pub const WAVE_N: usize = 56;

#[derive(Clone, Copy, PartialEq, Eq, Debug, Structural)]
pub enum Phase {
    /// Overlay is fully retracted; the UI idles.
    Hidden,
    /// Hotkey held, microphone open.
    Listening,
    /// Utterance captured, model inference running.
    Thinking,
    /// Text injected; the waveform settles then retracts.
    Success,
    /// Something failed; the waveform flashes red then retracts.
    Error,
}

/// What setting a phase changes besides the phase itself.
#[derive(Clone, Copy, PartialEq, Eq, Debug, Structural)]
pub struct PhaseChange {
    /// The phase really changed, so the moment it started is now.
    pub restamp: bool,
    /// A new recording starts: the level and the waveform start from silence.
    pub clear_wave: bool,
}

/// What `set_phase(new)` does when the overlay shows `current`.
pub fn phase_change(current: Phase, new: Phase) -> (c: PhaseChange)
    ensures
        c.restamp == (current != new),
        c.clear_wave == (new == Phase::Listening),
{
    PhaseChange { restamp: current != new, clear_wave: new == Phase::Listening }
}

/// A fixed-size ring of the most recent `WAVE_N` samples.
pub struct WaveRing<T> {
    slots: Vec<T>,
    pos: usize,
}

impl<T> WaveRing<T> {
    /// The ring holds exactly `WAVE_N` slots and the write position is one
    /// of them.
    pub closed spec fn well_formed(&self) -> bool {
        self.slots.len() == WAVE_N && self.pos < WAVE_N
    }

    /// The samples oldest first, newest last.
    pub closed spec fn chronological(&self) -> Seq<T> {
        Seq::new(WAVE_N as nat, |i: int| self.slots@[(self.pos + i) % (WAVE_N as int)])
    }
}

impl<T: Copy> WaveRing<T> {
    /// A ring holding `fill` in every slot.
    pub fn new(fill: T) -> (r: WaveRing<T>)
        ensures
            r.well_formed(),
            r.chronological() == Seq::new(WAVE_N as nat, |i: int| fill),
    {
        let mut slots: Vec<T> = Vec::new();
        let mut i: usize = 0;
        while i < WAVE_N
            invariant
                i <= WAVE_N,
                slots@.len() == i,
                forall|j: int| 0 <= j < i ==> slots@[j] == fill,
            decreases WAVE_N - i,
        {
            slots.push(fill);
            i += 1;
        }
        let r = WaveRing { slots, pos: 0 };
        assert(r.chronological() =~= Seq::new(WAVE_N as nat, |i: int| fill));
        r
    }

    /// Overwrite every slot with `fill`.
    pub fn clear(&mut self, fill: T)
        requires
            old(self).well_formed(),
        ensures
            final(self).well_formed(),
            final(self).chronological() == Seq::new(WAVE_N as nat, |i: int| fill),
    {
        let mut i: usize = 0;
        while i < WAVE_N
            invariant
                i <= WAVE_N,
                self.slots@.len() == WAVE_N,
                self.pos < WAVE_N,
                forall|j: int| 0 <= j < i ==> self.slots@[j] == fill,
            decreases WAVE_N - i,
        {
            self.slots.set(i, fill);
            i += 1;
        }
        assert(self.chronological() =~= Seq::new(WAVE_N as nat, |i: int| fill));
    }

    /// Push one sample: the oldest falls out and `v` becomes the newest.
    pub fn push(&mut self, v: T)
        requires
            old(self).well_formed(),
        ensures
            final(self).well_formed(),
            final(self).chronological() == old(self).chronological().drop_first().push(v),
    {
        let ghost before = self.chronological();
        let pos = self.pos;
        self.slots.set(pos, v);
        self.pos = if pos + 1 == WAVE_N { 0 } else { pos + 1 };
        assert forall|i: int| 0 <= i < WAVE_N implies #[trigger] self.chronological()[i] == before.drop_first().push(v)[i] by {
            if i < WAVE_N - 1 {
                assert((self.pos + i) % (WAVE_N as int) == (pos + (i + 1)) % (WAVE_N as int));
                assert((pos + (i + 1)) % (WAVE_N as int) != pos);
            } else {
                assert((self.pos + i) % (WAVE_N as int) == pos);
            }
        }
        assert(self.chronological() =~= before.drop_first().push(v));
    }

    /// The samples in chronological order (oldest first, newest last).
    pub fn snapshot(&self) -> (out: Vec<T>)
        requires
            self.well_formed(),
        ensures
            out@ == self.chronological(),
    {
        let mut out: Vec<T> = Vec::new();
        let mut i: usize = 0;
        while i < WAVE_N
            invariant
                i <= WAVE_N,
                self.slots@.len() == WAVE_N,
                self.pos < WAVE_N,
                out@.len() == i,
                forall|j: int| 0 <= j < i ==> out@[j] == self.chronological()[j],
            decreases WAVE_N - i,
        {
            let k = if self.pos + i >= WAVE_N { self.pos + i - WAVE_N } else { self.pos + i };
            out.push(self.slots[k]);
            i += 1;
        }
        assert(out@ =~= self.chronological());
        out
    }
}

/// After any `WAVE_N` pushes the ring holds exactly those samples, oldest
/// first.
pub proof fn lemma_ring_keeps_latest<T>(before: Seq<T>, pushed: Seq<T>)
    requires
        before.len() == WAVE_N,
    ensures
        pushed.fold_left(before, |acc: Seq<T>, v: T| acc.drop_first().push(v)).len() == WAVE_N,
        pushed.len() >= WAVE_N ==> pushed.fold_left(before, |acc: Seq<T>, v: T| acc.drop_first().push(v))
            == pushed.subrange(pushed.len() - WAVE_N, pushed.len() as int),
    decreases pushed.len(),
{
    let f = |acc: Seq<T>, v: T| acc.drop_first().push(v);
    if pushed.len() > 0 {
        let init = pushed.drop_last();
        lemma_ring_keeps_latest(before, init);
        let prev = init.fold_left(before, f);
        assert(pushed.fold_left(before, f) == f(prev, pushed.last()));
        if pushed.len() >= WAVE_N {
            if init.len() >= WAVE_N {
                assert(prev == init.subrange(init.len() - WAVE_N, init.len() as int));
                assert(prev.drop_first().push(pushed.last()) =~= pushed.subrange(pushed.len() - WAVE_N, pushed.len() as int));
            } else {
                assert(pushed.len() == WAVE_N);
                lemma_ring_prefix(before, pushed);
            }
        }
    }
}

/// Pushing `k <= WAVE_N` samples keeps the newest `WAVE_N - k` of the old
/// ring followed by the samples pushed.
proof fn lemma_ring_prefix<T>(before: Seq<T>, pushed: Seq<T>)
    requires
        before.len() == WAVE_N,
        pushed.len() <= WAVE_N,
    ensures
        pushed.fold_left(before, |acc: Seq<T>, v: T| acc.drop_first().push(v))
            == before.subrange(pushed.len() as int, WAVE_N as int) + pushed,
    decreases pushed.len(),
{
    let f = |acc: Seq<T>, v: T| acc.drop_first().push(v);
    if pushed.len() == 0 {
        assert(before.subrange(0, WAVE_N as int) + pushed =~= before);
    } else {
        let init = pushed.drop_last();
        lemma_ring_prefix(before, init);
        let prev = init.fold_left(before, f);
        assert(pushed.fold_left(before, f) == f(prev, pushed.last()));
        assert(prev.drop_first().push(pushed.last()) =~= before.subrange(pushed.len() as int, WAVE_N as int) + pushed);
    }
}

} // verus!
