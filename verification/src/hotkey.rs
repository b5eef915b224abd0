//! Press-and-hold detection for one configurable chord.
//!
//! The watcher keeps the set of keys currently down, as `(device, code)`, and
//! re-derives "is the chord held" from it after every key event and after
//! every rebinding. Modifiers are matched exactly; the ordinary key, if the
//! chord has one, must be down, and any other ordinary key is ignored. Only
//! changes of the answer are reported, as a press or a release edge.

use vstd::prelude::*;

use crate::keys::{evdev_code, lemma_key_for_code_inverts, spec_evdev_code, KeyCode, Keybind, Mods};

verus! {

/// Input-event codes of the eight modifier keys.
pub const KEY_LEFTCTRL: u16 = 29;
pub const KEY_LEFTSHIFT: u16 = 42;
pub const KEY_RIGHTSHIFT: u16 = 54;
pub const KEY_LEFTALT: u16 = 56;
pub const KEY_RIGHTCTRL: u16 = 97;
pub const KEY_RIGHTALT: u16 = 100;
pub const KEY_LEFTMETA: u16 = 125;
pub const KEY_RIGHTMETA: u16 = 126;

/// An edge of the configured chord.
#[derive(Debug, Clone, Copy, PartialEq, Eq, Structural)]
pub enum HotkeyEvent {
    Pressed,
    Released,
}

pub open spec fn is_meta_code(code: u16) -> bool {
    code == KEY_LEFTMETA || code == KEY_RIGHTMETA
}

pub open spec fn is_ctrl_code(code: u16) -> bool {
    code == KEY_LEFTCTRL || code == KEY_RIGHTCTRL
}

pub open spec fn is_alt_code(code: u16) -> bool {
    code == KEY_LEFTALT || code == KEY_RIGHTALT
}

pub open spec fn is_shift_code(code: u16) -> bool {
    code == KEY_LEFTSHIFT || code == KEY_RIGHTSHIFT
}

pub open spec fn is_modifier_code(code: u16) -> bool {
    is_meta_code(code) || is_ctrl_code(code) || is_alt_code(code) || is_shift_code(code)
}

/// The modifier one physical key sets, or `None` if it is not a modifier.
pub open spec fn spec_modifier_of(code: u16) -> Option<Mods> {
    if is_meta_code(code) {
        Some(Mods { meta: true, ctrl: false, alt: false, shift: false })
    } else if is_ctrl_code(code) {
        Some(Mods { meta: false, ctrl: true, alt: false, shift: false })
    } else if is_alt_code(code) {
        Some(Mods { meta: false, ctrl: false, alt: true, shift: false })
    } else if is_shift_code(code) {
        Some(Mods { meta: false, ctrl: false, alt: false, shift: true })
    } else {
        None
    }
}

/// The modifier one physical key sets, or `None` if it is not a modifier.
pub fn modifier_of(code: u16) -> (m: Option<Mods>)
    ensures
        m == spec_modifier_of(code),
{
    if code == KEY_LEFTMETA || code == KEY_RIGHTMETA {
        Some(Mods { meta: true, ctrl: false, alt: false, shift: false })
    } else if code == KEY_LEFTCTRL || code == KEY_RIGHTCTRL {
        Some(Mods { meta: false, ctrl: true, alt: false, shift: false })
    } else if code == KEY_LEFTALT || code == KEY_RIGHTALT {
        Some(Mods { meta: false, ctrl: false, alt: true, shift: false })
    } else if code == KEY_LEFTSHIFT || code == KEY_RIGHTSHIFT {
        Some(Mods { meta: false, ctrl: false, alt: false, shift: true })
    } else {
        None
    }
}

pub open spec fn spec_union(a: Mods, b: Mods) -> Mods {
    Mods { meta: a.meta || b.meta, ctrl: a.ctrl || b.ctrl, alt: a.alt || b.alt, shift: a.shift || b.shift }
}

/// Both sets of modifiers at once.
pub fn union(a: Mods, b: Mods) -> (m: Mods)
    ensures
        m == spec_union(a, b),
{
    Mods { meta: a.meta || b.meta, ctrl: a.ctrl || b.ctrl, alt: a.alt || b.alt, shift: a.shift || b.shift }
}

/// A class of input-event codes.
#[derive(Clone, Copy)]
pub enum CodeClass {
    Meta,
    Ctrl,
    Alt,
    Shift,
    Exactly(u16),
}

pub open spec fn in_class(class: CodeClass, code: u16) -> bool {
    match class {
        CodeClass::Meta => is_meta_code(code),
        CodeClass::Ctrl => is_ctrl_code(code),
        CodeClass::Alt => is_alt_code(code),
        CodeClass::Shift => is_shift_code(code),
        CodeClass::Exactly(c) => code == c,
    }
}

/// Whether some key of the class is down, on any device.
pub open spec fn some_down(down: Set<(usize, u16)>, class: CodeClass) -> bool {
    exists|e: (usize, u16)| #[trigger] down.contains(e) && in_class(class, e.1)
}

/// The modifiers that the keys down set, whichever side of the keyboard
/// and whichever device they are on.
pub open spec fn mods_held(down: Set<(usize, u16)>) -> Mods {
    Mods {
        meta: some_down(down, CodeClass::Meta),
        ctrl: some_down(down, CodeClass::Ctrl),
        alt: some_down(down, CodeClass::Alt),
        shift: some_down(down, CodeClass::Shift),
    }
}

/// Whether a key with input-event code `code` is down on any device.
pub open spec fn code_held(down: Set<(usize, u16)>, code: u16) -> bool {
    some_down(down, CodeClass::Exactly(code))
}

/// The chord is held: listening, bound to something, exactly its modifiers
/// down, and its ordinary key (if it has one) down.
pub open spec fn chord_holds(binding: Keybind, enabled: bool, down: Set<(usize, u16)>) -> bool {
    &&& enabled
    &&& !binding.spec_is_empty()
    &&& mods_held(down) == binding.mods
    &&& match binding.key {
        None => true,
        Some(k) => code_held(down, spec_evdev_code(k)),
    }
}

/// The edge that reports the held state changing to `held`.
pub open spec fn spec_edge(held: bool) -> HotkeyEvent {
    if held {
        HotkeyEvent::Pressed
    } else {
        HotkeyEvent::Released
    }
}

/// The abstract state of a chord watcher.
#[verifier::ext_equal]
pub struct ChordState {
    pub binding: Keybind,
    pub enabled: bool,
    pub down: Set<(usize, u16)>,
    pub active: bool,
}

impl ChordState {
    pub open spec fn holds(self) -> bool {
        chord_holds(self.binding, self.enabled, self.down)
    }

    /// What was last reported agrees with what is held.
    pub open spec fn settled(self) -> bool {
        self.active == self.holds()
    }

    pub open spec fn with_down(self, down: Set<(usize, u16)>) -> ChordState {
        ChordState { binding: self.binding, enabled: self.enabled, down, active: self.active }
    }
}

/// Report a press or release edge if the held state changed since the last
/// report.
pub open spec fn settle_spec(s: ChordState) -> (ChordState, Option<HotkeyEvent>) {
    let h = s.holds();
    if h == s.active {
        (s, None)
    } else {
        (ChordState { binding: s.binding, enabled: s.enabled, down: s.down, active: h }, Some(spec_edge(h)))
    }
}

/// A key event: 0 is a release, 1 a press, anything else auto-repeat.
pub open spec fn update_spec(s: ChordState, dev: usize, code: u16, value: i32) -> (ChordState, Option<HotkeyEvent>) {
    if value == 0 {
        settle_spec(s.with_down(s.down.remove((dev, code))))
    } else if value == 1 {
        settle_spec(s.with_down(s.down.insert((dev, code))))
    } else {
        (s, None)
    }
}

/// The keys down on any device but `dev`.
pub open spec fn without_device(down: Set<(usize, u16)>, dev: usize) -> Set<(usize, u16)> {
    down.filter(|e: (usize, u16)| e.0 != dev)
}

/// A device vanished: everything it held is forgotten.
pub open spec fn drop_device_spec(s: ChordState, dev: usize) -> (ChordState, Option<HotkeyEvent>) {
    settle_spec(s.with_down(without_device(s.down, dev)))
}

/// A new binding or switch, answered against the keys down now.
pub open spec fn configure_spec(s: ChordState, binding: Keybind, enabled: bool) -> (ChordState, Option<HotkeyEvent>) {
    if s.binding == binding && s.enabled == enabled {
        (s, None)
    } else {
        settle_spec(ChordState { binding, enabled, down: s.down, active: s.active })
    }
}

/// Everything needed to answer "is the chord held right now": what the chord
/// is, whether anything is listening, which keys are down, and what was last
/// reported.
pub struct Chord {
    pub binding: Keybind,
    /// A disabled chord is never held, however the keyboard is used.
    pub enabled: bool,
    /// Every key currently down, as `(device, code)`.
    pub down: Vec<(usize, u16)>,
    /// What was last reported, so only edges are reported.
    pub active: bool,
}

impl View for Chord {
    type V = ChordState;

    open spec fn view(&self) -> ChordState {
        ChordState {
            binding: self.binding,
            enabled: self.enabled,
            down: self.down@.to_set(),
            active: self.active,
        }
    }
}

proof fn lemma_some_down_seq(s: Seq<(usize, u16)>, class: CodeClass)
    ensures
        some_down(s.to_set(), class) <==> (exists|j: int| 0 <= j < s.len() && #[trigger] in_class(class, s[j].1)),
{
    if some_down(s.to_set(), class) {
        let e = choose|e: (usize, u16)| #[trigger] s.to_set().contains(e) && in_class(class, e.1);
        assert(s.contains(e));
        let j = choose|j: int| 0 <= j < s.len() && s[j] == e;
        assert(in_class(class, s[j].1));
    }
    if exists|j: int| 0 <= j < s.len() && #[trigger] in_class(class, s[j].1) {
        let j = choose|j: int| 0 <= j < s.len() && #[trigger] in_class(class, s[j].1);
        assert(s.to_set().contains(s[j]));
    }
}

proof fn lemma_filter_to_set(s: Seq<(usize, u16)>, p: spec_fn((usize, u16)) -> bool)
    ensures
        s.filter(p).to_set() =~= s.to_set().filter(p),
{
    assert forall|x: (usize, u16)| s.filter(p).to_set().contains(x) <==> s.to_set().filter(p).contains(x) by {
        if s.filter(p).contains(x) {
            s.lemma_filter_contains_rev(p, x);
            let j = choose|j: int| 0 <= j < s.filter(p).len() && s.filter(p)[j] == x;
            s.lemma_filter_pred(p, j);
        }
        if s.contains(x) && p(x) {
            let j = choose|j: int| 0 <= j < s.len() && s[j] == x;
            s.lemma_filter_contains(p, j);
        }
    }
}

/// Keep the entries of `down` that satisfy `p`.
fn retain_keys(down: &Vec<(usize, u16)>, Ghost(p): Ghost<spec_fn((usize, u16)) -> bool>, dev: usize, code: u16, whole_device: bool) -> (kept: Vec<(usize, u16)>)
    requires
        forall|e: (usize, u16)| #[trigger] p(e) == (if whole_device { e.0 != dev } else { e != (dev, code) }),
    ensures
        kept@.to_set() == down@.to_set().filter(p),
{
    let ghost s = down@;
    let mut kept: Vec<(usize, u16)> = Vec::new();
    let mut i: usize = 0;
    while i < down.len()
        invariant
            i <= down.len(),
            s == down@,
            kept@ == s.take(i as int).filter(p),
            forall|e: (usize, u16)| #[trigger] p(e) == (if whole_device { e.0 != dev } else { e != (dev, code) }),
        decreases down.len() - i,
    {
        let e = down[i];
        proof {
            s.lemma_take_succ_push(i as int);
            s.take(i as int).lemma_filter_push(e, p);
        }
        let keep = if whole_device { e.0 != dev } else { e.0 != dev || e.1 != code };
        if keep {
            kept.push(e);
        }
        i += 1;
    }
    proof {
        s.lemma_take_len();
        lemma_filter_to_set(s, p);
    }
    kept
}

impl Chord {
    pub fn new(binding: Keybind, enabled: bool) -> (c: Chord)
        ensures
            c@ == (ChordState { binding, enabled, down: Set::empty(), active: false }),
    {
        let c = Chord { binding, enabled, down: Vec::new(), active: false };
        assert(c@.down =~= Set::empty());
        c
    }

    /// Whether the configured chord is held, given what is down.
    pub fn holds(&self) -> (r: bool)
        ensures
            r == self@.holds(),
    {
        if !self.enabled || self.binding.is_empty() {
            return false;
        }
        let ghost s = self.down@;
        let mut held = Mods::none();
        let mut i: usize = 0;
        while i < self.down.len()
            invariant
                i <= self.down.len(),
                s == self.down@,
                held.meta == (exists|j: int| 0 <= j < i && #[trigger] in_class(CodeClass::Meta, s[j].1)),
                held.ctrl == (exists|j: int| 0 <= j < i && #[trigger] in_class(CodeClass::Ctrl, s[j].1)),
                held.alt == (exists|j: int| 0 <= j < i && #[trigger] in_class(CodeClass::Alt, s[j].1)),
                held.shift == (exists|j: int| 0 <= j < i && #[trigger] in_class(CodeClass::Shift, s[j].1)),
            decreases self.down.len() - i,
        {
            let code = self.down[i].1;
            match modifier_of(code) {
                Some(m) => {
                    held = union(held, m);
                },
                None => {},
            }
            proof {
                assert(in_class(CodeClass::Meta, s[i as int].1) == is_meta_code(code));
                assert(in_class(CodeClass::Ctrl, s[i as int].1) == is_ctrl_code(code));
                assert(in_class(CodeClass::Alt, s[i as int].1) == is_alt_code(code));
                assert(in_class(CodeClass::Shift, s[i as int].1) == is_shift_code(code));
            }
            i += 1;
        }
        proof {
            lemma_some_down_seq(s, CodeClass::Meta);
            lemma_some_down_seq(s, CodeClass::Ctrl);
            lemma_some_down_seq(s, CodeClass::Alt);
            lemma_some_down_seq(s, CodeClass::Shift);
            assert(held == mods_held(self@.down));
        }
        if held != self.binding.mods {
            return false;
        }
        match self.binding.key {
            None => true,
            Some(key) => {
                let wanted = evdev_code(key);
                let mut k: usize = 0;
                while k < self.down.len()
                    invariant
                        k <= self.down.len(),
                        s == self.down@,
                        forall|j: int| 0 <= j < k ==> !#[trigger] in_class(CodeClass::Exactly(wanted), s[j].1),
                        held == self.binding.mods,
                        held == mods_held(self@.down),
                        wanted == spec_evdev_code(key),
                        self.binding.key == Some(key),
                        self.enabled,
                        !self.binding.spec_is_empty(),
                    decreases self.down.len() - k,
                {
                    if self.down[k].1 == wanted {
                        proof {
                            lemma_some_down_seq(s, CodeClass::Exactly(wanted));
                            assert(in_class(CodeClass::Exactly(wanted), s[k as int].1));
                        }
                        return true;
                    }
                    k += 1;
                }
                proof {
                    lemma_some_down_seq(s, CodeClass::Exactly(wanted));
                }
                false
            },
        }
    }

    /// Report a press or release edge, if this changed one.
    pub fn settle(&mut self) -> (edge: Option<HotkeyEvent>)
        ensures
            final(self)@ == settle_spec(old(self)@).0,
            edge == settle_spec(old(self)@).1,
    {
        let holds = self.holds();
        if holds == self.active {
            return None;
        }
        self.active = holds;
        Some(if holds { HotkeyEvent::Pressed } else { HotkeyEvent::Released })
    }

    fn remove_key(&mut self, dev: usize, code: u16)
        ensures
            final(self).binding == old(self).binding,
            final(self).enabled == old(self).enabled,
            final(self).active == old(self).active,
            final(self)@.down == old(self)@.down.remove((dev, code)),
    {
        let ghost p = |e: (usize, u16)| e != (dev, code);
        let kept = retain_keys(&self.down, Ghost(p), dev, code, false);
        proof {
            assert(kept@.to_set() =~= self.down@.to_set().remove((dev, code)));
        }
        self.down = kept;
    }

    fn insert_key(&mut self, dev: usize, code: u16)
        ensures
            final(self).binding == old(self).binding,
            final(self).enabled == old(self).enabled,
            final(self).active == old(self).active,
            final(self)@.down == old(self)@.down.insert((dev, code)),
    {
        let ghost s = self.down@;
        let mut i: usize = 0;
        while i < self.down.len()
            invariant
                i <= self.down.len(),
                s == self.down@,
                forall|j: int| 0 <= j < i ==> s[j] != (dev, code),
            decreases self.down.len() - i,
        {
            let e = self.down[i];
            if e.0 == dev && e.1 == code {
                proof {
                    assert(s.to_set().contains(s[i as int]));
                    assert(s.to_set().insert((dev, code)) =~= s.to_set());
                }
                return;
            }
            i += 1;
        }
        self.down.push((dev, code));
        proof {
            s.lemma_push_to_set_commute((dev, code));
        }
    }

    /// A key event from device `dev`: `value` 0 is a release, 1 a press, and
    /// anything else is auto-repeat, which changes nothing.
    pub fn update(&mut self, dev: usize, code: u16, value: i32) -> (edge: Option<HotkeyEvent>)
        ensures
            final(self)@ == update_spec(old(self)@, dev, code, value).0,
            edge == update_spec(old(self)@, dev, code, value).1,
    {
        if value == 0 {
            self.remove_key(dev, code);
        } else if value == 1 {
            self.insert_key(dev, code);
        } else {
            return None;
        }
        self.settle()
    }

    /// Forget everything a vanished device was holding.
    pub fn drop_device(&mut self, dev: usize) -> (edge: Option<HotkeyEvent>)
        ensures
            final(self)@ == drop_device_spec(old(self)@, dev).0,
            edge == drop_device_spec(old(self)@, dev).1,
    {
        let ghost p = |e: (usize, u16)| e.0 != dev;
        let kept = retain_keys(&self.down, Ghost(p), dev, 0, true);
        proof {
            assert(kept@.to_set() =~= without_device(self.down@.to_set(), dev));
        }
        self.down = kept;
        self.settle()
    }
}

/// The running chord watcher's decisions, and the handle that rebinds it.
///
/// Key events and device losses are fed in; each call answers with the edge
/// to report, if there is one.
pub struct Hotkeys {
    chord: Chord,
}

impl View for Hotkeys {
    type V = ChordState;

    closed spec fn view(&self) -> ChordState {
        self.chord@
    }
}

impl Hotkeys {
    /// Listen for `binding` (or not, if `enabled` is false) with no key down.
    pub fn new(binding: Keybind, enabled: bool) -> (h: Hotkeys)
        ensures
            h@ == (ChordState { binding, enabled, down: Set::empty(), active: false }),
    {
        Hotkeys { chord: Chord::new(binding, enabled) }
    }

    /// Listen for a different chord, or stop listening.
    ///
    /// Takes effect against the keys that are down now: switching off while
    /// the chord is held reports a release, and binding a chord the user is
    /// already holding reports a press.
    pub fn configure(&mut self, binding: Keybind, enabled: bool) -> (edge: Option<HotkeyEvent>)
        ensures
            final(self)@ == configure_spec(old(self)@, binding, enabled).0,
            edge == configure_spec(old(self)@, binding, enabled).1,
    {
        if self.chord.binding == binding && self.chord.enabled == enabled {
            return None;
        }
        self.chord.binding = binding;
        self.chord.enabled = enabled;
        self.chord.settle()
    }

    /// A key event from device `dev`.
    pub fn key_event(&mut self, dev: usize, code: u16, value: i32) -> (edge: Option<HotkeyEvent>)
        ensures
            final(self)@ == update_spec(old(self)@, dev, code, value).0,
            edge == update_spec(old(self)@, dev, code, value).1,
    {
        self.chord.update(dev, code, value)
    }

    /// Device `dev` is gone.
    pub fn device_gone(&mut self, dev: usize) -> (edge: Option<HotkeyEvent>)
        ensures
            final(self)@ == drop_device_spec(old(self)@, dev).0,
            edge == drop_device_spec(old(self)@, dev).1,
    {
        self.chord.drop_device(dev)
    }

    /// The binding currently listened for.
    pub fn binding(&self) -> (b: Keybind)
        ensures
            b == self@.binding,
    {
        self.chord.binding
    }

    /// Whether the watcher is listening at all.
    pub fn enabled(&self) -> (e: bool)
        ensures
            e == self@.enabled,
    {
        self.chord.enabled
    }
}


/// No bindable key is a modifier key, and no two bindable keys share a code.
pub proof fn lemma_bindable_codes_distinct(a: KeyCode, b: KeyCode)
    ensures
        !is_modifier_code(spec_evdev_code(a)),
        spec_modifier_of(spec_evdev_code(a)) is None,
        spec_evdev_code(a) == spec_evdev_code(b) ==> a == b,
{
    lemma_key_for_code_inverts(a);
    lemma_key_for_code_inverts(b);
}

/// After a settle the watcher agrees with the keyboard, and a second settle
/// reports nothing: each change is reported exactly once.
pub proof fn lemma_settle_reports_once(s: ChordState)
    ensures
        settle_spec(s).0.settled(),
        settle_spec(settle_spec(s).0).1 is None,
        settle_spec(settle_spec(s).0).0 == settle_spec(s).0,
{
}

/// Reported edges alternate: a press is only reported from released to held,
/// a release only from held to released, and nothing else changes the report.
pub proof fn lemma_edges_alternate(s: ChordState, dev: usize, code: u16, value: i32, binding: Keybind, enabled: bool)
    ensures
        ({
            let (t, e) = update_spec(s, dev, code, value);
            &&& (e == Some(HotkeyEvent::Pressed) <==> (!s.active && t.active))
            &&& (e == Some(HotkeyEvent::Released) <==> (s.active && !t.active))
        }),
        ({
            let (t, e) = drop_device_spec(s, dev);
            &&& (e == Some(HotkeyEvent::Pressed) <==> (!s.active && t.active))
            &&& (e == Some(HotkeyEvent::Released) <==> (s.active && !t.active))
        }),
        ({
            let (t, e) = configure_spec(s, binding, enabled);
            &&& (e == Some(HotkeyEvent::Pressed) <==> (!s.active && t.active))
            &&& (e == Some(HotkeyEvent::Released) <==> (s.active && !t.active))
        }),
{
}

/// A settled watcher stays settled through every operation.
pub proof fn lemma_operations_keep_settled(s: ChordState, dev: usize, code: u16, value: i32, binding: Keybind, enabled: bool)
    requires
        s.settled(),
    ensures
        update_spec(s, dev, code, value).0.settled(),
        drop_device_spec(s, dev).0.settled(),
        configure_spec(s, binding, enabled).0.settled(),
{
}

/// Auto-repeat (any value but 0 and 1) changes nothing and reports nothing.
pub proof fn lemma_auto_repeat_is_silent(s: ChordState, dev: usize, code: u16, value: i32)
    requires
        value != 0,
        value != 1,
    ensures
        update_spec(s, dev, code, value) == (s, Option::<HotkeyEvent>::None),
{
}

/// A disabled watcher never holds, and neither does a binding to nothing.
pub proof fn lemma_off_or_unbound_never_holds(binding: Keybind, enabled: bool, down: Set<(usize, u16)>)
    requires
        !enabled || binding.spec_is_empty(),
    ensures
        !chord_holds(binding, enabled, down),
{
}

/// Modifiers match exactly: a modifier key down that the binding does not
/// name means the chord is not held.
pub proof fn lemma_extra_modifier_is_another_chord(binding: Keybind, enabled: bool, down: Set<(usize, u16)>, e: (usize, u16))
    requires
        down.contains(e),
        spec_modifier_of(e.1) is Some,
        spec_union(binding.mods, spec_modifier_of(e.1)->0) != binding.mods,
    ensures
        !chord_holds(binding, enabled, down),
{
    assert(in_class(CodeClass::Meta, e.1) == is_meta_code(e.1));
    assert(in_class(CodeClass::Ctrl, e.1) == is_ctrl_code(e.1));
    assert(in_class(CodeClass::Alt, e.1) == is_alt_code(e.1));
    assert(in_class(CodeClass::Shift, e.1) == is_shift_code(e.1));
}

/// An ordinary key struck while the chord is held does not break it: pressing
/// any non-modifier key, or releasing one that is not the chord's own key,
/// leaves the chord held.
pub proof fn lemma_unrelated_key_keeps_chord(s: ChordState, dev: usize, code: u16, value: i32)
    requires
        s.holds(),
        !is_modifier_code(code),
        value == 1 || (value == 0 && (s.binding.key matches Some(k) ==> code != spec_evdev_code(k))),
    ensures
        update_spec(s, dev, code, value).0.holds(),
{
    let down2 = if value == 0 { s.down.remove((dev, code)) } else { s.down.insert((dev, code)) };
    assert forall|c: CodeClass| c !is Exactly implies (some_down(down2, c) == some_down(s.down, c)) by {
        {
            if some_down(s.down, c) {
                let e = choose|e: (usize, u16)| #[trigger] s.down.contains(e) && in_class(c, e.1);
                assert(down2.contains(e));
            }
            if some_down(down2, c) {
                let e = choose|e: (usize, u16)| #[trigger] down2.contains(e) && in_class(c, e.1);
                assert(s.down.contains(e));
            }
        }
    }
    assert(mods_held(down2) == mods_held(s.down));
    if let Some(k) = s.binding.key {
        let wanted = spec_evdev_code(k);
        let e = choose|e: (usize, u16)| #[trigger] s.down.contains(e) && in_class(CodeClass::Exactly(wanted), e.1);
        if value == 0 {
            assert(down2.contains(e));
        } else {
            assert(down2.contains(e));
        }
    }
}

/// A vanished device holds nothing afterwards, and every other device keeps
/// exactly what it held.
pub proof fn lemma_dropped_device_holds_nothing(s: ChordState, dev: usize)
    ensures
        forall|e: (usize, u16)| #[trigger] drop_device_spec(s, dev).0.down.contains(e) <==> (s.down.contains(e) && e.0 != dev),
{
}

/// A rebinding is answered against the keys down at the time, exactly as if
/// they had just been pressed.
pub proof fn lemma_rebinding_answers_now(s: ChordState, binding: Keybind, enabled: bool)
    requires
        s.binding != binding || s.enabled != enabled,
    ensures
        configure_spec(s, binding, enabled).0.active == chord_holds(binding, enabled, s.down),
        configure_spec(s, binding, enabled).0.down == s.down,
{
}

/// The evdev codes a keyboard has: letters at both ends and a space bar.
pub const KEY_A: u16 = 30;
pub const KEY_Z: u16 = 44;
pub const KEY_SPACE: u16 = 57;

/// Whether a device with these supported key codes is the kind of thing a
/// person types a chord on.
///
/// Nothing about the chord itself is asked: the binding can change at any
/// time, and a keyboard that was uninteresting at scan time would otherwise
/// stay uninteresting after a rebinding onto one of its keys. It still keeps
/// out the mice, lid switches and power buttons that also live in
/// `/dev/input`.
pub fn is_keyboard(keys: &[u16]) -> (r: bool)
    ensures
        r == (keys@.contains(KEY_A) && keys@.contains(KEY_Z) && keys@.contains(KEY_SPACE)),
{
    let mut a = false;
    let mut z = false;
    let mut space = false;
    let mut i: usize = 0;
    while i < keys.len()
        invariant
            i <= keys@.len(),
            a == keys@.take(i as int).contains(KEY_A),
            z == keys@.take(i as int).contains(KEY_Z),
            space == keys@.take(i as int).contains(KEY_SPACE),
        decreases keys@.len() - i,
    {
        let k = keys[i];
        proof {
            let before = keys@.take(i as int);
            let after = keys@.take(i + 1);
            assert(after =~= before.push(k));
            assert forall|c: u16| after.contains(c) <==> (before.contains(c) || c == k) by {
                if after.contains(c) {
                    let j = choose|j: int| 0 <= j < after.len() && after[j] == c;
                    if j < before.len() {
                        assert(before[j] == c);
                    }
                }
                if before.contains(c) {
                    let j = choose|j: int| 0 <= j < before.len() && before[j] == c;
                    assert(after[j] == c);
                }
                if c == k {
                    assert(after[i as int] == c);
                }
            }
        }
        a = a || k == KEY_A;
        z = z || k == KEY_Z;
        space = space || k == KEY_SPACE;
        i += 1;
    }
    proof {
        assert(keys@.take(keys@.len() as int) =~= keys@);
    }
    a && z && space
}

/// Whether a `/dev/input` entry is an event device.
pub fn is_event_node(name: &str) -> (r: bool)
    ensures
        r == (name@.len() >= 5 && name@.take(5) == "event"@),
{
    let ev = "event";
    proof {
        reveal_strlit("event");
    }
    if name.unicode_len() < 5 {
        return false;
    }
    let mut i: usize = 0;
    while i < 5
        invariant
            i <= 5,
            name@.len() >= 5,
            ev@ == "event"@,
            ev@.len() == 5,
            name@.take(i as int) == ev@.take(i as int),
        decreases 5 - i,
    {
        if name.get_char(i) != ev.get_char(i) {
            proof {
                assert(name@.take(5)[i as int] == name@[i as int]);
            }
            return false;
        }
        proof {
            assert(name@.take(i + 1) =~= name@.take(i as int).push(name@[i as int]));
            assert(ev@.take(i + 1) =~= ev@.take(i as int).push(ev@[i as int]));
        }
        i += 1;
    }
    proof {
        assert(ev@.take(5) =~= ev@);
    }
    true
}

/// Switching off while the chord is held reports a release, so nothing is
/// left recording forever.
pub proof fn lemma_switching_off_reports_release(s: ChordState, binding: Keybind)
    requires
        s.settled(),
        s.active,
    ensures
        configure_spec(s, binding, false).1 == Some(HotkeyEvent::Released),
        !configure_spec(s, binding, false).0.active,
{
}

} // verus!
