//! Which microphone a recording opens, and how long a recording may grow.
//!
//! The device named in `input.ron` is used when it is connected. A name
//! that matches nothing falls back to the system default rather than
//! failing: the device is a USB microphone that is unplugged far more often
//! than it is a typo, and the name stays in the file so that it is used
//! again the moment the device is back.

use vstd::prelude::*;

use crate::binding_text::same_text;

verus! {

/// Samples per envelope point pushed to the visualizer: about 21 ms at
/// 48 kHz, so the overlay's history spans a little over a second.
pub const VIZ_BLOCK: usize = 1024;

/// Hard cap on a recording: five minutes at 48 kHz.
pub const MAX_SAMPLES: usize = 14400000;

/// The device a recording opens.
#[derive(Debug, Clone, Copy, PartialEq, Eq, Structural)]
pub enum InputChoice {
    /// The device at this position of the host's list.
    Listed(usize),
    /// The system's default input device.
    Default,
}

/// Why no device can be opened.
#[derive(Debug, Clone, Copy, PartialEq, Eq, Structural)]
pub enum InputError {
    /// No device was named and there is no default one.
    NoDefault,
    /// The named device is not connected and there is no default one.
    NotConnected,
}

pub open spec fn name_matches(name: Option<String>, wanted: Seq<char>) -> bool {
    match name {
        Some(n) => n@ == wanted,
        None => false,
    }
}

/// The device to record from, given the name wanted (`None`: the system
/// default), the names of the connected input devices (`None` for one whose
/// name could not be read) and whether there is a default device.
pub fn choose_input(wanted: Option<&str>, names: &Vec<Option<String>>, has_default: bool) -> (r: Result<
    InputChoice,
    InputError,
>)
    ensures
        match wanted {
            None => r == if has_default {
                Ok::<InputChoice, InputError>(InputChoice::Default)
            } else {
                Err::<InputChoice, InputError>(InputError::NoDefault)
            },
            Some(w) => match r {
                Ok(InputChoice::Listed(i)) => i < names@.len() && name_matches(names@[i as int], w@)
                    && forall|j: int| 0 <= j < i ==> !name_matches(#[trigger] names@[j], w@),
                Ok(InputChoice::Default) => has_default && forall|j: int|
                    0 <= j < names@.len() ==> !name_matches(#[trigger] names@[j], w@),
                Err(e) => e == InputError::NotConnected && !has_default && forall|j: int|
                    0 <= j < names@.len() ==> !name_matches(#[trigger] names@[j], w@),
            },
        },
{
    match wanted {
        None => if has_default {
            Ok(InputChoice::Default)
        } else {
            Err(InputError::NoDefault)
        },
        Some(w) => {
            let mut i: usize = 0;
            while i < names.len()
                invariant
                    i <= names@.len(),
                    wanted == Some(w),
                    forall|j: int| 0 <= j < i ==> !name_matches(#[trigger] names@[j], w@),
                decreases names@.len() - i,
            {
                match &names[i] {
                    Some(n) => {
                        if same_text(n.as_str(), w) {
                            proof {
                                assert(names@[i as int] == Some(*n));
                                assert(name_matches(names@[i as int], w@));
                            }
                            return Ok(InputChoice::Listed(i));
                        }
                    },
                    None => {},
                }
                i += 1;
            }
            if has_default {
                Ok(InputChoice::Default)
            } else {
                Err(InputError::NotConnected)
            }
        },
    }
}

/// Keep a captured sample unless the recording is already at its cap.
pub fn keep_sample<T>(buf: &mut Vec<T>, sample: T)
    ensures
        old(buf)@.len() < MAX_SAMPLES ==> final(buf)@ == old(buf)@.push(sample),
        old(buf)@.len() >= MAX_SAMPLES ==> final(buf)@ == old(buf)@,
{
    if buf.len() < MAX_SAMPLES {
        buf.push(sample);
    }
}

/// A recording never grows past its cap, however many samples arrive.
pub proof fn lemma_recording_is_capped(before: nat, kept: nat)
    requires
        before <= MAX_SAMPLES,
        kept == if before < MAX_SAMPLES { before + 1 } else { before },
    ensures
        kept <= MAX_SAMPLES,
{
}

} // verus!
