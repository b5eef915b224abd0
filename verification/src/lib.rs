//! Push-to-talk dictation: the chord watcher and its text form, the
//! controller's decisions, the speech recognizer's decode and token list,
//! the overlay's state, the small file formats the daemon reads, and the
//! decisions of the UI kit's widgets.

pub mod keys;
pub mod hotkey;
pub mod binding_text;
pub mod settings;
pub mod state;
pub mod controller;
pub mod wav;
pub mod appearance;
pub mod animation;
pub mod asr;
pub mod audio;
pub mod waveform;
pub mod inject;
pub mod icon;
pub mod uikit;
