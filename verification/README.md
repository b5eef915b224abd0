# crowndictator

Push-to-talk dictation for Wayland: hold a chord, speak, release, and the
recording is transcribed locally and typed into the focused window.

The library in `src/` holds the daemon's logic with its contracts, proved
by Verus:

- `keys`, `binding_text`, `hotkey`: chords, their text form, and the watcher
  that turns key events from every keyboard into press and release edges.
- `settings`: the `input` section, what reading its file amounts to, and which
  later versions of it are delivered.
- `controller`: what each edge and each settings change asks of the recorder,
  the model, the typing tools and the overlay.
- `asr`: the model's files, its token list, the greedy token-and-duration
  decode, the transcript text, and the engine thread's decisions.
- `wav`, `audio`, `inject`, `state`, `waveform`: the WAV container, the
  microphone choice and recording cap, the typing tools' fallback order, the
  overlay's shared state and bar layout.
- `appearance`, `animation`, `icon`, `uikit`: the UI kit's enumerations, clock,
  icon-body reader and widget decisions.

`app/` is the program around it: devices, files, threads, the neural network
runtime, audio capture, floating-point signal processing and drawing.
`tests/` runs the library on concrete values.
