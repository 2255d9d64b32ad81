# sayall

The logic of SayAll, a bridge that turns a Xiaomi (or Google TV) Bluetooth
voice remote into a Windows input device: its buttons become shortcuts,
mouse actions and text, and its voice key drives the input method's
hold-to-talk hotkey. The library is written in Verus; its functions carry
contracts that Verus proves, except the few that call outside code, whose
contracts are trusted and say so in their doc comments.

Layout:

- `src/raw_input.rs`, `src/remote_profile.rs`: decoding Raw Input keyboard
  and HID reports into semantic button edges, per remote model.
- `src/button_gestures.rs`: single / double / long press recognition with
  auto-repeat, as a timer-driven state machine.
- `src/send_input.rs`, `src/hotkey.rs`: button mappings and their normal
  form, key-event plans for chords, mouse and text injection, virtual-key
  codes, chord validation and the voice hotkey setting.
- `src/presets.rs`, `src/app_profiles.rs`: mapping presets and the
  per-application overlay that switches them with the foreground program.
- `src/mapping_import.rs`: the size, format-version and normal-form checks
  on an exported mapping file before it replaces the saved mapping.
- `src/key_suppressor.rs`, `src/rc003_hook.rs`, `src/default_capture.rs`:
  the decisions of the voice-key suppressor, of the RC003 hook supervisor and
  of borrowing the default recording device.
- `src/ime_hotkey.rs`, `src/json.rs`: reading an input method's own voice
  hotkey from its configuration text (parsed by `serde_json`).
- `src/diagnostics.rs`, `src/platform_state.rs`, `src/log_fields.rs`,
  `src/theme.rs`: the privacy-preserving diagnostic report and the values
  written to the diagnostic log.
- `src/dsp.rs`, `src/text.rs`: integer audio stages and character helpers.
- `app/`: ordinary Rust around the library (file access, settings files,
  threads, serialisable and displayable copies of library types).
- `tests/`: behaviour tests run against the compiled library.

Not part of this library: the voice path itself (the ATVV control and audio
protocol, IMA/DVI ADPCM decoding, voice sessions and frame assembly), the
connection supervisor with its reconnect backoff, the daily usage
statistics, and the floating-point voice DSP (`app/voice_dsp.rs` holds only
that last piece, outside verification).
