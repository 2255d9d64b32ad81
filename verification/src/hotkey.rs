//! Keys and chords as Windows sees them: virtual-key codes, chord
//! validation, and the voice hotkey setting built on a chord.
use vstd::prelude::*;
use crate::send_input::{KeyChord, KeyCode};

verus! {

/// The Windows virtual-key code of each key.
pub open spec fn spec_virtual_key(k: KeyCode) -> u16 {
    match k {
        KeyCode::Backspace => 0x08,
        KeyCode::Tab => 0x09,
        KeyCode::Enter => 0x0D,
        KeyCode::Shift => 0x10,
        KeyCode::Control => 0x11,
        KeyCode::Alt => 0x12,
        KeyCode::Escape => 0x1B,
        KeyCode::Space => 0x20,
        KeyCode::PageUp => 0x21,
        KeyCode::PageDown => 0x22,
        KeyCode::End => 0x23,
        KeyCode::Home => 0x24,
        KeyCode::Left => 0x25,
        KeyCode::Up => 0x26,
        KeyCode::Right => 0x27,
        KeyCode::Down => 0x28,
        KeyCode::Insert => 0x2D,
        KeyCode::Delete => 0x2E,
        KeyCode::Digit0 => 0x30,
        KeyCode::Digit1 => 0x31,
        KeyCode::Digit2 => 0x32,
        KeyCode::Digit3 => 0x33,
        KeyCode::Digit4 => 0x34,
        KeyCode::Digit5 => 0x35,
        KeyCode::Digit6 => 0x36,
        KeyCode::Digit7 => 0x37,
        KeyCode::Digit8 => 0x38,
        KeyCode::Digit9 => 0x39,
        KeyCode::A => 0x41,
        KeyCode::B => 0x42,
        KeyCode::C => 0x43,
        KeyCode::D => 0x44,
        KeyCode::E => 0x45,
        KeyCode::F => 0x46,
        KeyCode::G => 0x47,
        KeyCode::H => 0x48,
        KeyCode::I => 0x49,
        KeyCode::J => 0x4A,
        KeyCode::K => 0x4B,
        KeyCode::L => 0x4C,
        KeyCode::M => 0x4D,
        KeyCode::N => 0x4E,
        KeyCode::O => 0x4F,
        KeyCode::P => 0x50,
        KeyCode::Q => 0x51,
        KeyCode::R => 0x52,
        KeyCode::S => 0x53,
        KeyCode::T => 0x54,
        KeyCode::U => 0x55,
        KeyCode::V => 0x56,
        KeyCode::W => 0x57,
        KeyCode::X => 0x58,
        KeyCode::Y => 0x59,
        KeyCode::Z => 0x5A,
        KeyCode::LeftWindows => 0x5B,
        KeyCode::RightWindows => 0x5C,
        KeyCode::Apps => 0x5D,
        KeyCode::F1 => 0x70,
        KeyCode::F2 => 0x71,
        KeyCode::F3 => 0x72,
        KeyCode::F4 => 0x73,
        KeyCode::F5 => 0x74,
        KeyCode::F6 => 0x75,
        KeyCode::F7 => 0x76,
        KeyCode::F8 => 0x77,
        KeyCode::F9 => 0x78,
        KeyCode::F10 => 0x79,
        KeyCode::F11 => 0x7A,
        KeyCode::F12 => 0x7B,
        KeyCode::LeftShift => 0xA0,
        KeyCode::RightShift => 0xA1,
        KeyCode::LeftControl => 0xA2,
        KeyCode::RightControl => 0xA3,
        KeyCode::LeftAlt => 0xA4,
        KeyCode::RightAlt => 0xA5,
        KeyCode::BrowserHome => 0xAC,
        KeyCode::VolumeMute => 0xAD,
        KeyCode::VolumeDown => 0xAE,
        KeyCode::VolumeUp => 0xAF,
    }
}

/// The key with virtual-key code `vk`, if it is one of ours.
pub open spec fn spec_from_virtual_key(vk: u16) -> Option<KeyCode> {
    match vk {
        0x08 => Some(KeyCode::Backspace),
        0x09 => Some(KeyCode::Tab),
        0x0D => Some(KeyCode::Enter),
        0x10 => Some(KeyCode::Shift),
        0x11 => Some(KeyCode::Control),
        0x12 => Some(KeyCode::Alt),
        0x1B => Some(KeyCode::Escape),
        0x20 => Some(KeyCode::Space),
        0x21 => Some(KeyCode::PageUp),
        0x22 => Some(KeyCode::PageDown),
        0x23 => Some(KeyCode::End),
        0x24 => Some(KeyCode::Home),
        0x25 => Some(KeyCode::Left),
        0x26 => Some(KeyCode::Up),
        0x27 => Some(KeyCode::Right),
        0x28 => Some(KeyCode::Down),
        0x2D => Some(KeyCode::Insert),
        0x2E => Some(KeyCode::Delete),
        0x30 => Some(KeyCode::Digit0),
        0x31 => Some(KeyCode::Digit1),
        0x32 => Some(KeyCode::Digit2),
        0x33 => Some(KeyCode::Digit3),
        0x34 => Some(KeyCode::Digit4),
        0x35 => Some(KeyCode::Digit5),
        0x36 => Some(KeyCode::Digit6),
        0x37 => Some(KeyCode::Digit7),
        0x38 => Some(KeyCode::Digit8),
        0x39 => Some(KeyCode::Digit9),
        0x41 => Some(KeyCode::A),
        0x42 => Some(KeyCode::B),
        0x43 => Some(KeyCode::C),
        0x44 => Some(KeyCode::D),
        0x45 => Some(KeyCode::E),
        0x46 => Some(KeyCode::F),
        0x47 => Some(KeyCode::G),
        0x48 => Some(KeyCode::H),
        0x49 => Some(KeyCode::I),
        0x4A => Some(KeyCode::J),
        0x4B => Some(KeyCode::K),
        0x4C => Some(KeyCode::L),
        0x4D => Some(KeyCode::M),
        0x4E => Some(KeyCode::N),
        0x4F => Some(KeyCode::O),
        0x50 => Some(KeyCode::P),
        0x51 => Some(KeyCode::Q),
        0x52 => Some(KeyCode::R),
        0x53 => Some(KeyCode::S),
        0x54 => Some(KeyCode::T),
        0x55 => Some(KeyCode::U),
        0x56 => Some(KeyCode::V),
        0x57 => Some(KeyCode::W),
        0x58 => Some(KeyCode::X),
        0x59 => Some(KeyCode::Y),
        0x5A => Some(KeyCode::Z),
        0x5B => Some(KeyCode::LeftWindows),
        0x5C => Some(KeyCode::RightWindows),
        0x5D => Some(KeyCode::Apps),
        0x70 => Some(KeyCode::F1),
        0x71 => Some(KeyCode::F2),
        0x72 => Some(KeyCode::F3),
        0x73 => Some(KeyCode::F4),
        0x74 => Some(KeyCode::F5),
        0x75 => Some(KeyCode::F6),
        0x76 => Some(KeyCode::F7),
        0x77 => Some(KeyCode::F8),
        0x78 => Some(KeyCode::F9),
        0x79 => Some(KeyCode::F10),
        0x7A => Some(KeyCode::F11),
        0x7B => Some(KeyCode::F12),
        0xA0 => Some(KeyCode::LeftShift),
        0xA1 => Some(KeyCode::RightShift),
        0xA2 => Some(KeyCode::LeftControl),
        0xA3 => Some(KeyCode::RightControl),
        0xA4 => Some(KeyCode::LeftAlt),
        0xA5 => Some(KeyCode::RightAlt),
        0xAC => Some(KeyCode::BrowserHome),
        0xAD => Some(KeyCode::VolumeMute),
        0xAE => Some(KeyCode::VolumeDown),
        0xAF => Some(KeyCode::VolumeUp),
        _ => None,
    }
}

/// Every key has a code, and that code names the key back.
pub proof fn lemma_virtual_key_roundtrip(k: KeyCode)
    ensures
        spec_from_virtual_key(spec_virtual_key(k)) == Some(k),
{
}

/// A code that names a key is that key's code.
pub proof fn lemma_from_virtual_key_exact(vk: u16)
    ensures
        spec_from_virtual_key(vk) matches Some(k) ==> spec_virtual_key(k) == vk,
{
}

impl KeyCode {
    /// The Windows virtual-key code of this key.
    pub fn virtual_key(self) -> (vk: u16)
        ensures
            vk == spec_virtual_key(self),
    {
        match self {
            KeyCode::Backspace => 0x08,
            KeyCode::Tab => 0x09,
            KeyCode::Enter => 0x0D,
            KeyCode::Shift => 0x10,
            KeyCode::Control => 0x11,
            KeyCode::Alt => 0x12,
            KeyCode::Escape => 0x1B,
            KeyCode::Space => 0x20,
            KeyCode::PageUp => 0x21,
            KeyCode::PageDown => 0x22,
            KeyCode::End => 0x23,
            KeyCode::Home => 0x24,
            KeyCode::Left => 0x25,
            KeyCode::Up => 0x26,
            KeyCode::Right => 0x27,
            KeyCode::Down => 0x28,
            KeyCode::Insert => 0x2D,
            KeyCode::Delete => 0x2E,
            KeyCode::Digit0 => 0x30,
            KeyCode::Digit1 => 0x31,
            KeyCode::Digit2 => 0x32,
            KeyCode::Digit3 => 0x33,
            KeyCode::Digit4 => 0x34,
            KeyCode::Digit5 => 0x35,
            KeyCode::Digit6 => 0x36,
            KeyCode::Digit7 => 0x37,
            KeyCode::Digit8 => 0x38,
            KeyCode::Digit9 => 0x39,
            KeyCode::A => 0x41,
            KeyCode::B => 0x42,
            KeyCode::C => 0x43,
            KeyCode::D => 0x44,
            KeyCode::E => 0x45,
            KeyCode::F => 0x46,
            KeyCode::G => 0x47,
            KeyCode::H => 0x48,
            KeyCode::I => 0x49,
            KeyCode::J => 0x4A,
            KeyCode::K => 0x4B,
            KeyCode::L => 0x4C,
            KeyCode::M => 0x4D,
            KeyCode::N => 0x4E,
            KeyCode::O => 0x4F,
            KeyCode::P => 0x50,
            KeyCode::Q => 0x51,
            KeyCode::R => 0x52,
            KeyCode::S => 0x53,
            KeyCode::T => 0x54,
            KeyCode::U => 0x55,
            KeyCode::V => 0x56,
            KeyCode::W => 0x57,
            KeyCode::X => 0x58,
            KeyCode::Y => 0x59,
            KeyCode::Z => 0x5A,
            KeyCode::LeftWindows => 0x5B,
            KeyCode::RightWindows => 0x5C,
            KeyCode::Apps => 0x5D,
            KeyCode::F1 => 0x70,
            KeyCode::F2 => 0x71,
            KeyCode::F3 => 0x72,
            KeyCode::F4 => 0x73,
            KeyCode::F5 => 0x74,
            KeyCode::F6 => 0x75,
            KeyCode::F7 => 0x76,
            KeyCode::F8 => 0x77,
            KeyCode::F9 => 0x78,
            KeyCode::F10 => 0x79,
            KeyCode::F11 => 0x7A,
            KeyCode::F12 => 0x7B,
            KeyCode::LeftShift => 0xA0,
            KeyCode::RightShift => 0xA1,
            KeyCode::LeftControl => 0xA2,
            KeyCode::RightControl => 0xA3,
            KeyCode::LeftAlt => 0xA4,
            KeyCode::RightAlt => 0xA5,
            KeyCode::BrowserHome => 0xAC,
            KeyCode::VolumeMute => 0xAD,
            KeyCode::VolumeDown => 0xAE,
            KeyCode::VolumeUp => 0xAF,
        }
    }

    /// The key with virtual-key code `vk`; `None` for codes of other keys.
    pub fn from_virtual_key(vk: u16) -> (k: Option<KeyCode>)
        ensures
            k == spec_from_virtual_key(vk),
    {
        match vk {
            0x08 => Some(KeyCode::Backspace),
            0x09 => Some(KeyCode::Tab),
            0x0D => Some(KeyCode::Enter),
            0x10 => Some(KeyCode::Shift),
            0x11 => Some(KeyCode::Control),
            0x12 => Some(KeyCode::Alt),
            0x1B => Some(KeyCode::Escape),
            0x20 => Some(KeyCode::Space),
            0x21 => Some(KeyCode::PageUp),
            0x22 => Some(KeyCode::PageDown),
            0x23 => Some(KeyCode::End),
            0x24 => Some(KeyCode::Home),
            0x25 => Some(KeyCode::Left),
            0x26 => Some(KeyCode::Up),
            0x27 => Some(KeyCode::Right),
            0x28 => Some(KeyCode::Down),
            0x2D => Some(KeyCode::Insert),
            0x2E => Some(KeyCode::Delete),
            0x30 => Some(KeyCode::Digit0),
            0x31 => Some(KeyCode::Digit1),
            0x32 => Some(KeyCode::Digit2),
            0x33 => Some(KeyCode::Digit3),
            0x34 => Some(KeyCode::Digit4),
            0x35 => Some(KeyCode::Digit5),
            0x36 => Some(KeyCode::Digit6),
            0x37 => Some(KeyCode::Digit7),
            0x38 => Some(KeyCode::Digit8),
            0x39 => Some(KeyCode::Digit9),
            0x41 => Some(KeyCode::A),
            0x42 => Some(KeyCode::B),
            0x43 => Some(KeyCode::C),
            0x44 => Some(KeyCode::D),
            0x45 => Some(KeyCode::E),
            0x46 => Some(KeyCode::F),
            0x47 => Some(KeyCode::G),
            0x48 => Some(KeyCode::H),
            0x49 => Some(KeyCode::I),
            0x4A => Some(KeyCode::J),
            0x4B => Some(KeyCode::K),
            0x4C => Some(KeyCode::L),
            0x4D => Some(KeyCode::M),
            0x4E => Some(KeyCode::N),
            0x4F => Some(KeyCode::O),
            0x50 => Some(KeyCode::P),
            0x51 => Some(KeyCode::Q),
            0x52 => Some(KeyCode::R),
            0x53 => Some(KeyCode::S),
            0x54 => Some(KeyCode::T),
            0x55 => Some(KeyCode::U),
            0x56 => Some(KeyCode::V),
            0x57 => Some(KeyCode::W),
            0x58 => Some(KeyCode::X),
            0x59 => Some(KeyCode::Y),
            0x5A => Some(KeyCode::Z),
            0x5B => Some(KeyCode::LeftWindows),
            0x5C => Some(KeyCode::RightWindows),
            0x5D => Some(KeyCode::Apps),
            0x70 => Some(KeyCode::F1),
            0x71 => Some(KeyCode::F2),
            0x72 => Some(KeyCode::F3),
            0x73 => Some(KeyCode::F4),
            0x74 => Some(KeyCode::F5),
            0x75 => Some(KeyCode::F6),
            0x76 => Some(KeyCode::F7),
            0x77 => Some(KeyCode::F8),
            0x78 => Some(KeyCode::F9),
            0x79 => Some(KeyCode::F10),
            0x7A => Some(KeyCode::F11),
            0x7B => Some(KeyCode::F12),
            0xA0 => Some(KeyCode::LeftShift),
            0xA1 => Some(KeyCode::RightShift),
            0xA2 => Some(KeyCode::LeftControl),
            0xA3 => Some(KeyCode::RightControl),
            0xA4 => Some(KeyCode::LeftAlt),
            0xA5 => Some(KeyCode::RightAlt),
            0xAC => Some(KeyCode::BrowserHome),
            0xAD => Some(KeyCode::VolumeMute),
            0xAE => Some(KeyCode::VolumeDown),
            0xAF => Some(KeyCode::VolumeUp),
            _ => None,
        }
    }
}

/// Why a chord cannot be injected.
#[derive(Debug, Clone, Copy, PartialEq, Eq, Structural)]
pub enum KeyChordError {
    /// No key at all.
    Empty,
    /// The same key listed twice.
    DuplicateKey { key: KeyCode },
}

/// No key occurs twice.
pub open spec fn distinct_keys(keys: Seq<KeyCode>) -> bool {
    forall|i: int, j: int| 0 <= i < j < keys.len() ==> keys[i] != keys[j]
}

/// The first key, in order, that already occurred earlier.
pub open spec fn first_repeat(keys: Seq<KeyCode>) -> int
    decreases keys.len(),
{
    if keys.len() == 0 {
        -1
    } else if first_repeat(keys.drop_last()) >= 0 {
        first_repeat(keys.drop_last())
    } else if keys.drop_last().contains(keys.last()) {
        keys.len() - 1
    } else {
        -1
    }
}

proof fn lemma_first_repeat(keys: Seq<KeyCode>)
    ensures
        -1 <= first_repeat(keys) < keys.len(),
        first_repeat(keys) == -1 <==> distinct_keys(keys),
        first_repeat(keys) >= 0 ==> distinct_keys(keys.subrange(0, first_repeat(keys)))
            && keys.subrange(0, first_repeat(keys)).contains(keys[first_repeat(keys)]),
    decreases keys.len(),
{
    if keys.len() > 0 {
        let init = keys.drop_last();
        lemma_first_repeat(init);
        if first_repeat(init) >= 0 {
            let r = first_repeat(init);
            assert(init.subrange(0, r) =~= keys.subrange(0, r));
            assert(!distinct_keys(keys)) by {
                let j = choose|j: int| 0 <= j < r && init.subrange(0, r)[j] == init[r];
                assert(keys[j] == keys[r]);
            }
        } else if init.contains(keys.last()) {
            assert(keys.subrange(0, keys.len() - 1) =~= init);
            assert(!distinct_keys(keys)) by {
                let j = choose|j: int| 0 <= j < init.len() && init[j] == keys.last();
                assert(keys[j] == keys[keys.len() - 1]);
            }
        } else {
            assert forall|i: int, j: int| 0 <= i < j < keys.len() implies keys[i] != keys[j] by {
                if j == keys.len() - 1 {
                    assert(init[i] == keys[i]);
                } else {
                    assert(init[i] == keys[i] && init[j] == keys[j]);
                }
            }
        }
    }
}

/// What `validated` answers for a chord with these keys.
pub open spec fn spec_validated(keys: Seq<KeyCode>) -> Result<Seq<KeyCode>, KeyChordError> {
    if keys.len() == 0 {
        Err(KeyChordError::Empty)
    } else if first_repeat(keys) >= 0 {
        Err(KeyChordError::DuplicateKey { key: keys[first_repeat(keys)] })
    } else {
        Ok(keys)
    }
}

/// A chord passes validation exactly when it has a key and no key twice; a
/// duplicate is reported with a key that occurs twice.
pub proof fn lemma_validated_chords_are_distinct(keys: Seq<KeyCode>)
    ensures
        spec_validated(keys) is Ok <==> (keys.len() > 0 && distinct_keys(keys)),
        spec_validated(keys) matches Ok(k) ==> k == keys,
        spec_validated(keys) matches Err(KeyChordError::DuplicateKey { key }) ==> exists|i: int, j: int|
            0 <= i < j < keys.len() && keys[i] == key && keys[j] == key,
{
    lemma_first_repeat(keys);
    if keys.len() > 0 && first_repeat(keys) >= 0 {
        let r = first_repeat(keys);
        let i = choose|i: int| 0 <= i < r && keys.subrange(0, r)[i] == keys[r];
        assert(keys[i] == keys[r]);
    }
}

pub open spec fn chord_result_view(r: Result<KeyChord, KeyChordError>) -> Result<
    Seq<KeyCode>,
    KeyChordError,
> {
    match r {
        Ok(c) => Ok(c.keys@),
        Err(e) => Err(e),
    }
}

fn contains_key(keys: &Vec<KeyCode>, end: usize, key: KeyCode) -> (b: bool)
    requires
        end <= keys@.len(),
    ensures
        b == keys@.subrange(0, end as int).contains(key),
{
    let mut i: usize = 0;
    while i < end
        invariant
            end <= keys@.len(),
            i <= end,
            forall|k: int| 0 <= k < i ==> keys@[k] != key,
        decreases end - i,
    {
        if keys[i] == key {
            assert(keys@.subrange(0, end as int)[i as int] == key);
            return true;
        }
        i = i + 1;
    }
    assert forall|k: int| 0 <= k < end implies keys@.subrange(0, end as int)[k] != key by {
        assert(keys@.subrange(0, end as int)[k] == keys@[k]);
    }
    false
}

impl KeyChordError {
    /// The message shown for this error.
    pub fn message(&self) -> (s: String)
        ensures
            s@ == spec_chord_error_message(*self),
    {
        match self {
            KeyChordError::Empty => String::from_str("快捷键不能为空"),
            KeyChordError::DuplicateKey { .. } => String::from_str("快捷键包含重复的按键"),
        }
    }
}

pub open spec fn spec_chord_error_message(e: KeyChordError) -> Seq<char> {
    match e {
        KeyChordError::Empty => "快捷键不能为空"@,
        KeyChordError::DuplicateKey { .. } => "快捷键包含重复的按键"@,
    }
}

/// The first problem that keeps a chord with these keys from being
/// injected, `None` when it has none.
pub fn chord_problem(keys: &Vec<KeyCode>) -> (r: Option<KeyChordError>)
    ensures
        r == match spec_validated(keys@) {
            Ok(_) => None,
            Err(e) => Some(e),
        },
{
    if keys.len() == 0 {
        return Some(KeyChordError::Empty);
    }
    let n = keys.len();
    let mut i: usize = 0;
    while i < n
        invariant
            n == keys@.len() > 0,
            i <= n,
            first_repeat(keys@.subrange(0, i as int)) == -1,
        decreases n - i,
    {
        let ghost pre = keys@.subrange(0, i + 1);
        assert(pre.drop_last() =~= keys@.subrange(0, i as int));
        if contains_key(keys, i, keys[i]) {
            proof {
                lemma_first_repeat_prefix(keys@, i as int + 1);
            }
            return Some(KeyChordError::DuplicateKey { key: keys[i] });
        }
        i = i + 1;
    }
    assert(keys@.subrange(0, n as int) =~= keys@);
    None
}

impl KeyChord {
    /// The chord itself when it can be injected: at least one key and no key
    /// twice. Otherwise the first problem found.
    pub fn validated(self) -> (r: Result<KeyChord, KeyChordError>)
        ensures
            chord_result_view(r) == spec_validated(self.keys@),
            r matches Ok(c) ==> c == self,
    {
        match chord_problem(&self.keys) {
            Some(e) => Err(e),
            None => Ok(self),
        }
    }
}

/// Once a prefix holds a repeat, the first repeat of the whole is the same.
proof fn lemma_first_repeat_prefix(keys: Seq<KeyCode>, n: int)
    requires
        0 <= n <= keys.len(),
        first_repeat(keys.subrange(0, n)) >= 0,
    ensures
        first_repeat(keys) == first_repeat(keys.subrange(0, n)),
    decreases keys.len() - n,
{
    if n < keys.len() {
        lemma_first_repeat_prefix_step(keys, n);
        lemma_first_repeat_prefix(keys, n + 1);
    } else {
        assert(keys.subrange(0, n) =~= keys);
    }
}

proof fn lemma_first_repeat_prefix_step(keys: Seq<KeyCode>, n: int)
    requires
        0 <= n < keys.len(),
        first_repeat(keys.subrange(0, n)) >= 0,
    ensures
        first_repeat(keys.subrange(0, n + 1)) == first_repeat(keys.subrange(0, n)),
{
    assert(keys.subrange(0, n + 1).drop_last() =~= keys.subrange(0, n));
}

/// How the voice hotkey is driven.
#[derive(Debug, Clone, Copy, PartialEq, Eq, Structural)]
pub enum VoiceHotkeyMode {
    /// Held down for as long as the voice key is held.
    Hold,
    /// Tapped once at the start and once at the end.
    Toggle,
}

/// The chord the voice key injects, how, and whether the WeType input
/// method is activated for the session.
#[derive(Debug, Clone, PartialEq, Eq)]
pub struct VoiceHotkeySettings {
    pub chord: Option<KeyChord>,
    pub mode: VoiceHotkeyMode,
    pub activate_wetype: bool,
}

pub open spec fn chord_keys(c: Option<KeyChord>) -> Option<Seq<KeyCode>> {
    match c {
        Some(c) => Some(c.keys@),
        None => None,
    }
}

impl VoiceHotkeySettings {
    /// No voice hotkey.
    pub fn disabled() -> (s: Self)
        ensures
            s.chord is None,
            s.mode == VoiceHotkeyMode::Hold,
            !s.activate_wetype,
    {
        VoiceHotkeySettings { chord: None, mode: VoiceHotkeyMode::Hold, activate_wetype: false }
    }

    /// A hold-to-talk shortcut read from an input method's own settings; the
    /// WeType activation only concerns WeType and stays off.
    pub fn from_ime(chord: KeyChord) -> (s: Self)
        ensures
            chord_keys(s.chord) == Some(chord.keys@),
            s.mode == VoiceHotkeyMode::Hold,
            !s.activate_wetype,
    {
        VoiceHotkeySettings { chord: Some(chord), mode: VoiceHotkeyMode::Hold, activate_wetype: false }
    }

    pub fn is_enabled(&self) -> (b: bool)
        ensures
            b == self.chord is Some,
    {
        self.chord.is_some()
    }

    /// Number of keys in the chord, 0 when disabled.
    pub fn key_count(&self) -> (n: usize)
        ensures
            n == match chord_keys(self.chord) {
                Some(k) => k.len(),
                None => 0,
            },
    {
        match &self.chord {
            Some(c) => c.keys.len(),
            None => 0,
        }
    }

    /// The settings when their chord (if any) passes `KeyChord::validated`.
    pub fn validated(self) -> (r: Result<VoiceHotkeySettings, KeyChordError>)
        ensures
            match chord_keys(self.chord) {
                None => r == Ok::<VoiceHotkeySettings, KeyChordError>(self),
                Some(k) => match spec_validated(k) {
                    Ok(_) => r == Ok::<VoiceHotkeySettings, KeyChordError>(self),
                    Err(e) => r == Err::<VoiceHotkeySettings, KeyChordError>(e),
                },
            },
    {
        let VoiceHotkeySettings { chord, mode, activate_wetype } = self;
        match chord {
            None => Ok(VoiceHotkeySettings { chord: None, mode, activate_wetype }),
            Some(c) => match c.validated() {
                Ok(c) => Ok(VoiceHotkeySettings { chord: Some(c), mode, activate_wetype }),
                Err(e) => Err(e),
            },
        }
    }
}

/// The voice hotkey of a first start: left Ctrl + left Win held to talk
/// (WeType's own default), with WeType activated for the session.
pub fn default_voice_hold_hotkey() -> (s: VoiceHotkeySettings)
    ensures
        chord_keys(s.chord) == Some(seq![KeyCode::LeftControl, KeyCode::LeftWindows]),
        s.mode == VoiceHotkeyMode::Hold,
        s.activate_wetype,
{
    let keys = vec![KeyCode::LeftControl, KeyCode::LeftWindows];
    VoiceHotkeySettings {
        chord: Some(KeyChord { keys }),
        mode: VoiceHotkeyMode::Hold,
        activate_wetype: true,
    }
}

} // verus!
