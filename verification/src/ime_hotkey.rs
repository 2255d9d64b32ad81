//! Reading the hold-to-talk voice hotkey that an input method keeps in its
//! own configuration file, so that this application and the input method
//! agree on it. Read only; when it cannot be read the reason is reported,
//! no default is guessed. Finding and reading the file is done by the
//! caller; this module parses and interprets its text.
use vstd::prelude::*;
use crate::hotkey::{spec_chord_error_message, spec_from_virtual_key, spec_validated};
use crate::json::{json_parse, parse_json, spec_as_u64, spec_get, spec_get_in, JsonValue};
use crate::send_input::{KeyChord, KeyCode};
use crate::text::{
    chars_of, decimal, lower_chars, lower_seq, push_decimal, same_chars, skip_leading,
    trim_start_char,
};

verus! {

/// Input methods whose voice hotkey can be read.
#[derive(Debug, Clone, Copy, PartialEq, Eq, Structural)]
pub enum ImeTool {
    Sogou,
    Doubao,
}

pub open spec fn spec_display_name(tool: ImeTool) -> Seq<char> {
    match tool {
        ImeTool::Sogou => "搜狗语音输入"@,
        ImeTool::Doubao => "豆包输入法"@,
    }
}

/// Path of the configuration file below `%APPDATA%`, one component each.
pub open spec fn spec_config_path(tool: ImeTool) -> Seq<Seq<char>> {
    match tool {
        ImeTool::Sogou => seq!["sogou_voice_assistant_pc"@, "config.json"@],
        ImeTool::Doubao => seq!["DoubaoIme"@, "conf"@, "config.json"@],
    }
}

pub open spec fn string_views(v: Seq<String>) -> Seq<Seq<char>> {
    v.map_values(|s: String| s@)
}

impl ImeTool {
    pub fn display_name(self) -> (s: &'static str)
        ensures
            s@ == spec_display_name(self),
    {
        match self {
            ImeTool::Sogou => "搜狗语音输入",
            ImeTool::Doubao => "豆包输入法",
        }
    }

    /// The configuration file's path relative to `%APPDATA%`, as path
    /// components.
    pub fn config_relative_path(self) -> (parts: Vec<String>)
        ensures
            string_views(parts@) == spec_config_path(self),
    {
        let parts = match self {
            ImeTool::Sogou => vec![
                String::from_str("sogou_voice_assistant_pc"),
                String::from_str("config.json"),
            ],
            ImeTool::Doubao => vec![
                String::from_str("DoubaoIme"),
                String::from_str("conf"),
                String::from_str("config.json"),
            ],
        };
        assert(string_views(parts@) =~= spec_config_path(self));
        parts
    }
}

/// Why a hotkey could not be read.
#[derive(Debug, Clone, PartialEq, Eq)]
pub enum DetectError {
    /// The input method's configuration file does not exist.
    NotFound(&'static str),
    /// The file exists but could not be read or understood.
    ReadFailed { tool: &'static str, reason: String },
}

impl DetectError {
    /// The message shown for this error.
    pub fn message(&self) -> (s: String)
        ensures
            s@ == match *self {
                DetectError::NotFound(tool) => "没有找到"@ + tool@ + "的配置文件，可能没装或还没设置过语音热键"@,
                DetectError::ReadFailed { tool, reason } => "读取"@ + tool@ + "的配置失败："@ + reason@,
            },
    {
        match self {
            DetectError::NotFound(tool) => {
                let mut s = String::from_str("没有找到");
                s.append(tool);
                s.append("的配置文件，可能没装或还没设置过语音热键");
                s
            },
            DetectError::ReadFailed { tool, reason } => {
                let mut s = String::from_str("读取");
                s.append(tool);
                s.append("的配置失败：");
                s.append(reason.as_str());
                s
            },
        }
    }
}

/// What reading an input method's configuration file gave.
#[derive(Debug)]
pub enum ConfigRead {
    /// There is no such file.
    Missing,
    /// The file could not be read; the I/O error's text.
    Unreadable(String),
    /// The file is not JSON; the parser's error text.
    Malformed(String),
    /// The parsed document.
    Document(JsonValue),
}

pub open spec fn malformed_message(error: Seq<char>) -> Seq<char> {
    "配置不是合法 JSON："@ + error
}

/// The reason given for a file that is not JSON.
pub fn malformed_json_message(error: &str) -> (s: String)
    ensures
        s@ == malformed_message(error@),
{
    let mut s = String::from_str("配置不是合法 JSON：");
    s.append(error);
    s
}

pub open spec fn message_result_view(r: Result<KeyChord, String>) -> Result<Seq<KeyCode>, Seq<char>> {
    match r {
        Ok(c) => Ok(c.keys@),
        Err(s) => Err(s@),
    }
}

/// The chord of `keys` after `KeyChord::validated`, errors as their message.
pub open spec fn validated_keys(keys: Seq<KeyCode>) -> Result<Seq<KeyCode>, Seq<char>> {
    match spec_validated(keys) {
        Ok(k) => Ok(k),
        Err(e) => Err(spec_chord_error_message(e)),
    }
}

fn validated_chord(keys: Vec<KeyCode>) -> (r: Result<KeyChord, String>)
    ensures
        message_result_view(r) == validated_keys(keys@),
{
    match (KeyChord { keys }).validated() {
        Ok(c) => Ok(c),
        Err(e) => Err(e.message()),
    }
}

// ---- Sogou ----

/// Tokens Sogou writes for keys that are not a single letter, digit or
/// function key.
pub open spec fn sogou_special_token(t: Seq<char>) -> Option<KeyCode> {
    if t == "LeftCtrl"@ {
        Some(KeyCode::LeftControl)
    } else if t == "RightCtrl"@ {
        Some(KeyCode::RightControl)
    } else if t == "LeftShift"@ {
        Some(KeyCode::LeftShift)
    } else if t == "RightShift"@ {
        Some(KeyCode::RightShift)
    } else if t == "LeftAlt"@ {
        Some(KeyCode::LeftAlt)
    } else if t == "RightAlt"@ {
        Some(KeyCode::RightAlt)
    } else if t == "LeftMeta"@ {
        Some(KeyCode::LeftWindows)
    } else if t == "RightMeta"@ {
        Some(KeyCode::RightWindows)
    } else if t == "Up"@ {
        Some(KeyCode::Up)
    } else if t == "Down"@ {
        Some(KeyCode::Down)
    } else if t == "Left"@ {
        Some(KeyCode::Left)
    } else if t == "Right"@ {
        Some(KeyCode::Right)
    } else if t == "Space"@ {
        Some(KeyCode::Space)
    } else if t == "Enter"@ {
        Some(KeyCode::Enter)
    } else if t == "Tab"@ {
        Some(KeyCode::Tab)
    } else if t == "Escape"@ {
        Some(KeyCode::Escape)
    } else if t == "Backspace"@ {
        Some(KeyCode::Backspace)
    } else if t == "Delete"@ {
        Some(KeyCode::Delete)
    } else if t == "Insert"@ {
        Some(KeyCode::Insert)
    } else if t == "Home"@ {
        Some(KeyCode::Home)
    } else if t == "End"@ {
        Some(KeyCode::End)
    } else {
        None
    }
}

/// A modifier of the left side of the keyboard.
pub open spec fn is_left_modifier(k: KeyCode) -> bool {
    k == KeyCode::LeftControl || k == KeyCode::LeftShift || k == KeyCode::LeftAlt || k
        == KeyCode::LeftWindows
}

/// A modifier of the right side of the keyboard.
pub open spec fn is_right_modifier(k: KeyCode) -> bool {
    k == KeyCode::RightControl || k == KeyCode::RightShift || k == KeyCode::RightAlt || k
        == KeyCode::RightWindows
}

/// Sogou's named keys each stand for a key of their own: two tokens that
/// name the same key are the same token.
pub proof fn lemma_sogou_special_tokens_distinct(t1: Seq<char>, t2: Seq<char>)
    ensures
        (sogou_special_token(t1) is Some && sogou_special_token(t1) == sogou_special_token(t2))
            ==> t1 == t2,
{
}

/// A Sogou token that starts with a side and goes on (`LeftShift`,
/// `RightCtrl`, ...) names the modifier of that side, and only such tokens
/// name a side-specific modifier.
pub proof fn lemma_sogou_side_tokens(t: Seq<char>)
    ensures
        sogou_special_token(t) is Some ==> (is_left_modifier(sogou_special_token(t)->0) <==> (
        t.len() > 4 && t.subrange(0, 4) == seq!['L', 'e', 'f', 't'])),
        sogou_special_token(t) is Some ==> (is_right_modifier(sogou_special_token(t)->0) <==> (
        t.len() > 5 && t.subrange(0, 5) == seq!['R', 'i', 'g', 'h', 't'])),
{
    reveal_strlit("LeftCtrl");
    reveal_strlit("RightCtrl");
    reveal_strlit("LeftShift");
    reveal_strlit("RightShift");
    reveal_strlit("LeftAlt");
    reveal_strlit("RightAlt");
    reveal_strlit("LeftMeta");
    reveal_strlit("RightMeta");
    reveal_strlit("Up");
    reveal_strlit("Down");
    reveal_strlit("Left");
    reveal_strlit("Right");
    reveal_strlit("Space");
    reveal_strlit("Enter");
    reveal_strlit("Tab");
    reveal_strlit("Escape");
    reveal_strlit("Backspace");
    reveal_strlit("Delete");
    reveal_strlit("Insert");
    reveal_strlit("Home");
    reveal_strlit("End");
    if sogou_special_token(t) is Some {
        assert(t.len() > 4 ==> t.subrange(0, 4) =~= seq![t[0], t[1], t[2], t[3]]);
        assert(t.len() > 5 ==> t.subrange(0, 5) =~= seq![t[0], t[1], t[2], t[3], t[4]]);
    }
}

pub open spec fn letter_key(c: char) -> KeyCode {
    match c {
        'a' => KeyCode::A,
        'b' => KeyCode::B,
        'c' => KeyCode::C,
        'd' => KeyCode::D,
        'e' => KeyCode::E,
        'f' => KeyCode::F,
        'g' => KeyCode::G,
        'h' => KeyCode::H,
        'i' => KeyCode::I,
        'j' => KeyCode::J,
        'k' => KeyCode::K,
        'l' => KeyCode::L,
        'm' => KeyCode::M,
        'n' => KeyCode::N,
        'o' => KeyCode::O,
        'p' => KeyCode::P,
        'q' => KeyCode::Q,
        'r' => KeyCode::R,
        's' => KeyCode::S,
        't' => KeyCode::T,
        'u' => KeyCode::U,
        'v' => KeyCode::V,
        'w' => KeyCode::W,
        'x' => KeyCode::X,
        'y' => KeyCode::Y,
        _ => KeyCode::Z,
    }
}

pub open spec fn digit_key(c: char) -> KeyCode {
    match c {
        '0' => KeyCode::Digit0,
        '1' => KeyCode::Digit1,
        '2' => KeyCode::Digit2,
        '3' => KeyCode::Digit3,
        '4' => KeyCode::Digit4,
        '5' => KeyCode::Digit5,
        '6' => KeyCode::Digit6,
        '7' => KeyCode::Digit7,
        '8' => KeyCode::Digit8,
        _ => KeyCode::Digit9,
    }
}

/// `F1` … `F9` by their digit.
pub open spec fn low_function_key(c: char) -> KeyCode {
    match c {
        '1' => KeyCode::F1,
        '2' => KeyCode::F2,
        '3' => KeyCode::F3,
        '4' => KeyCode::F4,
        '5' => KeyCode::F5,
        '6' => KeyCode::F6,
        '7' => KeyCode::F7,
        '8' => KeyCode::F8,
        _ => KeyCode::F9,
    }
}

/// `F10` … `F12` by their last digit.
pub open spec fn high_function_key(c: char) -> KeyCode {
    match c {
        '0' => KeyCode::F10,
        '1' => KeyCode::F11,
        _ => KeyCode::F12,
    }
}

/// `F1` … `F12` by the text after the `f`: `1` to `9`, `10` to `12`.
pub open spec fn function_key(n: Seq<char>) -> Option<KeyCode> {
    if n.len() == 1 && '1' <= n[0] <= '9' {
        Some(low_function_key(n[0]))
    } else if n.len() == 2 && n[0] == '1' && '0' <= n[1] <= '2' {
        Some(high_function_key(n[1]))
    } else {
        None
    }
}

/// A single letter, a single digit or `f1` … `f12`, already lower-cased.
pub open spec fn named_key(l: Seq<char>) -> Option<KeyCode> {
    if l.len() == 1 && 'a' <= l[0] <= 'z' {
        Some(letter_key(l[0]))
    } else if l.len() == 1 && '0' <= l[0] <= '9' {
        Some(digit_key(l[0]))
    } else if l.len() >= 2 && l[0] == 'f' {
        function_key(l.drop_first())
    } else {
        None
    }
}

/// The key a Sogou token stands for: the special names exactly, letters,
/// digits and function keys in any ASCII case.
pub open spec fn sogou_token(t: Seq<char>) -> Option<KeyCode> {
    match sogou_special_token(t) {
        Some(k) => Some(k),
        None => named_key(lower_seq(t)),
    }
}

pub open spec fn unknown_key_message(t: Seq<char>) -> Seq<char> {
    "暂不识别的按键："@ + t
}

/// The keys of the token array, or the reason for the first token that is
/// not a string or not a known key.
pub open spec fn sogou_keys(items: Seq<JsonValue>) -> Result<Seq<KeyCode>, Seq<char>>
    decreases items.len(),
{
    if items.len() == 0 {
        Ok(Seq::empty())
    } else {
        match items[0] {
            JsonValue::Text(t) => match sogou_token(t@) {
                Some(k) => match sogou_keys(items.drop_first()) {
                    Ok(rest) => Ok(seq![k] + rest),
                    Err(e) => Err(e),
                },
                None => Err(unknown_key_message(t@)),
            },
            _ => Err("热键词元不是字符串"@),
        }
    }
}

/// `setting.shortcutKeysPress` of a Sogou configuration.
pub open spec fn sogou_press_tokens(document: JsonValue) -> Option<JsonValue> {
    spec_get_in(spec_get(document, "setting"@), "shortcutKeysPress"@)
}

/// The hold-to-talk chord in a Sogou configuration, or why there is none.
pub open spec fn spec_sogou_chord(document: JsonValue) -> Result<Seq<KeyCode>, Seq<char>> {
    match sogou_press_tokens(document) {
        Some(JsonValue::Array(items)) => if items@.len() == 0 {
            Err("搜狗当前没有配置按住型语音热键"@)
        } else {
            match sogou_keys(items@) {
                Ok(keys) => validated_keys(keys),
                Err(e) => Err(e),
            }
        },
        _ => Err("配置里没有 setting.shortcutKeysPress"@),
    }
}

fn special_token_key(t: &[char]) -> (k: Option<KeyCode>)
    ensures
        k == sogou_special_token(t@),
{
    if same_chars(t, chars_of("LeftCtrl").as_slice()) {
        Some(KeyCode::LeftControl)
    } else if same_chars(t, chars_of("RightCtrl").as_slice()) {
        Some(KeyCode::RightControl)
    } else if same_chars(t, chars_of("LeftShift").as_slice()) {
        Some(KeyCode::LeftShift)
    } else if same_chars(t, chars_of("RightShift").as_slice()) {
        Some(KeyCode::RightShift)
    } else if same_chars(t, chars_of("LeftAlt").as_slice()) {
        Some(KeyCode::LeftAlt)
    } else if same_chars(t, chars_of("RightAlt").as_slice()) {
        Some(KeyCode::RightAlt)
    } else if same_chars(t, chars_of("LeftMeta").as_slice()) {
        Some(KeyCode::LeftWindows)
    } else if same_chars(t, chars_of("RightMeta").as_slice()) {
        Some(KeyCode::RightWindows)
    } else if same_chars(t, chars_of("Up").as_slice()) {
        Some(KeyCode::Up)
    } else if same_chars(t, chars_of("Down").as_slice()) {
        Some(KeyCode::Down)
    } else if same_chars(t, chars_of("Left").as_slice()) {
        Some(KeyCode::Left)
    } else if same_chars(t, chars_of("Right").as_slice()) {
        Some(KeyCode::Right)
    } else if same_chars(t, chars_of("Space").as_slice()) {
        Some(KeyCode::Space)
    } else if same_chars(t, chars_of("Enter").as_slice()) {
        Some(KeyCode::Enter)
    } else if same_chars(t, chars_of("Tab").as_slice()) {
        Some(KeyCode::Tab)
    } else if same_chars(t, chars_of("Escape").as_slice()) {
        Some(KeyCode::Escape)
    } else if same_chars(t, chars_of("Backspace").as_slice()) {
        Some(KeyCode::Backspace)
    } else if same_chars(t, chars_of("Delete").as_slice()) {
        Some(KeyCode::Delete)
    } else if same_chars(t, chars_of("Insert").as_slice()) {
        Some(KeyCode::Insert)
    } else if same_chars(t, chars_of("Home").as_slice()) {
        Some(KeyCode::Home)
    } else if same_chars(t, chars_of("End").as_slice()) {
        Some(KeyCode::End)
    } else {
        None
    }
}

fn letter_key_of(c: char) -> (k: KeyCode)
    ensures
        k == letter_key(c),
{
    match c {
        'a' => KeyCode::A,
        'b' => KeyCode::B,
        'c' => KeyCode::C,
        'd' => KeyCode::D,
        'e' => KeyCode::E,
        'f' => KeyCode::F,
        'g' => KeyCode::G,
        'h' => KeyCode::H,
        'i' => KeyCode::I,
        'j' => KeyCode::J,
        'k' => KeyCode::K,
        'l' => KeyCode::L,
        'm' => KeyCode::M,
        'n' => KeyCode::N,
        'o' => KeyCode::O,
        'p' => KeyCode::P,
        'q' => KeyCode::Q,
        'r' => KeyCode::R,
        's' => KeyCode::S,
        't' => KeyCode::T,
        'u' => KeyCode::U,
        'v' => KeyCode::V,
        'w' => KeyCode::W,
        'x' => KeyCode::X,
        'y' => KeyCode::Y,
        _ => KeyCode::Z,
    }
}

fn digit_key_of(c: char) -> (k: KeyCode)
    ensures
        k == digit_key(c),
{
    match c {
        '0' => KeyCode::Digit0,
        '1' => KeyCode::Digit1,
        '2' => KeyCode::Digit2,
        '3' => KeyCode::Digit3,
        '4' => KeyCode::Digit4,
        '5' => KeyCode::Digit5,
        '6' => KeyCode::Digit6,
        '7' => KeyCode::Digit7,
        '8' => KeyCode::Digit8,
        _ => KeyCode::Digit9,
    }
}

fn function_key_of(l: &[char]) -> (k: Option<KeyCode>)
    requires
        l@.len() >= 2,
    ensures
        k == function_key(l@.drop_first()),
{
    if l.len() == 2 && '1' <= l[1] && l[1] <= '9' {
        Some(
            match l[1] {
                '1' => KeyCode::F1,
                '2' => KeyCode::F2,
                '3' => KeyCode::F3,
                '4' => KeyCode::F4,
                '5' => KeyCode::F5,
                '6' => KeyCode::F6,
                '7' => KeyCode::F7,
                '8' => KeyCode::F8,
                _ => KeyCode::F9,
            },
        )
    } else if l.len() == 3 && l[1] == '1' && '0' <= l[2] && l[2] <= '2' {
        Some(
            match l[2] {
                '0' => KeyCode::F10,
                '1' => KeyCode::F11,
                _ => KeyCode::F12,
            },
        )
    } else {
        None
    }
}

fn named_key_of(l: &[char]) -> (k: Option<KeyCode>)
    ensures
        k == named_key(l@),
{
    if l.len() == 1 && 'a' <= l[0] && l[0] <= 'z' {
        Some(letter_key_of(l[0]))
    } else if l.len() == 1 && '0' <= l[0] && l[0] <= '9' {
        Some(digit_key_of(l[0]))
    } else if l.len() >= 2 && l[0] == 'f' {
        function_key_of(l)
    } else {
        None
    }
}

/// The key a Sogou token stands for.
pub fn sogou_token_to_key(token: &str) -> (k: Option<KeyCode>)
    ensures
        k == sogou_token(token@),
{
    let t = chars_of(token);
    match special_token_key(t.as_slice()) {
        Some(k) => Some(k),
        None => {
            let lowered = lower_chars(t.as_slice());
            named_key_of(lowered.as_slice())
        },
    }
}

/// The hold-to-talk chord that Sogou keeps as the token array
/// `setting.shortcutKeysPress` (such as `["RightCtrl"]`).
pub fn sogou_chord_from_document(document: &JsonValue) -> (r: Result<KeyChord, String>)
    ensures
        message_result_view(r) == spec_sogou_chord(*document),
{
    let tokens = match document.get("setting") {
        Some(setting) => match setting.get("shortcutKeysPress") {
            Some(value) => value.as_array(),
            None => None,
        },
        None => None,
    };
    let tokens = match tokens {
        Some(t) => t,
        None => {
            return Err(String::from_str("配置里没有 setting.shortcutKeysPress"));
        },
    };
    if tokens.len() == 0 {
        return Err(String::from_str("搜狗当前没有配置按住型语音热键"));
    }
    let ghost items = tokens@;
    let n = tokens.len();
    let mut keys: Vec<KeyCode> = Vec::new();
    let mut i: usize = 0;
    assert(items.subrange(0, n as int) =~= items);
    assert(spec_sogou_chord(*document) == match sogou_keys(items) {
        Ok(keys) => validated_keys(keys),
        Err(e) => Err::<Seq<KeyCode>, Seq<char>>(e),
    });
    while i < n
        invariant
            spec_sogou_chord(*document) == match sogou_keys(items) {
                Ok(keys) => validated_keys(keys),
                Err(e) => Err::<Seq<KeyCode>, Seq<char>>(e),
            },
            n == items.len() == tokens@.len(),
            items == tokens@,
            i <= n,
            sogou_keys(items) == match sogou_keys(items.subrange(i as int, n as int)) {
                Ok(rest) => Ok(keys@ + rest),
                Err(e) => Err::<Seq<KeyCode>, Seq<char>>(e),
            },
        decreases n - i,
    {
        let ghost rest = items.subrange(i as int, n as int);
        let ghost next = items.subrange(i + 1, n as int);
        assert(rest.drop_first() =~= next);
        assert(rest[0] == items[i as int]);
        let text = match tokens[i].as_str() {
            Some(t) => t,
            None => {
                assert(sogou_keys(rest) == Err::<Seq<KeyCode>, Seq<char>>("热键词元不是字符串"@));
                return Err(String::from_str("热键词元不是字符串"));
            },
        };
        match sogou_token_to_key(text) {
            Some(k) => {
                let ghost before = keys@;
                keys.push(k);
                proof {
                    match sogou_keys(next) {
                        Ok(tail) => {
                            assert(before + (seq![k] + tail) =~= keys@ + tail);
                        },
                        Err(_) => {},
                    }
                }
            },
            None => {
                assert(sogou_keys(rest) == Err::<Seq<KeyCode>, Seq<char>>(
                    unknown_key_message(text@),
                ));
                let mut m = String::from_str("暂不识别的按键：");
                m.append(text);
                return Err(m);
            },
        }
        i = i + 1;
    }
    assert(keys@ + Seq::<KeyCode>::empty() =~= keys@);
    validated_chord(keys)
}

// ---- Doubao ----

/// `voice.voiceLongPressShortcut` of a Doubao configuration.
pub open spec fn doubao_shortcut(document: JsonValue) -> Option<JsonValue> {
    spec_get_in(spec_get(document, "voice"@), "voiceLongPressShortcut"@)
}

/// A member read as `u64`, 0 when it is missing or not such a number.
pub open spec fn u64_or_zero(value: Option<JsonValue>) -> u64 {
    match value {
        Some(v) => match spec_as_u64(v) {
            Some(n) => n,
            None => 0,
        },
        None => 0,
    }
}

pub open spec fn key_if(set: bool, k: KeyCode) -> Seq<KeyCode> {
    if set {
        seq![k]
    } else {
        Seq::empty()
    }
}

/// Modifiers by the side-specific bits, in this order.
pub open spec fn sided_keys(flags: u32) -> Seq<KeyCode> {
    key_if(flags & 0x0100 != 0, KeyCode::LeftControl) + key_if(
        flags & 0x0200 != 0,
        KeyCode::RightControl,
    ) + key_if(flags & 0x1000 != 0, KeyCode::LeftShift) + key_if(
        flags & 0x2000 != 0,
        KeyCode::RightShift,
    ) + key_if(flags & 0x0400 != 0, KeyCode::LeftAlt) + key_if(
        flags & 0x0800 != 0,
        KeyCode::RightAlt,
    ) + key_if(flags & 0x4000 != 0, KeyCode::LeftWindows) + key_if(
        flags & 0x8000 != 0,
        KeyCode::RightWindows,
    )
}

/// Modifiers by the side-less family bits, in this order.
pub open spec fn family_keys(flags: u32) -> Seq<KeyCode> {
    key_if(flags & 0x0002 != 0, KeyCode::Control) + key_if(flags & 0x0004 != 0, KeyCode::Shift)
        + key_if(flags & 0x0001 != 0, KeyCode::Alt) + key_if(
        flags & 0x0008 != 0,
        KeyCode::LeftWindows,
    )
}

/// The modifiers of a flag word: the side-specific bits win when any is set,
/// the family bits count only when none is.
pub open spec fn modifier_keys(flags: u32) -> Seq<KeyCode> {
    if flags & 0xFF00 != 0 {
        sided_keys(flags)
    } else {
        family_keys(flags)
    }
}

/// Bits that are neither side-specific nor family bits.
pub open spec fn unknown_flag_bits(flags: u32) -> bool {
    flags & !(0xFF00u32 | 0x000Fu32) != 0
}

pub open spec fn with_key(keys: Seq<KeyCode>, k: KeyCode) -> Seq<KeyCode> {
    if keys.contains(k) {
        keys
    } else {
        keys.push(k)
    }
}

/// The hold-to-talk chord in a Doubao configuration, or why there is none.
pub open spec fn spec_doubao_chord(document: JsonValue) -> Result<Seq<KeyCode>, Seq<char>> {
    match doubao_shortcut(document) {
        None => Err("配置里没有 voice.voiceLongPressShortcut"@),
        Some(shortcut) => {
            let flags = u64_or_zero(spec_get(shortcut, "modifierFlags"@)) as u32;
            let key_code = u64_or_zero(spec_get(shortcut, "keyCode"@)) as u16;
            if unknown_flag_bits(flags) {
                Err("暂不识别的修饰键标记："@ + decimal(flags as nat))
            } else if key_code != 0 && spec_from_virtual_key(key_code) is None {
                Err("暂不识别的虚拟键码："@ + decimal(key_code as nat))
            } else {
                let keys = if key_code != 0 {
                    match spec_from_virtual_key(key_code) {
                        Some(k) => with_key(modifier_keys(flags), k),
                        None => modifier_keys(flags),
                    }
                } else {
                    modifier_keys(flags)
                };
                if keys.len() == 0 {
                    Err("豆包当前没有配置按住型语音热键"@)
                } else {
                    validated_keys(keys)
                }
            }
        },
    }
}

fn u64_member(value: &JsonValue, key: &str) -> (n: u64)
    ensures
        n == u64_or_zero(spec_get(*value, key@)),
{
    match value.get(key) {
        Some(v) => match v.as_u64() {
            Some(n) => n,
            None => 0,
        },
        None => 0,
    }
}

fn push_if(keys: &mut Vec<KeyCode>, set: bool, k: KeyCode)
    ensures
        final(keys)@ == old(keys)@ + key_if(set, k),
{
    if set {
        keys.push(k);
    } else {
        assert(old(keys)@ + key_if(set, k) =~= old(keys)@);
    }
}

fn modifiers_of(flags: u32) -> (keys: Vec<KeyCode>)
    ensures
        keys@ == modifier_keys(flags),
{
    let mut keys: Vec<KeyCode> = Vec::new();
    if flags & 0xFF00 != 0 {
        push_if(&mut keys, flags & 0x0100 != 0, KeyCode::LeftControl);
        push_if(&mut keys, flags & 0x0200 != 0, KeyCode::RightControl);
        push_if(&mut keys, flags & 0x1000 != 0, KeyCode::LeftShift);
        push_if(&mut keys, flags & 0x2000 != 0, KeyCode::RightShift);
        push_if(&mut keys, flags & 0x0400 != 0, KeyCode::LeftAlt);
        push_if(&mut keys, flags & 0x0800 != 0, KeyCode::RightAlt);
        push_if(&mut keys, flags & 0x4000 != 0, KeyCode::LeftWindows);
        push_if(&mut keys, flags & 0x8000 != 0, KeyCode::RightWindows);
        assert(keys@ =~= sided_keys(flags));
    } else {
        push_if(&mut keys, flags & 0x0002 != 0, KeyCode::Control);
        push_if(&mut keys, flags & 0x0004 != 0, KeyCode::Shift);
        push_if(&mut keys, flags & 0x0001 != 0, KeyCode::Alt);
        push_if(&mut keys, flags & 0x0008 != 0, KeyCode::LeftWindows);
        assert(keys@ =~= family_keys(flags));
    }
    keys
}

fn holds_key(keys: &Vec<KeyCode>, k: KeyCode) -> (b: bool)
    ensures
        b == keys@.contains(k),
{
    let mut i: usize = 0;
    while i < keys.len()
        invariant
            i <= keys@.len(),
            forall|j: int| 0 <= j < i ==> keys@[j] != k,
        decreases keys.len() - i,
    {
        if keys[i] == k {
            return true;
        }
        i = i + 1;
    }
    false
}

/// The hold-to-talk chord that Doubao keeps as
/// `voice.voiceLongPressShortcut`: a modifier flag word and a virtual-key
/// code.
pub fn doubao_chord_from_document(document: &JsonValue) -> (r: Result<KeyChord, String>)
    ensures
        message_result_view(r) == spec_doubao_chord(*document),
{
    let shortcut = match document.get("voice") {
        Some(voice) => voice.get("voiceLongPressShortcut"),
        None => None,
    };
    let shortcut = match shortcut {
        Some(s) => s,
        None => {
            return Err(String::from_str("配置里没有 voice.voiceLongPressShortcut"));
        },
    };
    let flags = u64_member(shortcut, "modifierFlags") as u32;
    if flags & !(0xFF00u32 | 0x000Fu32) != 0 {
        let mut m = String::from_str("暂不识别的修饰键标记：");
        push_decimal(&mut m, flags as u128);
        return Err(m);
    }
    let mut keys = modifiers_of(flags);
    let key_code = u64_member(shortcut, "keyCode") as u16;
    if key_code != 0 {
        match KeyCode::from_virtual_key(key_code) {
            Some(key) => {
                if !holds_key(&keys, key) {
                    keys.push(key);
                }
            },
            None => {
                let mut m = String::from_str("暂不识别的虚拟键码：");
                push_decimal(&mut m, key_code as u128);
                return Err(m);
            },
        }
    }
    if keys.len() == 0 {
        return Err(String::from_str("豆包当前没有配置按住型语音热键"));
    }
    validated_chord(keys)
}

// ---- Reading ----

pub open spec fn spec_parse_document(tool: ImeTool, document: JsonValue) -> Result<
    Seq<KeyCode>,
    Seq<char>,
> {
    match tool {
        ImeTool::Sogou => spec_sogou_chord(document),
        ImeTool::Doubao => spec_doubao_chord(document),
    }
}

/// What reading the configuration answers, given what reading the file
/// gave: a missing file is `NotFound`, every other failure is `ReadFailed`
/// with its reason.
pub fn detect_outcome(tool: ImeTool, read: ConfigRead) -> (r: Result<KeyChord, DetectError>)
    ensures
        match read {
            ConfigRead::Missing => r matches Err(DetectError::NotFound(t)) && t@ == spec_display_name(
                tool,
            ),
            ConfigRead::Unreadable(e) => r matches Err(DetectError::ReadFailed { tool: t, reason })
                && t@ == spec_display_name(tool) && reason@ == e@,
            ConfigRead::Malformed(e) => r matches Err(DetectError::ReadFailed { tool: t, reason })
                && t@ == spec_display_name(tool) && reason@ == malformed_message(e@),
            ConfigRead::Document(d) => match spec_parse_document(tool, d) {
                Ok(keys) => r matches Ok(c) && c.keys@ == keys,
                Err(m) => r matches Err(DetectError::ReadFailed { tool: t, reason })
                    && t@ == spec_display_name(tool) && reason@ == m,
            },
        },
{
    let name = tool.display_name();
    match read {
        ConfigRead::Missing => Err(DetectError::NotFound(name)),
        ConfigRead::Unreadable(e) => Err(DetectError::ReadFailed { tool: name, reason: e }),
        ConfigRead::Malformed(e) => Err(
            DetectError::ReadFailed { tool: name, reason: malformed_json_message(e.as_str()) },
        ),
        ConfigRead::Document(d) => {
            let parsed = match tool {
                ImeTool::Sogou => sogou_chord_from_document(&d),
                ImeTool::Doubao => doubao_chord_from_document(&d),
            };
            match parsed {
                Ok(c) => Ok(c),
                Err(reason) => Err(DetectError::ReadFailed { tool: name, reason }),
            }
        },
    }
}

/// A chord read from an input method's configuration always passes
/// `KeyChord::validated`: at least one key, no key twice. A configuration
/// without a usable hotkey gives a reason, never a guessed chord.
pub proof fn lemma_detected_chords_are_valid(tool: ImeTool, document: JsonValue)
    ensures
        spec_parse_document(tool, document) matches Ok(keys) ==> spec_validated(keys) == Ok::<
            Seq<KeyCode>,
            crate::hotkey::KeyChordError,
        >(keys) && keys.len() > 0,
{
}

// ---- Parsing the configuration text ----

/// The document of a configuration text, as `serde_json` parses it once any
/// leading byte-order marks are skipped.
pub open spec fn text_document(contents: Seq<char>) -> Result<JsonValue, Seq<char>> {
    json_parse(skip_leading(contents, '\u{feff}'))
}

/// Parses configuration text: a leading byte-order mark is skipped, and a
/// text that is not JSON gives the parser's error message.
pub fn config_document(contents: &str) -> (r: ConfigRead)
    ensures
        match text_document(contents@) {
            Ok(d) => r == ConfigRead::Document(d),
            Err(e) => r matches ConfigRead::Malformed(m) && m@ == e,
        },
{
    let text = trim_start_char(contents, '\u{feff}');
    match parse_json(text.as_str()) {
        Ok(document) => ConfigRead::Document(document),
        Err(error) => ConfigRead::Malformed(error),
    }
}

/// Sogou's hold-to-talk chord from the text of its configuration file.
pub fn parse_sogou(contents: &str) -> (r: Result<KeyChord, String>)
    ensures
        message_result_view(r) == match text_document(contents@) {
            Ok(d) => spec_sogou_chord(d),
            Err(e) => Err(malformed_message(e)),
        },
{
    let text = trim_start_char(contents, '\u{feff}');
    match parse_json(text.as_str()) {
        Ok(document) => sogou_chord_from_document(&document),
        Err(error) => Err(malformed_json_message(error.as_str())),
    }
}

/// Doubao's hold-to-talk chord from the text of its configuration file.
pub fn parse_doubao(contents: &str) -> (r: Result<KeyChord, String>)
    ensures
        message_result_view(r) == match text_document(contents@) {
            Ok(d) => spec_doubao_chord(d),
            Err(e) => Err(malformed_message(e)),
        },
{
    let text = trim_start_char(contents, '\u{feff}');
    match parse_json(text.as_str()) {
        Ok(document) => doubao_chord_from_document(&document),
        Err(error) => Err(malformed_json_message(error.as_str())),
    }
}

} // verus!
