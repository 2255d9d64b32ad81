//! Remote buttons, Raw Input keyboard events, HID report decoding and the
//! merger that joins keyboard and HID sources into one logical button state.
use vstd::prelude::*;
use crate::hotkey::{spec_from_virtual_key, spec_virtual_key};
use crate::send_input::spec_native_key;
use std::collections::BTreeSet;
use crate::remote_profile::{
    kind_button_for_usage, kind_matches_path, kind_usage_of, lemma_usage_table_inverse,
    profile_for_device_path, spec_profile_for_path, ProfileKind, RemoteProfile,
};
use crate::text::{chars_of, lower_chars, lower_seq, string_of, trim, trim_bounds};

verus! {

broadcast use vstd::laws_cmp::group_laws_cmp, vstd::std_specs::btree::group_btree_axioms;

pub const XIAOMI_REMOTE_VENDOR_ID: u16 = 0x2717;

pub const XIAOMI_REMOTE_PRODUCT_ID: u16 = 0x32B8;

/// Number of semantic buttons.
pub const BUTTON_COUNT: usize = 15;

/// Semantic remote buttons. The declaration order is the stable button order
/// (`ordinal`); buttons of newer remotes are appended at the end.
#[derive(Debug, Clone, Copy, PartialEq, Eq, Structural, PartialOrd, Ord, Hash)]
pub enum RemoteButton {
    Back,
    Confirm,
    Tv,
    Home,
    Right,
    Left,
    Down,
    Up,
    Menu,
    Power,
    VolumeMute,
    VolumeUp,
    VolumeDown,
    Youtube,
    Netflix,
}

pub open spec fn button_ordinal(b: RemoteButton) -> int {
    match b {
        RemoteButton::Back => 0,
        RemoteButton::Confirm => 1,
        RemoteButton::Tv => 2,
        RemoteButton::Home => 3,
        RemoteButton::Right => 4,
        RemoteButton::Left => 5,
        RemoteButton::Down => 6,
        RemoteButton::Up => 7,
        RemoteButton::Menu => 8,
        RemoteButton::Power => 9,
        RemoteButton::VolumeMute => 10,
        RemoteButton::VolumeUp => 11,
        RemoteButton::VolumeDown => 12,
        RemoteButton::Youtube => 13,
        RemoteButton::Netflix => 14,
    }
}

/// The button with ordinal `i` (meaningful for `0 <= i < 15`).
pub open spec fn button_at(i: int) -> RemoteButton {
    if i == 0 {
        RemoteButton::Back
    } else if i == 1 {
        RemoteButton::Confirm
    } else if i == 2 {
        RemoteButton::Tv
    } else if i == 3 {
        RemoteButton::Home
    } else if i == 4 {
        RemoteButton::Right
    } else if i == 5 {
        RemoteButton::Left
    } else if i == 6 {
        RemoteButton::Down
    } else if i == 7 {
        RemoteButton::Up
    } else if i == 8 {
        RemoteButton::Menu
    } else if i == 9 {
        RemoteButton::Power
    } else if i == 10 {
        RemoteButton::VolumeMute
    } else if i == 11 {
        RemoteButton::VolumeUp
    } else if i == 12 {
        RemoteButton::VolumeDown
    } else if i == 13 {
        RemoteButton::Youtube
    } else {
        RemoteButton::Netflix
    }
}

/// `button_at` and `button_ordinal` are inverse to each other.
pub broadcast proof fn lemma_ordinal_roundtrip(b: RemoteButton)
    ensures
        0 <= #[trigger] button_ordinal(b) < 15,
        button_at(button_ordinal(b)) == b,
{
}

pub broadcast proof fn lemma_button_at_roundtrip(i: int)
    requires
        0 <= i < 15,
    ensures
        button_ordinal(#[trigger] button_at(i)) == i,
{
}

/// Auto-repeat interval in milliseconds while a single-action button is held.
pub open spec fn spec_repeat_interval(b: RemoteButton) -> Option<u64> {
    match b {
        RemoteButton::Back => Some(50),
        RemoteButton::Up | RemoteButton::Down | RemoteButton::Left | RemoteButton::Right
        | RemoteButton::VolumeUp | RemoteButton::VolumeDown => Some(100),
        _ => None,
    }
}

impl RemoteButton {
    /// Position of the button in the stable button order (0..15).
    pub fn ordinal(self) -> (i: usize)
        ensures
            i as int == button_ordinal(self),
            i < BUTTON_COUNT,
    {
        match self {
            RemoteButton::Back => 0,
            RemoteButton::Confirm => 1,
            RemoteButton::Tv => 2,
            RemoteButton::Home => 3,
            RemoteButton::Right => 4,
            RemoteButton::Left => 5,
            RemoteButton::Down => 6,
            RemoteButton::Up => 7,
            RemoteButton::Menu => 8,
            RemoteButton::Power => 9,
            RemoteButton::VolumeMute => 10,
            RemoteButton::VolumeUp => 11,
            RemoteButton::VolumeDown => 12,
            RemoteButton::Youtube => 13,
            RemoteButton::Netflix => 14,
        }
    }

    /// Hold-to-repeat interval in milliseconds: Back 50 ms, the arrows and
    /// volume up/down 100 ms, every other button does not repeat.
    pub fn repeat_interval(self) -> (r: Option<u64>)
        ensures
            r == spec_repeat_interval(self),
    {
        match self {
            RemoteButton::Back => Some(50),
            RemoteButton::Up | RemoteButton::Down | RemoteButton::Left | RemoteButton::Right
            | RemoteButton::VolumeUp | RemoteButton::VolumeDown => Some(100),
            _ => None,
        }
    }
}

/// The button with the given ordinal.
pub fn button_from_ordinal(i: usize) -> (b: RemoteButton)
    requires
        i < BUTTON_COUNT,
    ensures
        b == button_at(i as int),
{
    if i == 0 {
        RemoteButton::Back
    } else if i == 1 {
        RemoteButton::Confirm
    } else if i == 2 {
        RemoteButton::Tv
    } else if i == 3 {
        RemoteButton::Home
    } else if i == 4 {
        RemoteButton::Right
    } else if i == 5 {
        RemoteButton::Left
    } else if i == 6 {
        RemoteButton::Down
    } else if i == 7 {
        RemoteButton::Up
    } else if i == 8 {
        RemoteButton::Menu
    } else if i == 9 {
        RemoteButton::Power
    } else if i == 10 {
        RemoteButton::VolumeMute
    } else if i == 11 {
        RemoteButton::VolumeUp
    } else if i == 12 {
        RemoteButton::VolumeDown
    } else if i == 13 {
        RemoteButton::Youtube
    } else {
        RemoteButton::Netflix
    }
}

/// Every semantic button, in the stable order.
pub fn all_buttons() -> (v: Vec<RemoteButton>)
    ensures
        v@.len() == BUTTON_COUNT,
        forall|i: int| 0 <= i < BUTTON_COUNT ==> v@[i] == button_at(i),
{
    let mut v: Vec<RemoteButton> = Vec::new();
    let mut i: usize = 0;
    while i < BUTTON_COUNT
        invariant
            i <= BUTTON_COUNT,
            v@.len() == i,
            forall|k: int| 0 <= k < i ==> v@[k] == button_at(k),
        decreases BUTTON_COUNT - i,
    {
        v.push(button_from_ordinal(i));
        i = i + 1;
    }
    v
}

/// A press or release of one semantic button.
#[derive(Debug, Clone, Copy, PartialEq, Eq, Structural)]
pub struct ButtonEdge {
    pub button: RemoteButton,
    pub is_pressed: bool,
}

/// Lifecycle of the Raw Input listener.
#[derive(Debug, Clone, Copy, PartialEq, Eq, Structural)]
pub enum RawInputPhase {
    Stopped,
    Starting,
    Ready,
    Failed,
    Unsupported,
}

impl Default for RawInputPhase {
    fn default() -> (p: Self)
        ensures
            p == RawInputPhase::Stopped,
    {
        RawInputPhase::Stopped
    }
}

/// Whether the Raw Input supervisor starts the listener at a check: always
/// after a failure, and at its first check when the listener is stopped. A
/// listener that the user stopped later stays stopped.
pub fn supervisor_should_start(phase: RawInputPhase, initial_attempt_pending: bool) -> (b: bool)
    ensures
        b == (phase == RawInputPhase::Failed || (initial_attempt_pending && phase
            == RawInputPhase::Stopped)),
{
    match phase {
        RawInputPhase::Failed => true,
        RawInputPhase::Stopped => initial_attempt_pending,
        _ => false,
    }
}

/// State of the Raw Input listener as shown to the user.
#[derive(Debug, Clone)]
pub struct RawInputSnapshot {
    pub phase: RawInputPhase,
    /// Id of the recognised remote profile, if any.
    pub profile_id: Option<String>,
    pub matched_device_count: u32,
    pub raw_event_count: u64,
    pub semantic_edge_count: u64,
    pub last_button: Option<RemoteButton>,
    pub last_is_pressed: Option<bool>,
    /// Semantic buttons held down right now.
    pub active_buttons: Vec<RemoteButton>,
    pub last_error: Option<String>,
}

impl RawInputSnapshot {
    /// The snapshot of a listener that has not started.
    pub fn stopped() -> (s: Self)
        ensures
            s.phase == RawInputPhase::Stopped,
            s.profile_id is None,
            s.matched_device_count == 0,
            s.raw_event_count == 0,
            s.semantic_edge_count == 0,
            s.last_button is None,
            s.last_is_pressed is None,
            s.active_buttons@.len() == 0,
            s.last_error is None,
    {
        RawInputSnapshot {
            phase: RawInputPhase::Stopped,
            profile_id: None,
            matched_device_count: 0,
            raw_event_count: 0,
            semantic_edge_count: 0,
            last_button: None,
            last_is_pressed: None,
            active_buttons: Vec::new(),
            last_error: None,
        }
    }
}

impl Default for RawInputSnapshot {
    fn default() -> (s: Self)
        ensures
            s.phase == RawInputPhase::Stopped,
            s.profile_id is None,
            s.matched_device_count == 0,
            s.raw_event_count == 0,
            s.semantic_edge_count == 0,
            s.last_button is None,
            s.last_is_pressed is None,
            s.active_buttons@.len() == 0,
            s.last_error is None,
    {
        RawInputSnapshot::stopped()
    }
}

/// A keyboard event delivered by Raw Input.
#[derive(Debug, Clone, Copy, PartialEq, Eq, Structural)]
pub struct RawKeyboardEvent {
    pub make_code: u16,
    pub flags: u16,
    pub virtual_key: u16,
    pub message: u32,
}

/// Button assignment of the keyboard-page HID usages the Xiaomi remote sends.
pub open spec fn spec_button_for_usage(usage: u16) -> Option<RemoteButton> {
    if usage == 0x00F1 {
        Some(RemoteButton::Back)
    } else if usage == 0x0028 {
        Some(RemoteButton::Confirm)
    } else if usage == 0x0035 {
        Some(RemoteButton::Tv)
    } else if usage == 0x004A {
        Some(RemoteButton::Home)
    } else if usage == 0x004F {
        Some(RemoteButton::Right)
    } else if usage == 0x0050 {
        Some(RemoteButton::Left)
    } else if usage == 0x0051 {
        Some(RemoteButton::Down)
    } else if usage == 0x0052 {
        Some(RemoteButton::Up)
    } else if usage == 0x0065 {
        Some(RemoteButton::Menu)
    } else if usage == 0x0066 {
        Some(RemoteButton::Power)
    } else if usage == 0x007F {
        Some(RemoteButton::VolumeMute)
    } else if usage == 0x0080 {
        Some(RemoteButton::VolumeUp)
    } else if usage == 0x0081 {
        Some(RemoteButton::VolumeDown)
    } else {
        None
    }
}

/// Button assignment of Raw Input keyboard events. Virtual key 0xFF carries
/// the button in the make code; the voice key (F5, 0x74) is no button.
pub open spec fn spec_button_for_keyboard(virtual_key: u16, make_code: u16) -> Option<
    RemoteButton,
> {
    if virtual_key == 0xFF {
        if make_code == 0x5E {
            Some(RemoteButton::Power)
        } else if make_code == 0x6A {
            Some(RemoteButton::Back)
        } else if make_code == 0x30 {
            Some(RemoteButton::VolumeUp)
        } else if make_code == 0x2E {
            Some(RemoteButton::VolumeDown)
        } else if make_code == 0x20 {
            Some(RemoteButton::VolumeMute)
        } else {
            None
        }
    } else if virtual_key == 0x27 {
        Some(RemoteButton::Right)
    } else if virtual_key == 0x25 {
        Some(RemoteButton::Left)
    } else if virtual_key == 0x28 {
        Some(RemoteButton::Down)
    } else if virtual_key == 0x26 {
        Some(RemoteButton::Up)
    } else if virtual_key == 0x0D {
        Some(RemoteButton::Confirm)
    } else if virtual_key == 0x24 {
        Some(RemoteButton::Home)
    } else if virtual_key == 0x5D {
        Some(RemoteButton::Menu)
    } else if virtual_key == 0xC0 {
        Some(RemoteButton::Tv)
    } else if virtual_key == 0x5F {
        Some(RemoteButton::Power)
    } else if virtual_key == 0xAD {
        Some(RemoteButton::VolumeMute)
    } else if virtual_key == 0xAF {
        Some(RemoteButton::VolumeUp)
    } else if virtual_key == 0xAE {
        Some(RemoteButton::VolumeDown)
    } else {
        None
    }
}

/// Keyboard decoding agrees with what Windows means by the key: when the
/// virtual key names a key, the button decoded from it is the one whose own
/// key that is, and a decoded button with a key of its own sends exactly
/// that virtual key (except the vendor code 0xFF, which carries the button
/// in the make code). So distinct keys never decode to the same button.
pub proof fn lemma_keyboard_buttons_send_their_own_key(virtual_key: u16, make_code: u16)
    ensures
        ({
            let b = spec_button_for_keyboard(virtual_key, make_code);
            &&& (spec_from_virtual_key(virtual_key) is Some && b is Some) ==> spec_native_key(b->0)
                == spec_from_virtual_key(virtual_key)
            &&& (virtual_key != 0xFF && b is Some && spec_native_key(b->0) is Some)
                ==> spec_virtual_key(spec_native_key(b->0)->0) == virtual_key
        }),
{
    let vk = virtual_key;
    if !(vk == 0xFF || vk == 0x27 || vk == 0x25 || vk == 0x28 || vk == 0x26 || vk == 0x0D || vk
        == 0x24 || vk == 0x5D || vk == 0xC0 || vk == 0x5F || vk == 0xAD || vk == 0xAF || vk
        == 0xAE) {
        assert(spec_button_for_keyboard(vk, make_code) is None);
    }
}

/// Key-up messages (`WM_KEYUP`, `WM_SYSKEYUP`) release; everything else presses.
pub open spec fn spec_is_pressed(message: u32) -> bool {
    message != 0x0101 && message != 0x0105
}

impl RawKeyboardEvent {
    pub fn is_pressed(self) -> (b: bool)
        ensures
            b == spec_is_pressed(self.message),
    {
        !(self.message == 0x0101 || self.message == 0x0105)
    }

    pub fn button(self) -> (b: Option<RemoteButton>)
        ensures
            b == spec_button_for_keyboard(self.virtual_key, self.make_code),
    {
        button_for_keyboard(self.virtual_key, self.make_code)
    }
}

pub fn button_for_usage(usage: u16) -> (b: Option<RemoteButton>)
    ensures
        b == spec_button_for_usage(usage),
{
    if usage == 0x00F1 {
        Some(RemoteButton::Back)
    } else if usage == 0x0028 {
        Some(RemoteButton::Confirm)
    } else if usage == 0x0035 {
        Some(RemoteButton::Tv)
    } else if usage == 0x004A {
        Some(RemoteButton::Home)
    } else if usage == 0x004F {
        Some(RemoteButton::Right)
    } else if usage == 0x0050 {
        Some(RemoteButton::Left)
    } else if usage == 0x0051 {
        Some(RemoteButton::Down)
    } else if usage == 0x0052 {
        Some(RemoteButton::Up)
    } else if usage == 0x0065 {
        Some(RemoteButton::Menu)
    } else if usage == 0x0066 {
        Some(RemoteButton::Power)
    } else if usage == 0x007F {
        Some(RemoteButton::VolumeMute)
    } else if usage == 0x0080 {
        Some(RemoteButton::VolumeUp)
    } else if usage == 0x0081 {
        Some(RemoteButton::VolumeDown)
    } else {
        None
    }
}

pub fn button_for_keyboard(virtual_key: u16, make_code: u16) -> (b: Option<RemoteButton>)
    ensures
        b == spec_button_for_keyboard(virtual_key, make_code),
        (spec_from_virtual_key(virtual_key) is Some && b is Some) ==> spec_native_key(b->0)
            == spec_from_virtual_key(virtual_key),
        (virtual_key != 0xFF && b is Some && spec_native_key(b->0) is Some) ==> spec_virtual_key(
            spec_native_key(b->0)->0,
        ) == virtual_key,
{
    proof {
        lemma_keyboard_buttons_send_their_own_key(virtual_key, make_code);
    }
    if virtual_key == 0xFF {
        if make_code == 0x5E {
            Some(RemoteButton::Power)
        } else if make_code == 0x6A {
            Some(RemoteButton::Back)
        } else if make_code == 0x30 {
            Some(RemoteButton::VolumeUp)
        } else if make_code == 0x2E {
            Some(RemoteButton::VolumeDown)
        } else if make_code == 0x20 {
            Some(RemoteButton::VolumeMute)
        } else {
            None
        }
    } else if virtual_key == 0x27 {
        Some(RemoteButton::Right)
    } else if virtual_key == 0x25 {
        Some(RemoteButton::Left)
    } else if virtual_key == 0x28 {
        Some(RemoteButton::Down)
    } else if virtual_key == 0x26 {
        Some(RemoteButton::Up)
    } else if virtual_key == 0x0D {
        Some(RemoteButton::Confirm)
    } else if virtual_key == 0x24 {
        Some(RemoteButton::Home)
    } else if virtual_key == 0x5D {
        Some(RemoteButton::Menu)
    } else if virtual_key == 0xC0 {
        Some(RemoteButton::Tv)
    } else if virtual_key == 0x5F {
        Some(RemoteButton::Power)
    } else if virtual_key == 0xAD {
        Some(RemoteButton::VolumeMute)
    } else if virtual_key == 0xAF {
        Some(RemoteButton::VolumeUp)
    } else if virtual_key == 0xAE {
        Some(RemoteButton::VolumeDown)
    } else {
        None
    }
}

/// Why a HID report or a RAWHID body could not be decoded.
#[derive(Debug, Clone, Copy, PartialEq, Eq, Structural)]
pub enum RawInputDecodeError {
    UnsupportedReportShape(usize),
    InvalidReportPrefix,
    RawHidBodyTooShort,
    EmptyRawHidReport,
    RawHidLengthOverflow,
    TruncatedRawHidBody { expected: usize, actual: usize },
}

/// The usage slots of a report: 9-byte reports carry the prefix 01 00 00,
/// 7-byte reports the prefix 01, 6-byte reports are bare slots.
pub open spec fn report_payload(r: Seq<u8>) -> Result<Seq<u8>, RawInputDecodeError> {
    if r.len() == 9 {
        if r[0] == 1 && r[1] == 0 && r[2] == 0 {
            Ok(r.subrange(3, 9))
        } else {
            Err(RawInputDecodeError::InvalidReportPrefix)
        }
    } else if r.len() == 7 {
        if r[0] == 1 {
            Ok(r.subrange(1, 7))
        } else {
            Err(RawInputDecodeError::InvalidReportPrefix)
        }
    } else if r.len() == 6 {
        Ok(r)
    } else {
        Err(RawInputDecodeError::UnsupportedReportShape(r.len() as usize))
    }
}

/// Little-endian 16-bit value of slot `k` (bytes `2k` and `2k + 1`).
pub open spec fn slot_value(p: Seq<u8>, k: int) -> int {
    p[2 * k] + 256 * p[2 * k + 1]
}

/// The non-zero slot values of a payload.
pub open spec fn payload_usages(p: Seq<u8>) -> Set<u16> {
    Set::new(
        |u: u16| u != 0 && exists|k: int| 0 <= k < p.len() / 2 && slot_value(p, k) == u,
    )
}

pub open spec fn spec_decode_report(r: Seq<u8>) -> Result<Set<u16>, RawInputDecodeError> {
    match report_payload(r) {
        Ok(p) => Ok(payload_usages(p)),
        Err(e) => Err(e),
    }
}

/// Decodes one HID report into the set of non-zero usages it holds.
pub fn decode_report_usages(report: &[u8]) -> (r: Result<BTreeSet<u16>, RawInputDecodeError>)
    ensures
        match (r, spec_decode_report(report@)) {
            (Ok(set), Ok(expected)) => set@ == expected,
            (Err(e), Err(expected)) => e == expected,
            _ => false,
        },
{
    let len = report.len();
    let start: usize = if len == 9 {
        if report[0] == 1 && report[1] == 0 && report[2] == 0 {
            3
        } else {
            return Err(RawInputDecodeError::InvalidReportPrefix);
        }
    } else if len == 7 {
        if report[0] == 1 {
            1
        } else {
            return Err(RawInputDecodeError::InvalidReportPrefix);
        }
    } else if len == 6 {
        0
    } else {
        return Err(RawInputDecodeError::UnsupportedReportShape(len));
    };
    let ghost p = report@.subrange(start as int, len as int);
    assert(report_payload(report@) == Ok::<Seq<u8>, RawInputDecodeError>(p)) by {
        if len == 6 {
            assert(report@.subrange(0, 6) =~= report@);
        }
    }
    let mut usages: BTreeSet<u16> = BTreeSet::new();
    let mut k: usize = 0;
    while k < 3
        invariant
            k <= 3,
            len == report@.len(),
            start <= 3,
            start + 6 == len,
            p == report@.subrange(start as int, len as int),
            p.len() == 6,
            usages@ == Set::new(
                |u: u16| u != 0 && exists|j: int| 0 <= j < k && slot_value(p, j) == u,
            ),
        decreases 3 - k,
    {
        let lo = report[start + 2 * k];
        let hi = report[start + 2 * k + 1];
        let usage: u16 = lo as u16 + 256 * (hi as u16);
        assert(p[2 * k] == lo && p[2 * k + 1] == hi);
        assert(usage == slot_value(p, k as int));
        let ghost before = usages@;
        if usage != 0 {
            usages.insert(usage);
        }
        k = k + 1;
        assert(usages@ =~= Set::new(
            |u: u16| u != 0 && exists|j: int| 0 <= j < k && slot_value(p, j) == u,
        )) by {
            assert forall|u: u16|
                (u != 0 && exists|j: int| 0 <= j < k && slot_value(p, j) == u) implies #[trigger] usages@.contains(u) by {
                let j = choose|j: int| 0 <= j < k && slot_value(p, j) == u;
                if j < k - 1 {
                    assert(before.contains(u));
                }
            }
        }
    }
    assert(usages@ =~= payload_usages(p));
    Ok(usages)
}

/// Little-endian 32-bit value at byte offset `off`.
pub open spec fn le_u32(b: Seq<u8>, off: int) -> int {
    b[off] + 256 * b[off + 1] + 65536 * b[off + 2] + 16777216 * b[off + 3]
}

/// What `parse_raw_hid_body` answers for a body: the report size and count
/// come from the 8-byte little-endian header, the reports follow it.
pub open spec fn spec_raw_hid_layout(body: Seq<u8>) -> Result<(int, int), RawInputDecodeError> {
    if body.len() < 8 {
        Err(RawInputDecodeError::RawHidBodyTooShort)
    } else {
        let size = le_u32(body, 0);
        let count = le_u32(body, 4);
        if size == 0 {
            Err(RawInputDecodeError::EmptyRawHidReport)
        } else if size * count > usize::MAX || 8 + size * count > usize::MAX {
            Err(RawInputDecodeError::RawHidLengthOverflow)
        } else if body.len() < 8 + size * count {
            Err(
                RawInputDecodeError::TruncatedRawHidBody {
                    expected: (8 + size * count) as usize,
                    actual: body.len() as usize,
                },
            )
        } else {
            Ok((size, count))
        }
    }
}

fn read_le_u32(body: &[u8], off: usize) -> (v: u32)
    requires
        off + 4 <= body@.len(),
    ensures
        v as int == le_u32(body@, off as int),
{
    let b0 = body[off] as u32;
    let b1 = body[off + 1] as u32;
    let b2 = body[off + 2] as u32;
    let b3 = body[off + 3] as u32;
    b0 + 256 * b1 + 65536 * b2 + 16777216 * b3
}

proof fn lemma_chunk_bounds(i: int, size: int, count: int)
    requires
        0 <= i < count,
        0 < size,
    ensures
        i * size + size <= count * size,
        0 <= i * size,
{
    assert(i * size + size <= count * size) by (nonlinear_arith)
        requires
            0 <= i < count,
            0 < size,
    ;
    assert(0 <= i * size) by (nonlinear_arith)
        requires
            0 <= i,
            0 < size,
    ;
}

/// Splits a RAWHID body into its reports. The reports are consecutive
/// `size`-byte chunks after the header; bytes past them are ignored.
pub fn parse_raw_hid_body(body: &[u8]) -> (r: Result<Vec<&[u8]>, RawInputDecodeError>)
    ensures
        match (r, spec_raw_hid_layout(body@)) {
            (Ok(reports), Ok((size, count))) => {
                &&& reports@.len() == count
                &&& forall|i: int|
                    0 <= i < count ==> #[trigger] reports@[i]@ == body@.subrange(
                        8 + i * size,
                        8 + i * size + size,
                    )
            },
            (Err(e), Err(expected)) => e == expected,
            _ => false,
        },
{
    if body.len() < 8 {
        return Err(RawInputDecodeError::RawHidBodyTooShort);
    }
    let report_size = read_le_u32(body, 0) as usize;
    let report_count = read_le_u32(body, 4) as usize;
    if report_size == 0 {
        return Err(RawInputDecodeError::EmptyRawHidReport);
    }
    let reports_length = match report_size.checked_mul(report_count) {
        Some(n) => n,
        None => return Err(RawInputDecodeError::RawHidLengthOverflow),
    };
    let expected = match 8usize.checked_add(reports_length) {
        Some(n) => n,
        None => return Err(RawInputDecodeError::RawHidLengthOverflow),
    };
    if body.len() < expected {
        return Err(RawInputDecodeError::TruncatedRawHidBody { expected, actual: body.len() });
    }
    let mut reports: Vec<&[u8]> = Vec::new();
    let mut i: usize = 0;
    let mut off: usize = 8;
    while i < report_count
        invariant
            0 < report_size,
            reports_length == report_size * report_count,
            expected == 8 + reports_length,
            expected <= body@.len(),
            i <= report_count,
            off == 8 + i * report_size,
            reports@.len() == i,
            forall|k: int|
                0 <= k < i ==> #[trigger] reports@[k]@ == body@.subrange(
                    8 + k * report_size,
                    8 + k * report_size + report_size,
                ),
        decreases report_count - i,
    {
        proof {
            lemma_chunk_bounds(i as int, report_size as int, report_count as int);
        }
        reports.push(vstd::slice::slice_subrange(body, off, off + report_size));
        assert((i + 1) * report_size == i * report_size + report_size) by (nonlinear_arith);
        off = off + report_size;
        i = i + 1;
    }
    Ok(reports)
}

/// The set of buttons whose flag (indexed by ordinal) is set.
pub open spec fn flags_set(f: Seq<bool>) -> Set<RemoteButton> {
    Set::new(|b: RemoteButton| f[button_ordinal(b)])
}

/// Release edges, in button order, of the buttons held in `before` but not in
/// `after`, among the first `n` buttons.
pub open spec fn release_edges(before: Set<RemoteButton>, after: Set<RemoteButton>, n: int) -> Seq<
    ButtonEdge,
>
    decreases n,
{
    if n <= 0 {
        Seq::empty()
    } else {
        let b = button_at(n - 1);
        release_edges(before, after, n - 1) + if before.contains(b) && !after.contains(b) {
            seq![ButtonEdge { button: b, is_pressed: false }]
        } else {
            Seq::empty()
        }
    }
}

/// Press edges, in button order, of the buttons held in `after` but not in
/// `before`, among the first `n` buttons.
pub open spec fn press_edges(before: Set<RemoteButton>, after: Set<RemoteButton>, n: int) -> Seq<
    ButtonEdge,
>
    decreases n,
{
    if n <= 0 {
        Seq::empty()
    } else {
        let b = button_at(n - 1);
        press_edges(before, after, n - 1) + if after.contains(b) && !before.contains(b) {
            seq![ButtonEdge { button: b, is_pressed: true }]
        } else {
            Seq::empty()
        }
    }
}

/// The semantic edges that turn the held set `before` into `after`: all
/// releases first, then all presses, each group in button order.
pub open spec fn spec_edges(before: Set<RemoteButton>, after: Set<RemoteButton>) -> Seq<
    ButtonEdge,
> {
    release_edges(before, after, 15) + press_edges(before, after, 15)
}

/// The held set after applying a sequence of edges, one after the other.
pub open spec fn apply_edges(held: Set<RemoteButton>, edges: Seq<ButtonEdge>) -> Set<RemoteButton>
    decreases edges.len(),
{
    if edges.len() == 0 {
        held
    } else {
        let e = edges.last();
        let rest = apply_edges(held, edges.drop_last());
        if e.is_pressed {
            rest.insert(e.button)
        } else {
            rest.remove(e.button)
        }
    }
}

/// The buttons of `s`, in button order, among the first `n` buttons.
pub open spec fn ordered_buttons(s: Set<RemoteButton>, n: int) -> Seq<RemoteButton>
    decreases n,
{
    if n <= 0 {
        Seq::empty()
    } else {
        ordered_buttons(s, n - 1) + if s.contains(button_at(n - 1)) {
            seq![button_at(n - 1)]
        } else {
            Seq::empty()
        }
    }
}

proof fn lemma_apply_concat(held: Set<RemoteButton>, a: Seq<ButtonEdge>, b: Seq<ButtonEdge>)
    ensures
        apply_edges(held, a + b) == apply_edges(apply_edges(held, a), b),
    decreases b.len(),
{
    if b.len() == 0 {
        assert(a + b =~= a);
    } else {
        assert((a + b).drop_last() =~= a + b.drop_last());
        lemma_apply_concat(held, a, b.drop_last());
    }
}

proof fn lemma_release_edges_apply(before: Set<RemoteButton>, after: Set<RemoteButton>, n: int)
    requires
        0 <= n <= 15,
    ensures
        apply_edges(before, release_edges(before, after, n)) == before.difference(
            Set::new(|b: RemoteButton| button_ordinal(b) < n && before.contains(b) && !after.contains(b)),
        ),
    decreases n,
{
    broadcast use lemma_ordinal_roundtrip, lemma_button_at_roundtrip;

    if n > 0 {
        lemma_release_edges_apply(before, after, n - 1);
        let b = button_at(n - 1);
        let tail: Seq<ButtonEdge> = if before.contains(b) && !after.contains(b) {
            seq![ButtonEdge { button: b, is_pressed: false }]
        } else {
            Seq::empty()
        };
        let prev = release_edges(before, after, n - 1);
        let mid = apply_edges(before, prev);
        lemma_apply_concat(before, prev, tail);
        assert(release_edges(before, after, n) == prev + tail);
        if tail.len() == 1 {
            assert(tail.drop_last() =~= Seq::<ButtonEdge>::empty());
            assert(apply_edges(mid, tail.drop_last()) == mid);
            assert(apply_edges(mid, tail) == mid.remove(b));
        } else {
            assert(apply_edges(mid, tail) == mid);
        }
        assert forall|x: RemoteButton| (button_ordinal(x) < n) == (button_ordinal(x) < n - 1 || x == b) by {}
        assert(apply_edges(before, release_edges(before, after, n)) =~= before.difference(
            Set::new(|x: RemoteButton| button_ordinal(x) < n && before.contains(x) && !after.contains(x)),
        ));
    } else {
        assert(before.difference(
            Set::new(|x: RemoteButton| button_ordinal(x) < n && before.contains(x) && !after.contains(x)),
        ) =~= before);
    }
}

proof fn lemma_press_edges_apply(
    start: Set<RemoteButton>,
    before: Set<RemoteButton>,
    after: Set<RemoteButton>,
    n: int,
)
    requires
        0 <= n <= 15,
    ensures
        apply_edges(start, press_edges(before, after, n)) == start.union(
            Set::new(|b: RemoteButton| button_ordinal(b) < n && after.contains(b) && !before.contains(b)),
        ),
    decreases n,
{
    broadcast use lemma_ordinal_roundtrip, lemma_button_at_roundtrip;

    if n > 0 {
        lemma_press_edges_apply(start, before, after, n - 1);
        let b = button_at(n - 1);
        let tail: Seq<ButtonEdge> = if after.contains(b) && !before.contains(b) {
            seq![ButtonEdge { button: b, is_pressed: true }]
        } else {
            Seq::empty()
        };
        let prev = press_edges(before, after, n - 1);
        let mid = apply_edges(start, prev);
        lemma_apply_concat(start, prev, tail);
        assert(press_edges(before, after, n) == prev + tail);
        if tail.len() == 1 {
            assert(tail.drop_last() =~= Seq::<ButtonEdge>::empty());
            assert(apply_edges(mid, tail.drop_last()) == mid);
            assert(apply_edges(mid, tail) == mid.insert(b));
        } else {
            assert(apply_edges(mid, tail) == mid);
        }
        assert forall|x: RemoteButton| (button_ordinal(x) < n) == (button_ordinal(x) < n - 1 || x == b) by {}
        assert(apply_edges(start, press_edges(before, after, n)) =~= start.union(
            Set::new(|x: RemoteButton| button_ordinal(x) < n && after.contains(x) && !before.contains(x)),
        ));
    } else {
        assert(start.union(
            Set::new(|x: RemoteButton| button_ordinal(x) < n && after.contains(x) && !before.contains(x)),
        ) =~= start);
    }
}

/// Replaying the reported edges on the held set before a change gives the
/// held set after it: the edges describe the change exactly.
pub proof fn lemma_edges_replay(before: Set<RemoteButton>, after: Set<RemoteButton>)
    ensures
        apply_edges(before, spec_edges(before, after)) == after,
{
    broadcast use lemma_ordinal_roundtrip;

    lemma_release_edges_apply(before, after, 15);
    let mid = apply_edges(before, release_edges(before, after, 15));
    lemma_press_edges_apply(mid, before, after, 15);
    lemma_apply_concat(before, release_edges(before, after, 15), press_edges(before, after, 15));
    assert(apply_edges(before, spec_edges(before, after)) =~= after);
}

/// No edges are reported when nothing changed.
pub proof fn lemma_no_change_no_edges(held: Set<RemoteButton>)
    ensures
        spec_edges(held, held).len() == 0,
{
    lemma_release_empty(held, 15);
    lemma_press_empty(held, 15);
}

proof fn lemma_release_empty(held: Set<RemoteButton>, n: int)
    ensures
        release_edges(held, held, n).len() == 0,
    decreases n,
{
    if n > 0 {
        lemma_release_empty(held, n - 1);
    }
}

proof fn lemma_press_empty(held: Set<RemoteButton>, n: int)
    ensures
        press_edges(held, held, n).len() == 0,
    decreases n,
{
    if n > 0 {
        lemma_press_empty(held, n - 1);
    }
}

fn no_flags() -> (v: Vec<bool>)
    ensures
        v@.len() == BUTTON_COUNT,
        flags_set(v@) == Set::<RemoteButton>::empty(),
{
    broadcast use lemma_ordinal_roundtrip;

    let mut v: Vec<bool> = Vec::new();
    let mut i: usize = 0;
    while i < BUTTON_COUNT
        invariant
            i <= BUTTON_COUNT,
            v@.len() == i,
            forall|k: int| 0 <= k < i ==> !v@[k],
        decreases BUTTON_COUNT - i,
    {
        v.push(false);
        i = i + 1;
    }
    assert(flags_set(v@) =~= Set::<RemoteButton>::empty());
    v
}

fn with_flag(v: &Vec<bool>, i: usize, value: bool) -> (r: Vec<bool>)
    requires
        v@.len() == BUTTON_COUNT,
        i < BUTTON_COUNT,
    ensures
        r@ == v@.update(i as int, value),
{
    let mut r = v.clone();
    r.set(i, value);
    r
}

fn union_flags(a: &Vec<bool>, b: &Vec<bool>) -> (r: Vec<bool>)
    requires
        a@.len() == BUTTON_COUNT,
        b@.len() == BUTTON_COUNT,
    ensures
        r@.len() == BUTTON_COUNT,
        flags_set(r@) == flags_set(a@).union(flags_set(b@)),
{
    broadcast use lemma_ordinal_roundtrip;

    let mut r: Vec<bool> = Vec::new();
    let mut i: usize = 0;
    while i < BUTTON_COUNT
        invariant
            i <= BUTTON_COUNT,
            a@.len() == BUTTON_COUNT,
            b@.len() == BUTTON_COUNT,
            r@.len() == i,
            forall|k: int| 0 <= k < i ==> r@[k] == (a@[k] || b@[k]),
        decreases BUTTON_COUNT - i,
    {
        r.push(a[i] || b[i]);
        i = i + 1;
    }
    assert(flags_set(r@) =~= flags_set(a@).union(flags_set(b@)));
    r
}

fn edges_between(before: &Vec<bool>, after: &Vec<bool>) -> (e: Vec<ButtonEdge>)
    requires
        before@.len() == BUTTON_COUNT,
        after@.len() == BUTTON_COUNT,
    ensures
        e@ == spec_edges(flags_set(before@), flags_set(after@)),
{
    broadcast use lemma_button_at_roundtrip;

    let ghost bs = flags_set(before@);
    let ghost a_s = flags_set(after@);
    let mut edges: Vec<ButtonEdge> = Vec::new();
    let mut i: usize = 0;
    while i < BUTTON_COUNT
        invariant
            i <= BUTTON_COUNT,
            before@.len() == BUTTON_COUNT,
            after@.len() == BUTTON_COUNT,
            bs == flags_set(before@),
            a_s == flags_set(after@),
            edges@ == release_edges(bs, a_s, i as int),
        decreases BUTTON_COUNT - i,
    {
        let b = button_from_ordinal(i);
        assert(bs.contains(b) == before@[i as int]);
        assert(a_s.contains(b) == after@[i as int]);
        if before[i] && !after[i] {
            edges.push(ButtonEdge { button: b, is_pressed: false });
        }
        i = i + 1;
        assert(edges@ =~= release_edges(bs, a_s, i as int));
    }
    let ghost releases = edges@;
    let mut j: usize = 0;
    while j < BUTTON_COUNT
        invariant
            j <= BUTTON_COUNT,
            before@.len() == BUTTON_COUNT,
            after@.len() == BUTTON_COUNT,
            bs == flags_set(before@),
            a_s == flags_set(after@),
            releases == release_edges(bs, a_s, 15),
            edges@ == releases + press_edges(bs, a_s, j as int),
        decreases BUTTON_COUNT - j,
    {
        let b = button_from_ordinal(j);
        assert(bs.contains(b) == before@[j as int]);
        assert(a_s.contains(b) == after@[j as int]);
        if after[j] && !before[j] {
            edges.push(ButtonEdge { button: b, is_pressed: true });
        }
        j = j + 1;
        assert(edges@ =~= releases + press_edges(bs, a_s, j as int));
    }
    edges
}

fn ordered_flags(f: &Vec<bool>) -> (v: Vec<RemoteButton>)
    requires
        f@.len() == BUTTON_COUNT,
    ensures
        v@ == ordered_buttons(flags_set(f@), 15),
{
    broadcast use lemma_button_at_roundtrip;

    let ghost s = flags_set(f@);
    let mut v: Vec<RemoteButton> = Vec::new();
    let mut i: usize = 0;
    while i < BUTTON_COUNT
        invariant
            i <= BUTTON_COUNT,
            f@.len() == BUTTON_COUNT,
            s == flags_set(f@),
            v@ == ordered_buttons(s, i as int),
        decreases BUTTON_COUNT - i,
    {
        let b = button_from_ordinal(i);
        assert(s.contains(b) == f@[i as int]);
        if f[i] {
            v.push(b);
        }
        i = i + 1;
        assert(v@ =~= ordered_buttons(s, i as int));
    }
    v
}

/// Joins the keyboard and the HID view of the remote into one logical button
/// state: a button is held while either source holds it, and only changes of
/// that union produce edges.
#[derive(Debug)]
pub struct ButtonStateMerger {
    keyboard: Vec<bool>,
    hid: Vec<bool>,
    /// HID usages are decoded with the connected model's table.
    profile: RemoteProfile,
}

impl ButtonStateMerger {
    #[verifier::type_invariant]
    closed spec fn well_formed(self) -> bool {
        &&& self.keyboard@.len() == BUTTON_COUNT
        &&& self.hid@.len() == BUTTON_COUNT
    }

    /// Buttons held according to keyboard events.
    pub closed spec fn keyboard_set(self) -> Set<RemoteButton> {
        flags_set(self.keyboard@)
    }

    /// Buttons held according to the last HID report.
    pub closed spec fn hid_set(self) -> Set<RemoteButton> {
        flags_set(self.hid@)
    }

    pub closed spec fn profile_kind(self) -> ProfileKind {
        self.profile.kind()
    }

    /// The logical held set: the union of both sources.
    pub open spec fn active(self) -> Set<RemoteButton> {
        self.keyboard_set().union(self.hid_set())
    }

    /// A merger with nothing held, decoding with the default (Xiaomi) profile.
    pub fn new() -> (m: Self)
        ensures
            m.keyboard_set() == Set::<RemoteButton>::empty(),
            m.hid_set() == Set::<RemoteButton>::empty(),
            m.profile_kind() == ProfileKind::Xiaomi,
    {
        ButtonStateMerger {
            keyboard: no_flags(),
            hid: no_flags(),
            profile: crate::remote_profile::default_profile(),
        }
    }

    fn active_flags(&self) -> (r: Vec<bool>)
        ensures
            r@.len() == BUTTON_COUNT,
            flags_set(r@) == self.active(),
    {
        proof {
            use_type_invariant(self);
        }
        union_flags(&self.keyboard, &self.hid)
    }

    /// Switches the usage table. Switching to another model forgets the HID
    /// state (its buttons mean nothing under the new table) and reports the
    /// resulting releases; switching to the current model does nothing.
    pub fn set_profile(&mut self, profile: RemoteProfile) -> (edges: Vec<ButtonEdge>)
        ensures
            old(self).profile_kind() == profile.kind() ==> {
                &&& edges@.len() == 0
                &&& final(self).keyboard_set() == old(self).keyboard_set()
                &&& final(self).hid_set() == old(self).hid_set()
                &&& final(self).profile_kind() == old(self).profile_kind()
            },
            old(self).profile_kind() != profile.kind() ==> {
                &&& final(self).profile_kind() == profile.kind()
                &&& final(self).keyboard_set() == old(self).keyboard_set()
                &&& final(self).hid_set() == Set::<RemoteButton>::empty()
                &&& edges@ == spec_edges(old(self).active(), final(self).active())
            },
    {
        proof {
            use_type_invariant(&*self);
        }
        if self.profile.profile_kind() == profile.profile_kind() {
            return Vec::new();
        }
        let before = self.active_flags();
        self.profile = profile;
        self.hid = no_flags();
        let after = self.active_flags();
        edges_between(&before, &after)
    }

    pub fn profile(&self) -> (p: RemoteProfile)
        ensures
            p.kind() == self.profile_kind(),
    {
        self.profile
    }

    fn set_keyboard(&mut self, button: RemoteButton, is_pressed: bool) -> (edges: Vec<ButtonEdge>)
        ensures
            final(self).keyboard_set() == (if is_pressed {
                old(self).keyboard_set().insert(button)
            } else {
                old(self).keyboard_set().remove(button)
            }),
            final(self).hid_set() == old(self).hid_set(),
            final(self).profile_kind() == old(self).profile_kind(),
            edges@ == spec_edges(old(self).active(), final(self).active()),
    {
        broadcast use lemma_ordinal_roundtrip;

        proof {
            use_type_invariant(&*self);
        }
        let before = self.active_flags();
        let updated = with_flag(&self.keyboard, button.ordinal(), is_pressed);
        self.keyboard = updated;
        assert(self.keyboard_set() =~= if is_pressed {
            old(self).keyboard_set().insert(button)
        } else {
            old(self).keyboard_set().remove(button)
        });
        let after = self.active_flags();
        edges_between(&before, &after)
    }

    /// Applies a Raw Input keyboard event. Events that are no button change
    /// nothing.
    pub fn update_keyboard(&mut self, event: RawKeyboardEvent) -> (edges: Vec<ButtonEdge>)
        ensures
            match spec_button_for_keyboard(event.virtual_key, event.make_code) {
                None => {
                    &&& edges@.len() == 0
                    &&& final(self).keyboard_set() == old(self).keyboard_set()
                },
                Some(b) => final(self).keyboard_set() == (if spec_is_pressed(event.message) {
                    old(self).keyboard_set().insert(b)
                } else {
                    old(self).keyboard_set().remove(b)
                }),
            },
            final(self).hid_set() == old(self).hid_set(),
            final(self).profile_kind() == old(self).profile_kind(),
            edges@ == spec_edges(old(self).active(), final(self).active()),
    {
        match event.button() {
            None => {
                proof {
                    lemma_no_change_no_edges(self.active());
                }
                Vec::new()
            },
            Some(button) => self.set_keyboard(button, event.is_pressed()),
        }
    }

    /// Applies a keyboard edge already attributed to the remote.
    pub fn apply_keyboard_button_edge(&mut self, button: RemoteButton, is_pressed: bool) -> (edges:
        Vec<ButtonEdge>)
        ensures
            final(self).keyboard_set() == (if is_pressed {
                old(self).keyboard_set().insert(button)
            } else {
                old(self).keyboard_set().remove(button)
            }),
            final(self).hid_set() == old(self).hid_set(),
            final(self).profile_kind() == old(self).profile_kind(),
            edges@ == spec_edges(old(self).active(), final(self).active()),
    {
        self.set_keyboard(button, is_pressed)
    }

    /// The held buttons, in button order.
    pub fn active_button_set(&self) -> (v: Vec<RemoteButton>)
        ensures
            v@ == ordered_buttons(self.active(), 15),
    {
        let flags = self.active_flags();
        ordered_flags(&flags)
    }

    /// Applies one HID report (absolute state). A report that does not decode
    /// leaves the state unchanged.
    pub fn update_hid_report(&mut self, report: &[u8]) -> (r: Result<
        Vec<ButtonEdge>,
        RawInputDecodeError,
    >)
        ensures
            match (r, spec_decode_report(report@)) {
                (Ok(edges), Ok(usages)) => {
                    &&& final(self).hid_set() == hid_buttons(old(self).profile_kind(), usages)
                    &&& final(self).keyboard_set() == old(self).keyboard_set()
                    &&& final(self).profile_kind() == old(self).profile_kind()
                    &&& edges@ == spec_edges(old(self).active(), final(self).active())
                },
                (Err(e), Err(expected)) => {
                    &&& e == expected
                    &&& final(self).hid_set() == old(self).hid_set()
                    &&& final(self).keyboard_set() == old(self).keyboard_set()
                    &&& final(self).profile_kind() == old(self).profile_kind()
                },
                _ => false,
            },
    {
        match decode_report_usages(report) {
            Ok(usages) => Ok(self.update_hid_usages(usages)),
            Err(e) => Err(e),
        }
    }

    /// Applies the usage set of one HID report (absolute state): the HID side
    /// then holds exactly the buttons those usages decode to.
    pub fn update_hid_usages(&mut self, usages: BTreeSet<u16>) -> (edges: Vec<ButtonEdge>)
        ensures
            final(self).hid_set() == hid_buttons(old(self).profile_kind(), usages@),
            final(self).keyboard_set() == old(self).keyboard_set(),
            final(self).profile_kind() == old(self).profile_kind(),
            edges@ == spec_edges(old(self).active(), final(self).active()),
    {
        broadcast use lemma_button_at_roundtrip, lemma_ordinal_roundtrip;

        proof {
            use_type_invariant(&*self);
        }
        let before = self.active_flags();
        let mut hid: Vec<bool> = Vec::new();
        let mut i: usize = 0;
        let ghost kind = self.profile_kind();
        while i < BUTTON_COUNT
            invariant
                i <= BUTTON_COUNT,
                hid@.len() == i,
                kind == self.profile.kind(),
                forall|k: int|
                    0 <= k < i ==> #[trigger] hid@[k] == hid_buttons(kind, usages@).contains(
                        button_at(k),
                    ),
            decreases BUTTON_COUNT - i,
        {
            let b = button_from_ordinal(i);
            let held = match self.profile.usage_for_button(b) {
                Some(u) => usages.contains(&u),
                None => false,
            };
            assert(held == hid_buttons(kind, usages@).contains(b)) by {
                if hid_buttons(kind, usages@).contains(b) {
                    let u = choose|u: u16| usages@.contains(u) && kind_button_for_usage(kind, u) == Some(b);
                    lemma_usage_table_inverse(kind, u, b);
                }
                if let Some(u) = kind_usage_of(kind, b) {
                    lemma_usage_table_inverse(kind, u, b);
                }
            }
            hid.push(held);
            i = i + 1;
        }
        assert(flags_set(hid@) =~= hid_buttons(kind, usages@));
        self.hid = hid;
        let after = self.active_flags();
        edges_between(&before, &after)
    }

    /// Forgets every held button on both sources and reports each one of them
    /// released once.
    pub fn release_all(&mut self) -> (edges: Vec<ButtonEdge>)
        ensures
            final(self).keyboard_set() == Set::<RemoteButton>::empty(),
            final(self).hid_set() == Set::<RemoteButton>::empty(),
            final(self).profile_kind() == old(self).profile_kind(),
            edges@ == spec_edges(old(self).active(), Set::<RemoteButton>::empty()),
    {
        proof {
            use_type_invariant(&*self);
        }
        let before = self.active_flags();
        self.keyboard = no_flags();
        self.hid = no_flags();
        let after = self.active_flags();
        assert(self.active() =~= Set::<RemoteButton>::empty());
        edges_between(&before, &after)
    }
}

impl Default for ButtonStateMerger {
    fn default() -> (m: Self)
        ensures
            m.keyboard_set() == Set::<RemoteButton>::empty(),
            m.hid_set() == Set::<RemoteButton>::empty(),
            m.profile_kind() == ProfileKind::Xiaomi,
    {
        Self::new()
    }
}

/// The buttons a usage set decodes to under a profile.
pub open spec fn hid_buttons(kind: ProfileKind, usages: Set<u16>) -> Set<RemoteButton> {
    Set::new(
        |b: RemoteButton| exists|u: u16| usages.contains(u) && kind_button_for_usage(kind, u) == Some(b),
    )
}

/// Why no single remote device path could be chosen.
#[derive(Debug, Clone, Copy, PartialEq, Eq, Structural)]
pub enum DevicePathError {
    Missing,
    Ambiguous(usize),
}

/// Device paths are compared trimmed and ASCII-lower-cased.
pub fn normalize_device_path(path: &str) -> (s: String)
    ensures
        s@ == lower_seq(trim(path@)),
{
    let raw = chars_of(path);
    let (start, end) = trim_bounds(raw.as_slice());
    let trimmed = vstd::slice::slice_subrange(raw.as_slice(), start, end);
    let lowered = lower_chars(trimmed);
    string_of(lowered.as_slice())
}

/// Whether the path belongs to a Xiaomi RC001/RC003 remote.
pub fn device_path_matches_xiaomi_remote(path: &str) -> (b: bool)
    ensures
        b == kind_matches_path(ProfileKind::Xiaomi, path@),
{
    RemoteProfile::xiaomi().device_path_matches(path)
}

/// Whether the path belongs to any known remote model.
pub fn device_path_matches_known_remote(path: &str) -> (b: bool)
    ensures
        b == spec_profile_for_path(path@) is Some,
{
    profile_for_device_path(path).is_some()
}

/// The paths, in order, that belong to a known remote model.
pub open spec fn known_remote_paths(paths: Seq<String>) -> Seq<String>
    decreases paths.len(),
{
    if paths.len() == 0 {
        Seq::empty()
    } else {
        known_remote_paths(paths.drop_last()) + if spec_profile_for_path(paths.last()@) is Some {
            seq![paths.last()]
        } else {
            Seq::empty()
        }
    }
}

/// Picks the one known remote among the paths; refuses to choose when none
/// or several match.
pub fn select_single_device_path(paths: &[String]) -> (r: Result<String, DevicePathError>)
    ensures
        ({
            let found = known_remote_paths(paths@);
            if found.len() == 0 {
                r == Err::<String, DevicePathError>(DevicePathError::Missing)
            } else if found.len() == 1 {
                r matches Ok(s) && s@ == found[0]@
            } else {
                r == Err::<String, DevicePathError>(DevicePathError::Ambiguous(found.len() as usize))
            }
        }),
{
    let mut count: usize = 0;
    let mut first: Option<usize> = None;
    let mut i: usize = 0;
    while i < paths.len()
        invariant
            i <= paths@.len(),
            count as int == known_remote_paths(paths@.subrange(0, i as int)).len(),
            count <= i,
            count == 0 <==> first is None,
            first matches Some(f) ==> f < i && known_remote_paths(paths@.subrange(0, i as int))[0]
                == paths@[f as int],
        decreases paths.len() - i,
    {
        let ghost prefix = paths@.subrange(0, i as int);
        assert(paths@.subrange(0, i + 1).drop_last() =~= prefix);
        if device_path_matches_known_remote(paths[i].as_str()) {
            if count == 0 {
                first = Some(i);
            }
            count = count + 1;
        }
        i = i + 1;
    }
    assert(paths@.subrange(0, paths@.len() as int) =~= paths@);
    if count == 0 {
        Err(DevicePathError::Missing)
    } else if count == 1 {
        match first {
            Some(f) => Ok(paths[f].clone()),
            None => Err(DevicePathError::Missing),
        }
    } else {
        Err(DevicePathError::Ambiguous(count))
    }
}

} // verus!
