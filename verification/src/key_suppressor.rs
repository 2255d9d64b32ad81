//! Decisions of the hold-to-talk voice-key suppressor. The remote's voice key
//! arrives as F5; while a voice session runs (or shortly after the remote was
//! seen pressing F5) the F5 edges are swallowed so that the injected chord is
//! not turned into a three-key chord by the input method.
//!
//! Anti-stuck-key pairing: a key-up is swallowed only when every key-down of
//! that hold was swallowed; once any key-down leaked to the system (including
//! auto-repeat downs), or the pairing is unknown, the key-up is let through.
use vstd::prelude::*;

verus! {

/// Virtual key of the voice key.
pub const VK_F5: u32 = 0x74;

/// No hold in progress, or pairing unknown.
pub const HOLD_NONE: u32 = 0;

/// Every key-down of the current hold was swallowed.
pub const HOLD_SWALLOWED_ALL: u32 = 1;

/// A key-down of the current hold reached the system.
pub const HOLD_LEAKED: u32 = 2;

/// How long after a session ends (or the remote is seen) F5 stays armed.
pub const ARM_GRACE_MS: u64 = 250;

/// How long a first F5 key-down may wait for an arming signal.
pub const BOUNDED_WAIT_MS: u64 = 60;

pub open spec fn spec_decide(
    vk_code: u32,
    is_key_up: bool,
    session: bool,
    armed_now: bool,
    hold_pairing: u32,
) -> bool {
    if vk_code != VK_F5 {
        false
    } else if is_key_up {
        hold_pairing == HOLD_SWALLOWED_ALL
    } else {
        session || armed_now
    }
}

/// Whether to swallow a key edge: only F5; a key-down while a session runs or
/// while armed; a key-up only when its hold was swallowed entirely.
pub fn decide(vk_code: u32, is_key_up: bool, session: bool, armed_now: bool, hold_pairing: u32) -> (b:
    bool)
    ensures
        b == spec_decide(vk_code, is_key_up, session, armed_now, hold_pairing),
{
    if vk_code != VK_F5 {
        return false;
    }
    if is_key_up {
        return hold_pairing == HOLD_SWALLOWED_ALL;
    }
    session || armed_now
}

pub open spec fn spec_track_down(hold_pairing: u32, down_swallowed: bool) -> u32 {
    if hold_pairing == HOLD_LEAKED {
        HOLD_LEAKED
    } else if down_swallowed {
        HOLD_SWALLOWED_ALL
    } else {
        HOLD_LEAKED
    }
}

/// Pairing after a key-down: any leaked key-down taints the hold for good.
pub fn track_down(hold_pairing: u32, down_swallowed: bool) -> (h: u32)
    ensures
        h == spec_track_down(hold_pairing, down_swallowed),
{
    if hold_pairing == HOLD_LEAKED {
        return HOLD_LEAKED;
    }
    if down_swallowed {
        HOLD_SWALLOWED_ALL
    } else {
        HOLD_LEAKED
    }
}

/// Pairing after a sequence of key-down outcomes.
pub open spec fn pairing_after(start: u32, downs: Seq<bool>) -> u32
    decreases downs.len(),
{
    if downs.len() == 0 {
        start
    } else {
        spec_track_down(pairing_after(start, downs.drop_last()), downs.last())
    }
}

/// Anti-stuck-key law: starting a hold from `HOLD_NONE`, the key-up that
/// ends it is swallowed exactly when the hold had at least one key-down and
/// every key-down was swallowed.
pub proof fn lemma_up_swallowed_iff_all_downs_swallowed(downs: Seq<bool>, session: bool, armed: bool)
    ensures
        spec_decide(VK_F5, true, session, armed, pairing_after(HOLD_NONE, downs)) <==> (downs.len()
            > 0 && forall|i: int| 0 <= i < downs.len() ==> #[trigger] downs[i]),
    decreases downs.len(),
{
    if downs.len() > 0 {
        lemma_up_swallowed_iff_all_downs_swallowed(downs.drop_last(), session, armed);
        lemma_pairing_values(downs.drop_last());
        if forall|i: int| 0 <= i < downs.len() ==> #[trigger] downs[i] {
            assert forall|i: int| 0 <= i < downs.drop_last().len() implies #[trigger] downs.drop_last()[i] by {
                assert(downs[i]);
            }
        }
        if !(forall|i: int| 0 <= i < downs.len() ==> #[trigger] downs[i]) {
            let j = choose|i: int| 0 <= i < downs.len() && !downs[i];
            if j < downs.len() - 1 {
                assert(!downs.drop_last()[j]);
            }
        }
    }
}

proof fn lemma_pairing_values(downs: Seq<bool>)
    ensures
        pairing_after(HOLD_NONE, downs) == HOLD_NONE <==> downs.len() == 0,
        pairing_after(HOLD_NONE, downs) == HOLD_NONE || pairing_after(HOLD_NONE, downs)
            == HOLD_SWALLOWED_ALL || pairing_after(HOLD_NONE, downs) == HOLD_LEAKED,
    decreases downs.len(),
{
    if downs.len() > 0 {
        lemma_pairing_values(downs.drop_last());
    }
}

/// Other keys are never touched.
pub proof fn lemma_only_f5_is_swallowed(vk: u32, up: bool, session: bool, armed: bool, hold: u32)
    requires
        vk != VK_F5,
    ensures
        !spec_decide(vk, up, session, armed, hold),
{
}

/// Shared state of the suppressor: the session flag, the arming deadline
/// (milliseconds, 0 = never armed), the hold pairing and decision counters.
#[derive(Debug, Clone, Copy, PartialEq, Eq, Structural)]
pub struct SuppressorState {
    pub session_active: bool,
    pub armed_until_ms: u64,
    pub hold_pairing: u32,
    pub downs_seen: u64,
    pub downs_swallowed: u64,
    pub downs_leaked: u64,
    pub downs_armed_late: u64,
}

pub open spec fn spec_armed(s: SuppressorState, now: u64) -> bool {
    s.armed_until_ms != 0 && now < s.armed_until_ms
}

impl SuppressorState {
    /// Not in a session, not armed, no hold.
    pub fn new() -> (s: Self)
        ensures
            !s.session_active,
            s.armed_until_ms == 0,
            s.hold_pairing == HOLD_NONE,
            s.downs_seen == 0 && s.downs_swallowed == 0 && s.downs_leaked == 0
                && s.downs_armed_late == 0,
    {
        SuppressorState {
            session_active: false,
            armed_until_ms: 0,
            hold_pairing: HOLD_NONE,
            downs_seen: 0,
            downs_swallowed: 0,
            downs_leaked: 0,
            downs_armed_late: 0,
        }
    }

    pub fn armed(&self, now: u64) -> (b: bool)
        ensures
            b == spec_armed(*self, now),
    {
        self.armed_until_ms != 0 && now < self.armed_until_ms
    }

    /// A key-down may be swallowed at once: session running or armed.
    pub fn swallow_ready(&self, now: u64) -> (b: bool)
        ensures
            b == (self.session_active || spec_armed(*self, now)),
    {
        self.session_active || self.armed(now)
    }

    /// Arms the grace window (a control notification of the remote arrived).
    pub fn arm_grace(&mut self, now: u64)
        requires
            now <= u64::MAX - ARM_GRACE_MS,
        ensures
            *final(self) == (SuppressorState { armed_until_ms: (now + ARM_GRACE_MS) as u64, ..*old(self) }),
    {
        self.armed_until_ms = now + ARM_GRACE_MS;
    }

    /// Voice session start or end; the end keeps a grace window for a late
    /// key-up.
    pub fn set_session_active(&mut self, active: bool, now: u64)
        requires
            now <= u64::MAX - ARM_GRACE_MS,
        ensures
            active ==> *final(self) == (SuppressorState { session_active: true, ..*old(self) }),
            !active ==> *final(self) == (SuppressorState {
                session_active: false,
                armed_until_ms: (now + ARM_GRACE_MS) as u64,
                ..*old(self)
            }),
    {
        if active {
            self.session_active = true;
        } else {
            self.session_active = false;
            self.armed_until_ms = now + ARM_GRACE_MS;
        }
    }

    /// F5 key-up: the pairing is consumed; returns whether to swallow it.
    pub fn on_f5_up(&mut self, now: u64) -> (swallow: bool)
        ensures
            swallow == spec_decide(
                VK_F5,
                true,
                old(self).session_active,
                spec_armed(*old(self), now),
                old(self).hold_pairing,
            ),
            *final(self) == (SuppressorState { hold_pairing: HOLD_NONE, ..*old(self) }),
    {
        let hold = self.hold_pairing;
        self.hold_pairing = HOLD_NONE;
        decide(VK_F5, true, self.session_active, self.armed(now), hold)
    }

    /// F5 key-down after the bounded wait: `swallowed` tells whether an arming
    /// signal was there (at once, or `waited` and then in time). Updates the
    /// pairing and the counters; returns whether to swallow.
    pub fn on_f5_down(&mut self, waited: bool, swallowed: bool) -> (swallow: bool)
        ensures
            swallow == swallowed,
            final(self).hold_pairing == spec_track_down(old(self).hold_pairing, swallowed),
            final(self).session_active == old(self).session_active,
            final(self).armed_until_ms == old(self).armed_until_ms,
            final(self).downs_seen == old(self).downs_seen.wrapping_add(1),
            final(self).downs_swallowed == if swallowed {
                old(self).downs_swallowed.wrapping_add(1)
            } else {
                old(self).downs_swallowed
            },
            final(self).downs_leaked == if swallowed {
                old(self).downs_leaked
            } else {
                old(self).downs_leaked.wrapping_add(1)
            },
            final(self).downs_armed_late == if waited && swallowed {
                old(self).downs_armed_late.wrapping_add(1)
            } else {
                old(self).downs_armed_late
            },
    {
        if waited && swallowed {
            self.downs_armed_late = self.downs_armed_late.wrapping_add(1);
        }
        self.downs_seen = self.downs_seen.wrapping_add(1);
        if swallowed {
            self.downs_swallowed = self.downs_swallowed.wrapping_add(1);
        } else {
            self.downs_leaked = self.downs_leaked.wrapping_add(1);
        }
        self.hold_pairing = track_down(self.hold_pairing, swallowed);
        swallowed
    }
}

/// `RIM_TYPEKEYBOARD`: the Raw Input record of a keyboard.
pub const RIM_TYPE_KEYBOARD: u32 = 1;

/// Keyboard messages a low-level hook sees: `Some(false)` for a key-down
/// (`WM_KEYDOWN`, `WM_SYSKEYDOWN`), `Some(true)` for a key-up (`WM_KEYUP`,
/// `WM_SYSKEYUP`), `None` for anything else.
pub fn hook_key_edge(message: u32) -> (edge: Option<bool>)
    ensures
        edge == if message == 0x0100 || message == 0x0104 {
            Some(false)
        } else if message == 0x0101 || message == 0x0105 {
            Some(true)
        } else {
            None::<bool>
        },
{
    if message == 0x0100 || message == 0x0104 {
        Some(false)
    } else if message == 0x0101 || message == 0x0105 {
        Some(true)
    } else {
        None
    }
}

pub open spec fn le_u16(b: Seq<u8>, at: int) -> int {
    b[at] + 256 * b[at + 1]
}

pub open spec fn le_u32(b: Seq<u8>, at: int) -> int {
    le_u16(b, at) + 65536 * le_u16(b, at + 2)
}

pub open spec fn le_u64(b: Seq<u8>, at: int) -> int {
    le_u32(b, at) + 0x1_0000_0000 * le_u32(b, at + 4)
}

/// The device of a Raw Input record (x64 layout: `dwType` at 0, `hDevice`
/// at 8, the keyboard's `VKey` at 30) when it is an F5 keyboard event.
pub open spec fn spec_f5_record_device(b: Seq<u8>) -> Option<u64> {
    if b.len() < 32 {
        None
    } else if le_u32(b, 0) != RIM_TYPE_KEYBOARD {
        None
    } else if le_u16(b, 30) != VK_F5 {
        None
    } else {
        Some(le_u64(b, 8) as u64)
    }
}

/// The device handle of a Raw Input record that is an F5 key event; the
/// caller arms the suppressor when that device is a known remote.
pub fn f5_record_device(bytes: &[u8]) -> (device: Option<u64>)
    ensures
        device == spec_f5_record_device(bytes@),
{
    if bytes.len() < 32 {
        return None;
    }
    let kind = bytes[0] as u32 + bytes[1] as u32 * 256 + bytes[2] as u32 * 65536 + bytes[3] as u32
        * 16777216;
    if kind != RIM_TYPE_KEYBOARD {
        return None;
    }
    let vkey = bytes[30] as u32 + bytes[31] as u32 * 256;
    if vkey != VK_F5 {
        return None;
    }
    let low = bytes[8] as u64 + bytes[9] as u64 * 256 + bytes[10] as u64 * 65536 + bytes[11] as u64
        * 16777216;
    let high = bytes[12] as u64 + bytes[13] as u64 * 256 + bytes[14] as u64 * 65536 + bytes[15] as u64
        * 16777216;
    Some(low + high * 0x1_0000_0000)
}

} // verus!
