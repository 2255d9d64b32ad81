//! Gesture recognition for ordinary remote buttons (single / double / long
//! press and hold-to-repeat), enabled per button by its mapping:
//!
//! - no double or long action configured: the single action fires on the
//!   press edge, with no delay, and repeats while held when the button (or a
//!   wheel action) has a repeat interval;
//! - a long action configured (no double): a quick press fires single on
//!   release, holding for 550 ms fires long;
//! - a double action configured: release opens the double-click window, a
//!   second release fires double at once, the window timing out fires single;
//!   no repeat.
//!
//! The second press of a double click restarts the long-press timer. The
//! recognizer is a pure state machine: the caller passes the time (in
//! milliseconds) and runs `advance` when `next_deadline` is reached.
use vstd::prelude::*;
use crate::raw_input::{
    all_buttons, button_at, button_from_ordinal, button_ordinal, lemma_button_at_roundtrip,
    lemma_ordinal_roundtrip, spec_repeat_interval, RemoteButton, BUTTON_COUNT,
};
use crate::send_input::{
    spec_is_wheel, ButtonAction, ButtonActions, ButtonMappings, ButtonTrigger,
    WHEEL_REPEAT_INTERVAL_MS,
};

verus! {

/// Bounds of the double-click window (milliseconds). The window follows the
/// user's system double-click speed within these bounds: Bluetooth edge
/// jitter makes anything shorter than 500 ms split natural double taps.
pub const DOUBLE_CLICK_WINDOW_FLOOR_MS: u64 = 500;

pub const DOUBLE_CLICK_WINDOW_CEILING_MS: u64 = 900;

/// Hold time that fires a long press.
pub const LONG_PRESS_THRESHOLD_MS: u64 = 550;

/// Hold time before the single action starts repeating.
pub const REPEAT_START_DELAY_MS: u64 = 350;

/// Latest time stamp the recognizer accepts: every timer it starts ends
/// within one second of the event that starts it.
pub const MAX_TIME_MS: u64 = 0xFFFF_FFFF_FFFF_FC17;

pub open spec fn spec_clamp_window(system: u64) -> u64 {
    if system < DOUBLE_CLICK_WINDOW_FLOOR_MS {
        DOUBLE_CLICK_WINDOW_FLOOR_MS
    } else if system > DOUBLE_CLICK_WINDOW_CEILING_MS {
        DOUBLE_CLICK_WINDOW_CEILING_MS
    } else {
        system
    }
}

/// Clamps the system double-click speed into the usable window.
pub fn clamp_double_click_window(system: u64) -> (w: u64)
    ensures
        w == spec_clamp_window(system),
{
    if system < DOUBLE_CLICK_WINDOW_FLOOR_MS {
        DOUBLE_CLICK_WINDOW_FLOOR_MS
    } else if system > DOUBLE_CLICK_WINDOW_CEILING_MS {
        DOUBLE_CLICK_WINDOW_CEILING_MS
    } else {
        system
    }
}

/// The window for a reading of the system double-click speed: the reading
/// clamped into the window bounds, the floor when there is no reading.
pub open spec fn spec_double_click_window(system_millis: Option<u64>) -> u64 {
    match system_millis {
        Some(m) => if m > 0 {
            spec_clamp_window(m)
        } else {
            DOUBLE_CLICK_WINDOW_FLOOR_MS
        },
        None => DOUBLE_CLICK_WINDOW_FLOOR_MS,
    }
}

/// The double-click window for a system double-click speed; when the system
/// value cannot be read (`None`, or a zero reading) the floor is used.
pub fn double_click_window(system_millis: Option<u64>) -> (w: u64)
    ensures
        w == spec_double_click_window(system_millis),
        DOUBLE_CLICK_WINDOW_FLOOR_MS <= w <= DOUBLE_CLICK_WINDOW_CEILING_MS,
{
    match system_millis {
        Some(m) => if m > 0 {
            clamp_double_click_window(m)
        } else {
            DOUBLE_CLICK_WINDOW_FLOOR_MS
        },
        None => DOUBLE_CLICK_WINDOW_FLOOR_MS,
    }
}

/// Gesture configuration of one button, derived from its mapping.
#[derive(Debug, Clone, Copy, PartialEq, Eq, Structural)]
pub struct GestureConfig {
    /// A single-press action is configured.
    pub single_configured: bool,
    /// A double-press action is configured: single waits for the window.
    pub double_enabled: bool,
    /// A long-press action is configured.
    pub long_enabled: bool,
    /// Repeat interval of the raw single path, in milliseconds.
    pub repeat: Option<u64>,
}

/// The raw single path: only a single action configured.
pub open spec fn spec_raw_path(c: GestureConfig) -> bool {
    c.single_configured && !c.double_enabled && !c.long_enabled
}

/// The gesture configuration `for_button` derives from a button's actions.
pub open spec fn config_for_actions(a: ButtonActions, b: RemoteButton) -> GestureConfig {
    let single_configured = a.single@.len() > 0;
    let double_enabled = a.double@.len() > 0;
    let long_enabled = a.long@.len() > 0;
    GestureConfig {
        single_configured,
        double_enabled,
        long_enabled,
        repeat: if single_configured && !double_enabled && !long_enabled {
            if a.single@.len() == 1 {
                match a.single@[0] {
                    ButtonAction::Mouse { kind } => if spec_is_wheel(kind) {
                        Some(WHEEL_REPEAT_INTERVAL_MS)
                    } else {
                        spec_repeat_interval(b)
                    },
                    _ => spec_repeat_interval(b),
                }
            } else {
                None
            }
        } else {
            None
        },
    }
}

/// Buttons are ignored when the master switch is off, when nothing but
/// `Disabled` is mapped, and when the single cell holds exactly one hold
/// shortcut (that runs on press/release edges, outside gestures).
pub open spec fn spec_for_button(m: ButtonMappings, b: RemoteButton) -> Option<GestureConfig> {
    match m.spec_actions(b) {
        None => None,
        Some(a) => if !m.enabled || !crate::send_input::actions_configured(a) {
            None
        } else if a.single@.len() == 1 && a.single@[0] is HoldShortcut {
            None
        } else {
            Some(config_for_actions(a, b))
        },
    }
}

impl GestureConfig {
    /// Derives the gesture configuration of `button`; `None` means the
    /// recognizer ignores the button.
    pub fn for_button(mappings: &ButtonMappings, button: RemoteButton) -> (c: Option<Self>)
        ensures
            c == spec_for_button(*mappings, button),
    {
        let actions = match mappings.actions(button) {
            Some(a) => a,
            None => {
                return None;
            },
        };
        if !mappings.enabled || !actions.any_configured() {
            return None;
        }
        if actions.single.len() == 1 {
            if let ButtonAction::HoldShortcut { .. } = &actions.single[0] {
                return None;
            }
        }
        let single_configured = actions.single.len() > 0;
        let double_enabled = actions.double.len() > 0;
        let long_enabled = actions.long.len() > 0;
        let repeat = if single_configured && !double_enabled && !long_enabled {
            if actions.single.len() == 1 {
                match &actions.single[0] {
                    ButtonAction::Mouse { kind } => if kind.is_wheel() {
                        Some(WHEEL_REPEAT_INTERVAL_MS)
                    } else {
                        button.repeat_interval()
                    },
                    _ => button.repeat_interval(),
                }
            } else {
                None
            }
        } else {
            None
        };
        Some(GestureConfig { single_configured, double_enabled, long_enabled, repeat })
    }

    fn raw_path(&self) -> (b: bool)
        ensures
            b == spec_raw_path(*self),
    {
        self.single_configured && !self.double_enabled && !self.long_enabled
    }
}

/// Per-button gesture state; the deadlines are time stamps in milliseconds.
#[derive(Debug, Clone, Copy, PartialEq, Eq, Structural)]
pub struct ButtonGestureState {
    pub pressed: bool,
    pub is_second_press: bool,
    pub waiting_for_second: bool,
    pub long_fired: bool,
    pub long_deadline: Option<u64>,
    pub double_deadline: Option<u64>,
    pub repeat_deadline: Option<u64>,
}

pub open spec fn idle_state() -> ButtonGestureState {
    ButtonGestureState {
        pressed: false,
        is_second_press: false,
        waiting_for_second: false,
        long_fired: false,
        long_deadline: None,
        double_deadline: None,
        repeat_deadline: None,
    }
}

fn idle() -> (s: ButtonGestureState)
    ensures
        s == idle_state(),
{
    ButtonGestureState {
        pressed: false,
        is_second_press: false,
        waiting_for_second: false,
        long_fired: false,
        long_deadline: None,
        double_deadline: None,
        repeat_deadline: None,
    }
}

/// Press edge: a pending double-click window turns this into the second
/// press; the long timer (re)starts; the raw path fires single at once and
/// starts the repeat timer.
pub open spec fn press_step(c: GestureConfig, s: ButtonGestureState, now: u64) -> (
    ButtonGestureState,
    Seq<ButtonTrigger>,
) {
    let s1 = if s.waiting_for_second {
        ButtonGestureState {
            waiting_for_second: false,
            is_second_press: true,
            double_deadline: None,
            ..s
        }
    } else {
        s
    };
    let s2 = ButtonGestureState {
        pressed: true,
        long_deadline: if c.long_enabled {
            Some((now + LONG_PRESS_THRESHOLD_MS) as u64)
        } else {
            s1.long_deadline
        },
        ..s1
    };
    if spec_raw_path(c) {
        (
            ButtonGestureState {
                repeat_deadline: if c.repeat is Some {
                    Some((now + REPEAT_START_DELAY_MS) as u64)
                } else {
                    s2.repeat_deadline
                },
                ..s2
            },
            seq![ButtonTrigger::Single],
        )
    } else {
        (s2, Seq::empty())
    }
}

/// Release edge: timers stop; after a long press nothing fires; the second
/// release of a double click fires double; with a double action the window
/// opens; the raw path already fired; otherwise single fires.
pub open spec fn release_step(c: GestureConfig, s: ButtonGestureState, now: u64, window: u64) -> (
    ButtonGestureState,
    Seq<ButtonTrigger>,
) {
    let s1 = ButtonGestureState {
        pressed: false,
        long_deadline: None,
        repeat_deadline: None,
        ..s
    };
    if s1.long_fired {
        (ButtonGestureState { long_fired: false, is_second_press: false, ..s1 }, Seq::empty())
    } else if s1.is_second_press {
        (ButtonGestureState { is_second_press: false, ..s1 }, seq![ButtonTrigger::Double])
    } else if c.double_enabled {
        (
            ButtonGestureState {
                waiting_for_second: true,
                double_deadline: Some((now + window) as u64),
                ..s1
            },
            Seq::empty(),
        )
    } else if spec_raw_path(c) {
        (s1, Seq::empty())
    } else {
        (s1, seq![ButtonTrigger::Single])
    }
}

pub open spec fn due(d: Option<u64>, now: u64) -> bool {
    d matches Some(t) && t <= now
}

/// Timers due at `now`, in the order: double-click window (fires single),
/// long press (fires long while still held), repeat (fires single and
/// re-arms while held, stops otherwise).
pub open spec fn advance_step(c: GestureConfig, s: ButtonGestureState, now: u64) -> (
    ButtonGestureState,
    Seq<ButtonTrigger>,
) {
    let (s1, o1) = if due(s.double_deadline, now) {
        (
            ButtonGestureState { double_deadline: None, waiting_for_second: false, ..s },
            seq![ButtonTrigger::Single],
        )
    } else {
        (s, Seq::<ButtonTrigger>::empty())
    };
    let (s2, o2) = if due(s1.long_deadline, now) {
        if s1.pressed {
            (
                ButtonGestureState { long_deadline: None, long_fired: true, ..s1 },
                seq![ButtonTrigger::Long],
            )
        } else {
            (ButtonGestureState { long_deadline: None, ..s1 }, Seq::<ButtonTrigger>::empty())
        }
    } else {
        (s1, Seq::<ButtonTrigger>::empty())
    };
    let (s3, o3) = if c.repeat is Some && due(s2.repeat_deadline, now) {
        if s2.pressed {
            (
                ButtonGestureState {
                    repeat_deadline: Some((now + c.repeat->0) as u64),
                    ..s2
                },
                seq![ButtonTrigger::Single],
            )
        } else {
            (ButtonGestureState { repeat_deadline: None, ..s2 }, Seq::<ButtonTrigger>::empty())
        }
    } else {
        (s2, Seq::<ButtonTrigger>::empty())
    };
    (s3, o1 + o2 + o3)
}

pub type Slot = Option<(GestureConfig, ButtonGestureState)>;

/// Repeat intervals stay within one second.
pub open spec fn repeat_ok(slot: Slot) -> bool {
    slot matches Some((c, _)) ==> (c.repeat matches Some(iv) ==> iv <= 1000)
}

/// The slots after `advance` at `now`.
pub open spec fn advance_slot(slot: Slot, now: u64) -> Slot {
    match slot {
        Some((c, s)) => Some((c, advance_step(c, s, now).0)),
        None => None,
    }
}

/// What `advance` fires for the first `n` buttons, in button order.
pub open spec fn advance_fired(slots: Seq<Slot>, now: u64, n: int) -> Seq<(RemoteButton, ButtonTrigger)>
    decreases n,
{
    if n <= 0 {
        Seq::empty()
    } else {
        advance_fired(slots, now, n - 1) + match slots[n - 1] {
            Some((c, s)) => advance_step(c, s, now).1.map_values(
                |t: ButtonTrigger| (button_at(n - 1), t),
            ),
            None => Seq::empty(),
        }
    }
}

pub open spec fn min_opt(a: Option<u64>, b: Option<u64>) -> Option<u64> {
    match (a, b) {
        (Some(x), Some(y)) => Some(if x <= y { x } else { y }),
        (Some(x), None) => Some(x),
        (None, y) => y,
    }
}

pub open spec fn slot_deadline(slot: Slot) -> Option<u64> {
    match slot {
        Some((_, s)) => min_opt(min_opt(s.long_deadline, s.double_deadline), s.repeat_deadline),
        None => None,
    }
}

/// The earliest pending timer among the first `n` buttons.
pub open spec fn earliest_deadline(slots: Seq<Slot>, n: int) -> Option<u64>
    decreases n,
{
    if n <= 0 {
        None
    } else {
        min_opt(earliest_deadline(slots, n - 1), slot_deadline(slots[n - 1]))
    }
}

/// Per-button state machine over all buttons, with one double-click window.
#[derive(Debug)]
pub struct GestureRecognizer {
    buttons: Vec<Slot>,
    double_click_window: u64,
}

fn fresh_slots() -> (v: Vec<Slot>)
    ensures
        v@.len() == BUTTON_COUNT,
        forall|i: int| 0 <= i < BUTTON_COUNT ==> #[trigger] v@[i] is None,
{
    let mut v: Vec<Slot> = Vec::new();
    let mut i: usize = 0;
    while i < BUTTON_COUNT
        invariant
            i <= BUTTON_COUNT,
            v@.len() == i,
            forall|k: int| 0 <= k < i ==> #[trigger] v@[k] is None,
        decreases BUTTON_COUNT - i,
    {
        v.push(None);
        i = i + 1;
    }
    v
}

impl GestureRecognizer {
    #[verifier::type_invariant]
    closed spec fn well_formed(self) -> bool {
        &&& self.buttons@.len() == BUTTON_COUNT
        &&& DOUBLE_CLICK_WINDOW_FLOOR_MS <= self.double_click_window <= DOUBLE_CLICK_WINDOW_CEILING_MS
        &&& forall|i: int| 0 <= i < BUTTON_COUNT ==> repeat_ok(#[trigger] self.buttons@[i])
    }

    /// Configuration and state of every button, indexed by ordinal.
    pub closed spec fn slots(self) -> Seq<Slot> {
        self.buttons@
    }

    pub closed spec fn window(self) -> u64 {
        self.double_click_window
    }

    pub open spec fn slot(self, b: RemoteButton) -> Slot {
        self.slots()[button_ordinal(b)]
    }

    fn replace_slot(&mut self, i: usize, slot: Slot)
        requires
            i < BUTTON_COUNT,
            repeat_ok(slot),
        ensures
            final(self).buttons@ == old(self).buttons@.update(i as int, slot),
            final(self).double_click_window == old(self).double_click_window,
    {
        proof {
            use_type_invariant(&*self);
        }
        let mut slots = fresh_slots();
        std::mem::swap(&mut slots, &mut self.buttons);
        slots.set(i, slot);
        assert(forall|k: int| 0 <= k < BUTTON_COUNT ==> repeat_ok(#[trigger] slots@[k]));
        std::mem::swap(&mut slots, &mut self.buttons);
    }

    /// A recognizer with no button configured, whose double-click window
    /// follows the system double-click speed `system_millis` (as read by the
    /// caller) within the window bounds.
    pub fn new(system_millis: Option<u64>) -> (r: Self)
        ensures
            r.window() == spec_double_click_window(system_millis),
            forall|i: int| 0 <= i < BUTTON_COUNT ==> #[trigger] r.slots()[i] is None,
            r.slots().len() == BUTTON_COUNT,
    {
        GestureRecognizer {
            buttons: fresh_slots(),
            double_click_window: double_click_window(system_millis),
        }
    }

    /// A recognizer with the given double-click window (clamped).
    pub fn with_double_click_window(window: u64) -> (r: Self)
        ensures
            r.window() == spec_clamp_window(window),
            forall|i: int| 0 <= i < BUTTON_COUNT ==> #[trigger] r.slots()[i] is None,
            r.slots().len() == BUTTON_COUNT,
    {
        GestureRecognizer { buttons: fresh_slots(), double_click_window: clamp_double_click_window(window) }
    }

    pub fn double_click_window(&self) -> (w: u64)
        ensures
            w == self.window(),
    {
        self.double_click_window
    }

    /// Rebuilds every button's configuration from the mapping. All gesture
    /// state is dropped: pending windows, long timers and repeats are
    /// cancelled without firing.
    pub fn configure(&mut self, mappings: &ButtonMappings)
        ensures
            final(self).window() == old(self).window(),
            final(self).slots().len() == BUTTON_COUNT,
            forall|i: int|
                0 <= i < BUTTON_COUNT ==> #[trigger] final(self).slots()[i] == match spec_for_button(
                    *mappings,
                    button_at(i),
                ) {
                    Some(c) => Some((c, idle_state())),
                    None => None,
                },
    {
        let mut slots: Vec<Slot> = Vec::new();
        let buttons = all_buttons();
        let mut i: usize = 0;
        while i < BUTTON_COUNT
            invariant
                i <= BUTTON_COUNT,
                buttons@.len() == BUTTON_COUNT,
                forall|k: int| 0 <= k < BUTTON_COUNT ==> buttons@[k] == button_at(k),
                slots@.len() == i,
                forall|k: int| 0 <= k < i ==> repeat_ok(#[trigger] slots@[k]),
                forall|k: int|
                    0 <= k < i ==> #[trigger] slots@[k] == match spec_for_button(
                        *mappings,
                        button_at(k),
                    ) {
                        Some(c) => Some((c, idle_state())),
                        None => None,
                    },
            decreases BUTTON_COUNT - i,
        {
            proof {
                lemma_config_repeat_bound(*mappings, button_at(i as int));
            }
            let slot = match GestureConfig::for_button(mappings, buttons[i]) {
                Some(c) => Some((c, idle())),
                None => None,
            };
            slots.push(slot);
            i = i + 1;
        }
        proof {
            use_type_invariant(&*self);
        }
        self.buttons = slots;
    }

    /// Press edge; returns the gestures that fire immediately.
    pub fn press(&mut self, button: RemoteButton, now: u64) -> (fired: Vec<ButtonTrigger>)
        requires
            now <= MAX_TIME_MS,
        ensures
            final(self).window() == old(self).window(),
            old(self).slots().len() == BUTTON_COUNT,
            final(self).slots().len() == BUTTON_COUNT,
            match old(self).slot(button) {
                None => {
                    &&& fired@.len() == 0
                    &&& final(self).slots() == old(self).slots()
                },
                Some((c, s)) => {
                    &&& final(self).slots() == old(self).slots().update(
                        button_ordinal(button),
                        Some((c, press_step(c, s, now).0)),
                    )
                    &&& fired@ == press_step(c, s, now).1
                },
            },
    {
        proof {
            use_type_invariant(&*self);
        }
        let i = button.ordinal();
        let (config, state) = match self.buttons[i] {
            Some(slot) => slot,
            None => {
                return Vec::new();
            },
        };
        let mut st = state;
        if st.waiting_for_second {
            st.waiting_for_second = false;
            st.is_second_press = true;
            st.double_deadline = None;
        }
        st.pressed = true;
        if config.long_enabled {
            st.long_deadline = Some(now + LONG_PRESS_THRESHOLD_MS);
        }
        let mut fired = Vec::new();
        if config.raw_path() {
            if config.repeat.is_some() {
                st.repeat_deadline = Some(now + REPEAT_START_DELAY_MS);
            }
            fired.push(ButtonTrigger::Single);
        }
        self.replace_slot(i, Some((config, st)));
        assert(fired@ =~= press_step(config, state, now).1);
        fired
    }

    /// Release edge; returns the gestures that fire immediately.
    pub fn release(&mut self, button: RemoteButton, now: u64) -> (fired: Vec<ButtonTrigger>)
        requires
            now <= MAX_TIME_MS,
        ensures
            final(self).window() == old(self).window(),
            old(self).slots().len() == BUTTON_COUNT,
            final(self).slots().len() == BUTTON_COUNT,
            match old(self).slot(button) {
                None => {
                    &&& fired@.len() == 0
                    &&& final(self).slots() == old(self).slots()
                },
                Some((c, s)) => {
                    &&& final(self).slots() == old(self).slots().update(
                        button_ordinal(button),
                        Some((c, release_step(c, s, now, old(self).window()).0)),
                    )
                    &&& fired@ == release_step(c, s, now, old(self).window()).1
                },
            },
    {
        proof {
            use_type_invariant(&*self);
        }
        let i = button.ordinal();
        let (config, state) = match self.buttons[i] {
            Some(slot) => slot,
            None => {
                return Vec::new();
            },
        };
        let mut st = state;
        st.pressed = false;
        st.long_deadline = None;
        st.repeat_deadline = None;
        let mut fired = Vec::new();
        if st.long_fired {
            st.long_fired = false;
            st.is_second_press = false;
        } else if st.is_second_press {
            st.is_second_press = false;
            fired.push(ButtonTrigger::Double);
        } else if config.double_enabled {
            st.waiting_for_second = true;
            st.double_deadline = Some(now + self.double_click_window);
        } else if config.raw_path() {
        } else {
            fired.push(ButtonTrigger::Single);
        }
        self.replace_slot(i, Some((config, st)));
        assert(fired@ =~= release_step(config, state, now, self.double_click_window).1);
        fired
    }

    fn advance_one(
        config: GestureConfig,
        state: ButtonGestureState,
        button: RemoteButton,
        now: u64,
        fired: &mut Vec<(RemoteButton, ButtonTrigger)>,
    ) -> (st: ButtonGestureState)
        requires
            now <= MAX_TIME_MS,
            config.repeat matches Some(iv) ==> iv <= 1000,
        ensures
            st == advance_step(config, state, now).0,
            final(fired)@ == old(fired)@ + advance_step(config, state, now).1.map_values(
                |t: ButtonTrigger| (button, t),
            ),
    {
        let ghost start = fired@;
        let mut st = state;
        let mut out: Vec<ButtonTrigger> = Vec::new();
        if let Some(d) = st.double_deadline {
            if d <= now {
                st.double_deadline = None;
                st.waiting_for_second = false;
                out.push(ButtonTrigger::Single);
            }
        }
        if let Some(d) = st.long_deadline {
            if d <= now {
                st.long_deadline = None;
                if st.pressed {
                    st.long_fired = true;
                    out.push(ButtonTrigger::Long);
                }
            }
        }
        if let Some(interval) = config.repeat {
            if let Some(d) = st.repeat_deadline {
                if d <= now {
                    if st.pressed {
                        st.repeat_deadline = Some(now + interval);
                        out.push(ButtonTrigger::Single);
                    } else {
                        st.repeat_deadline = None;
                    }
                }
            }
        }
        assert(out@ =~= advance_step(config, state, now).1);
        let mut k: usize = 0;
        while k < out.len()
            invariant
                k <= out@.len(),
                fired@ == start + out@.subrange(0, k as int).map_values(
                    |t: ButtonTrigger| (button, t),
                ),
            decreases out.len() - k,
        {
            fired.push((button, out[k]));
            k = k + 1;
            assert(out@.subrange(0, k as int).map_values(|t: ButtonTrigger| (button, t))
                =~= out@.subrange(0, k - 1).map_values(|t: ButtonTrigger| (button, t)).push(
                (button, out@[k - 1]),
            ));
        }
        assert(out@.subrange(0, out@.len() as int) =~= out@);
        st
    }

    /// Runs every timer due at `now` and returns what fired, in button order.
    pub fn advance(&mut self, now: u64) -> (fired: Vec<(RemoteButton, ButtonTrigger)>)
        requires
            now <= MAX_TIME_MS,
        ensures
            final(self).window() == old(self).window(),
            old(self).slots().len() == BUTTON_COUNT,
            final(self).slots().len() == BUTTON_COUNT,
            forall|i: int|
                0 <= i < BUTTON_COUNT ==> #[trigger] final(self).slots()[i] == advance_slot(
                    old(self).slots()[i],
                    now,
                ),
            fired@ == advance_fired(old(self).slots(), now, BUTTON_COUNT as int),
    {
        proof {
            use_type_invariant(&*self);
        }
        let ghost before = self.buttons@;
        let mut fired: Vec<(RemoteButton, ButtonTrigger)> = Vec::new();
        let mut i: usize = 0;
        while i < BUTTON_COUNT
            invariant
                i <= BUTTON_COUNT,
                now <= MAX_TIME_MS,
                self.buttons@.len() == BUTTON_COUNT,
                before.len() == BUTTON_COUNT,
                forall|k: int| 0 <= k < BUTTON_COUNT ==> repeat_ok(#[trigger] before[k]),
                forall|k: int| 0 <= k < BUTTON_COUNT ==> repeat_ok(#[trigger] self.buttons@[k]),
                self.double_click_window == old(self).double_click_window,
                forall|k: int| 0 <= k < i ==> #[trigger] self.buttons@[k] == advance_slot(before[k], now),
                forall|k: int| i <= k < BUTTON_COUNT ==> #[trigger] self.buttons@[k] == before[k],
                fired@ == advance_fired(before, now, i as int),
                DOUBLE_CLICK_WINDOW_FLOOR_MS <= self.double_click_window <= DOUBLE_CLICK_WINDOW_CEILING_MS,
            decreases BUTTON_COUNT - i,
        {
            let button = button_from_ordinal(i);
            match self.buttons[i] {
                Some((config, state)) => {
                    let st = Self::advance_one(config, state, button, now, &mut fired);
                    self.replace_slot(i, Some((config, st)));
                },
                None => {},
            }
            i = i + 1;
        }
        fired
    }

    /// The earliest pending timer of any button.
    pub fn next_deadline(&self) -> (d: Option<u64>)
        ensures
            d == earliest_deadline(self.slots(), BUTTON_COUNT as int),
            forall|i: int, t: u64|
                0 <= i < BUTTON_COUNT && #[trigger] timer_pending(self.slots(), i, t) ==> (d is Some
                    && d->0 <= t),
            d is Some ==> exists|i: int|
                0 <= i < BUTTON_COUNT && #[trigger] timer_pending(self.slots(), i, d->0),
    {
        proof {
            use_type_invariant(self);
            lemma_earliest_deadline_is_first_timer(self.slots(), BUTTON_COUNT as int);
        }
        let mut best: Option<u64> = None;
        let mut i: usize = 0;
        while i < BUTTON_COUNT
            invariant
                i <= BUTTON_COUNT,
                self.buttons@.len() == BUTTON_COUNT,
                best == earliest_deadline(self.buttons@, i as int),
            decreases BUTTON_COUNT - i,
        {
            if let Some((_, st)) = self.buttons[i] {
                best = earlier(best, st.long_deadline);
                best = earlier(best, st.double_deadline);
                best = earlier(best, st.repeat_deadline);
                assert(best == earliest_deadline(self.buttons@, i + 1)) by {
                    lemma_min_opt_assoc(
                        earliest_deadline(self.buttons@, i as int),
                        st.long_deadline,
                        st.double_deadline,
                        st.repeat_deadline,
                    );
                }
            }
            i = i + 1;
        }
        best
    }

    /// Cancels every gesture in progress without firing anything.
    pub fn release_all(&mut self)
        ensures
            final(self).window() == old(self).window(),
            final(self).slots().len() == BUTTON_COUNT,
            forall|i: int|
                0 <= i < BUTTON_COUNT ==> #[trigger] final(self).slots()[i] == match old(
                    self,
                ).slots()[i] {
                    Some((c, _)) => Some((c, idle_state())),
                    None => None,
                },
    {
        proof {
            use_type_invariant(&*self);
        }
        let ghost before = self.buttons@;
        let mut i: usize = 0;
        while i < BUTTON_COUNT
            invariant
                i <= BUTTON_COUNT,
                self.buttons@.len() == BUTTON_COUNT,
                before.len() == BUTTON_COUNT,
                forall|k: int|
                    0 <= k < i ==> #[trigger] self.buttons@[k] == match before[k] {
                        Some((c, _)) => Some((c, idle_state())),
                        None => None,
                    },
                forall|k: int| i <= k < BUTTON_COUNT ==> #[trigger] self.buttons@[k] == before[k],
                forall|k: int| 0 <= k < BUTTON_COUNT ==> repeat_ok(#[trigger] self.buttons@[k]),
                DOUBLE_CLICK_WINDOW_FLOOR_MS <= self.double_click_window <= DOUBLE_CLICK_WINDOW_CEILING_MS,
                self.double_click_window == old(self).double_click_window,
            decreases BUTTON_COUNT - i,
        {
            if let Some((config, _)) = self.buttons[i] {
                self.replace_slot(i, Some((config, idle())));
            }
            i = i + 1;
        }
    }

    /// Whether the recognizer tracks `button` as held.
    pub fn is_pressed(&self, button: RemoteButton) -> (b: bool)
        ensures
            b == (self.slot(button) matches Some((_, s)) && s.pressed),
    {
        proof {
            use_type_invariant(self);
        }
        match self.buttons[button.ordinal()] {
            Some((_, st)) => st.pressed,
            None => false,
        }
    }
}

impl Default for GestureRecognizer {
    /// A recognizer for when no system double-click speed is available.
    fn default() -> (r: Self)
        ensures
            r.window() == DOUBLE_CLICK_WINDOW_FLOOR_MS,
            forall|i: int| 0 <= i < BUTTON_COUNT ==> #[trigger] r.slots()[i] is None,
            r.slots().len() == BUTTON_COUNT,
    {
        Self::new(None)
    }
}

proof fn lemma_config_repeat_bound(m: ButtonMappings, b: RemoteButton)
    ensures
        spec_for_button(m, b) matches Some(c) ==> (c.repeat matches Some(iv) ==> iv <= 1000),
{
}

/// A slot with no gesture in progress.
pub open spec fn quiet_slot(slot: Slot) -> bool {
    slot matches Some((_, st)) ==> st == idle_state()
}

proof fn lemma_quiet_prefix(slots: Seq<Slot>, now: u64, n: int)
    requires
        0 <= n <= slots.len(),
        forall|i: int| 0 <= i < slots.len() ==> quiet_slot(#[trigger] slots[i]),
    ensures
        advance_fired(slots, now, n).len() == 0,
        earliest_deadline(slots, n) is None,
    decreases n,
{
    if n > 0 {
        lemma_quiet_prefix(slots, now, n - 1);
        assert(quiet_slot(slots[n - 1]));
    }
}

/// With no gesture in progress (as `release_all` and `configure` leave the
/// recognizer) no timer is pending and advancing time fires nothing.
pub proof fn lemma_quiet_recognizer_fires_nothing(slots: Seq<Slot>, now: u64)
    requires
        slots.len() == BUTTON_COUNT,
        forall|i: int| 0 <= i < BUTTON_COUNT ==> quiet_slot(#[trigger] slots[i]),
    ensures
        advance_fired(slots, now, BUTTON_COUNT as int).len() == 0,
        earliest_deadline(slots, BUTTON_COUNT as int) is None,
{
    lemma_quiet_prefix(slots, now, BUTTON_COUNT as int);
}

/// Raw single path: a tap fires single on the press edge, the release fires
/// nothing, and no timer is left once the button is released.
pub proof fn lemma_raw_tap_fires_single_once(c: GestureConfig, t0: u64, t1: u64, window: u64)
    requires
        spec_raw_path(c),
        t0 <= MAX_TIME_MS,
    ensures
        press_step(c, idle_state(), t0).1 == seq![ButtonTrigger::Single],
        release_step(c, press_step(c, idle_state(), t0).0, t1, window).1.len() == 0,
        slot_deadline(Some((c, release_step(c, press_step(c, idle_state(), t0).0, t1, window).0)))
            is None,
{
}

/// Double click: with a double action (and no long action), two taps where
/// the second press comes before the window opened by the first release runs
/// out fire double and nothing else, even when timers are run in between.
pub proof fn lemma_double_tap_fires_double(
    c: GestureConfig,
    t0: u64,
    t1: u64,
    t2: u64,
    t3: u64,
    window: u64,
)
    requires
        c.double_enabled,
        !c.long_enabled,
        t0 <= t1 <= t2 <= t3 <= MAX_TIME_MS,
        window <= DOUBLE_CLICK_WINDOW_CEILING_MS,
        t2 < t1 + window,
    ensures
        ({
            let (s1, o1) = press_step(c, idle_state(), t0);
            let (s2, o2) = release_step(c, s1, t1, window);
            let (s3, o3) = advance_step(c, s2, t2);
            let (s4, o4) = press_step(c, s3, t2);
            let (s5, o5) = release_step(c, s4, t3, window);
            &&& o1.len() == 0
            &&& o2.len() == 0
            &&& o3.len() == 0
            &&& o4.len() == 0
            &&& o5 == seq![ButtonTrigger::Double]
            &&& slot_deadline(Some((c, s5))) is None
        }),
{
    let (s1, o1) = press_step(c, idle_state(), t0);
    let (s2, o2) = release_step(c, s1, t1, window);
    let (s3, o3) = advance_step(c, s2, t2);
    assert(o3 =~= Seq::<ButtonTrigger>::empty());
}

/// A single tap with a double action fires single once the window opened by
/// the release has run out.
pub proof fn lemma_window_timeout_fires_single(
    c: GestureConfig,
    t0: u64,
    t1: u64,
    t2: u64,
    window: u64,
)
    requires
        c.double_enabled,
        !c.long_enabled,
        t0 <= t1 <= MAX_TIME_MS,
        t2 <= MAX_TIME_MS,
        window <= DOUBLE_CLICK_WINDOW_CEILING_MS,
        t1 + window <= t2,
    ensures
        ({
            let (s1, o1) = press_step(c, idle_state(), t0);
            let (s2, o2) = release_step(c, s1, t1, window);
            let (s3, o3) = advance_step(c, s2, t2);
            &&& o1.len() == 0
            &&& o2.len() == 0
            &&& o3 == seq![ButtonTrigger::Single]
            &&& slot_deadline(Some((c, s3))) is None
        }),
{
    let (s1, o1) = press_step(c, idle_state(), t0);
    let (s2, o2) = release_step(c, s1, t1, window);
    let (s3, o3) = advance_step(c, s2, t2);
    assert(o3 =~= seq![ButtonTrigger::Single]);
}

/// Long press: holding past the threshold fires long, and the release that
/// ends the hold fires nothing.
pub proof fn lemma_hold_fires_long_then_release_is_silent(
    c: GestureConfig,
    t0: u64,
    t1: u64,
    t2: u64,
    window: u64,
)
    requires
        c.long_enabled,
        !c.double_enabled,
        t0 <= MAX_TIME_MS,
        t0 + LONG_PRESS_THRESHOLD_MS <= t1 <= t2 <= MAX_TIME_MS,
    ensures
        ({
            let (s1, o1) = press_step(c, idle_state(), t0);
            let (s2, o2) = advance_step(c, s1, t1);
            let (s3, o3) = release_step(c, s2, t2, window);
            &&& o1.len() == 0
            &&& o2 == seq![ButtonTrigger::Long]
            &&& o3.len() == 0
        }),
{
    let (s1, o1) = press_step(c, idle_state(), t0);
    let (s2, o2) = advance_step(c, s1, t1);
    assert(o2 =~= seq![ButtonTrigger::Long]);
}

/// Button `i` has a pending timer due at `t`: its long-press, double-click
/// or repeat deadline.
pub open spec fn timer_pending(slots: Seq<Slot>, i: int, t: u64) -> bool {
    slots[i] matches Some((_, s)) && (s.long_deadline == Some(t) || s.double_deadline == Some(t)
        || s.repeat_deadline == Some(t))
}

/// The earliest deadline is a pending timer of some button, and no pending
/// timer of any button — long press, double-click window or repeat — is
/// earlier; with no timer pending there is none.
pub proof fn lemma_earliest_deadline_is_first_timer(slots: Seq<Slot>, n: int)
    requires
        0 <= n <= slots.len(),
    ensures
        forall|i: int, t: u64|
            0 <= i < n && #[trigger] timer_pending(slots, i, t) ==> (earliest_deadline(slots, n) is Some
                && earliest_deadline(slots, n)->0 <= t),
        earliest_deadline(slots, n) is Some ==> exists|i: int|
            0 <= i < n && #[trigger] timer_pending(slots, i, earliest_deadline(slots, n)->0),
    decreases n,
{
    if n > 0 {
        lemma_earliest_deadline_is_first_timer(slots, n - 1);
        let prev = earliest_deadline(slots, n - 1);
        let cur = earliest_deadline(slots, n);
        if cur is Some {
            if prev is Some && cur->0 == prev->0 {
                let i = choose|i: int| 0 <= i < n - 1 && #[trigger] timer_pending(slots, i, prev->0);
                assert(timer_pending(slots, i, cur->0));
            } else {
                assert(timer_pending(slots, n - 1, cur->0));
            }
        }
    }
}

/// Nothing fires before the next deadline: whenever `advance` at `now`
/// fires anything, some timer is due, so the earliest deadline is at or
/// before `now`.
pub proof fn lemma_firing_needs_a_due_deadline(slots: Seq<Slot>, now: u64, n: int)
    requires
        0 <= n <= slots.len(),
    ensures
        advance_fired(slots, now, n).len() > 0 ==> (earliest_deadline(slots, n) is Some
            && earliest_deadline(slots, n)->0 <= now),
    decreases n,
{
    if n > 0 {
        lemma_firing_needs_a_due_deadline(slots, now, n - 1);
        lemma_earliest_deadline_is_first_timer(slots, n);
        if advance_fired(slots, now, n).len() > 0 && advance_fired(slots, now, n - 1).len() == 0 {
            if let Some((c, st)) = slots[n - 1] {
                if due(st.double_deadline, now) {
                    assert(timer_pending(slots, n - 1, st.double_deadline->0));
                } else if due(st.long_deadline, now) {
                    assert(timer_pending(slots, n - 1, st.long_deadline->0));
                } else if due(st.repeat_deadline, now) {
                    assert(timer_pending(slots, n - 1, st.repeat_deadline->0));
                } else {
                    assert(advance_step(c, st, now).1.len() == 0);
                }
            }
        } else if advance_fired(slots, now, n - 1).len() > 0 {
            let t = earliest_deadline(slots, n - 1)->0;
            lemma_earliest_deadline_is_first_timer(slots, n - 1);
            let i = choose|i: int| 0 <= i < n - 1 && #[trigger] timer_pending(slots, i, t);
            assert(timer_pending(slots, i, t));
        }
    }
}

fn earlier(a: Option<u64>, b: Option<u64>) -> (r: Option<u64>)
    ensures
        r == min_opt(a, b),
{
    match (a, b) {
        (Some(x), Some(y)) => Some(if x <= y { x } else { y }),
        (Some(x), None) => Some(x),
        (None, y) => y,
    }
}

proof fn lemma_min_opt_assoc(a: Option<u64>, x: Option<u64>, y: Option<u64>, z: Option<u64>)
    ensures
        min_opt(min_opt(min_opt(a, x), y), z) == min_opt(a, min_opt(min_opt(x, y), z)),
{
}

} // verus!
