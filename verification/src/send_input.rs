//! Button mapping model (what a remote button does) and the input-injection
//! bookkeeping: key-event plans for chords, mouse and text injection plans,
//! and the injection counters shown in diagnostics.
use vstd::prelude::*;
use crate::hotkey::{chord_problem, spec_validated, KeyChordError};
use crate::raw_input::{button_at, button_ordinal, lemma_ordinal_roundtrip, RemoteButton};
use crate::text::{copy_opt_string, opt_string_view};

verus! {

/// Keys a chord can hold.
#[derive(Debug, Clone, Copy, PartialEq, Eq, Structural, PartialOrd, Ord, Hash)]
pub enum KeyCode {
    Enter,
    Escape,
    Space,
    Tab,
    Backspace,
    Delete,
    Insert,
    Home,
    End,
    PageUp,
    PageDown,
    Up,
    Down,
    Left,
    Right,
    LeftControl,
    RightControl,
    LeftShift,
    RightShift,
    LeftAlt,
    RightAlt,
    LeftWindows,
    RightWindows,
    /// Side-less modifiers.
    Control,
    Shift,
    Alt,
    A,
    B,
    C,
    D,
    E,
    F,
    G,
    H,
    I,
    J,
    K,
    L,
    M,
    N,
    O,
    P,
    Q,
    R,
    S,
    T,
    U,
    V,
    W,
    X,
    Y,
    Z,
    Digit0,
    Digit1,
    Digit2,
    Digit3,
    Digit4,
    Digit5,
    Digit6,
    Digit7,
    Digit8,
    Digit9,
    F1,
    F2,
    F3,
    F4,
    F5,
    F6,
    F7,
    F8,
    F9,
    F10,
    F11,
    F12,
    /// The context-menu key.
    Apps,
    BrowserHome,
    VolumeMute,
    VolumeUp,
    VolumeDown,
}

/// Mouse actions a button can trigger.
#[derive(Debug, Clone, Copy, PartialEq, Eq, Structural, Hash)]
pub enum MouseAction {
    WheelUp,
    WheelDown,
    WheelLeft,
    WheelRight,
    LeftClick,
    RightClick,
    MiddleClick,
}

pub open spec fn spec_is_wheel(kind: MouseAction) -> bool {
    kind == MouseAction::WheelUp || kind == MouseAction::WheelDown || kind == MouseAction::WheelLeft
        || kind == MouseAction::WheelRight
}

impl MouseAction {
    pub fn is_wheel(self) -> (b: bool)
        ensures
            b == spec_is_wheel(self),
    {
        match self {
            MouseAction::WheelUp | MouseAction::WheelDown | MouseAction::WheelLeft
            | MouseAction::WheelRight => true,
            _ => false,
        }
    }
}

/// Keys pressed together, in press order.
#[derive(Debug, Clone, PartialEq, Eq)]
pub struct KeyChord {
    pub keys: Vec<KeyCode>,
}

/// What one gesture cell of a button does.
#[derive(Debug, Clone, PartialEq, Eq)]
pub enum ButtonAction {
    /// Tap a chord.
    Shortcut { chord: KeyChord },
    /// Hold a chord for as long as the button is held.
    HoldShortcut { chord: KeyChord },
    /// Open or activate an application.
    OpenApp { target: String },
    Mouse { kind: MouseAction },
    /// Type a text.
    Text { value: String },
    /// Wait between the steps of a sequence.
    Delay { ms: u32 },
    /// Let the button's own key through.
    Native,
    /// Explicitly do nothing.
    Disabled,
}

/// The three gesture cells of a button; each holds a sequence of actions.
#[derive(Debug, Clone, PartialEq, Eq)]
pub struct ButtonActions {
    pub single: Vec<ButtonAction>,
    pub double: Vec<ButtonAction>,
    pub long: Vec<ButtonAction>,
}

pub open spec fn cell_configured(cell: Seq<ButtonAction>) -> bool {
    exists|i: int| 0 <= i < cell.len() && !(cell[i] is Disabled)
}

/// Whether any cell of `a` holds an action other than `Disabled`.
pub open spec fn actions_configured(a: ButtonActions) -> bool {
    cell_configured(a.single@) || cell_configured(a.double@) || cell_configured(a.long@)
}

/// Repeat interval, in milliseconds, of a wheel action held on any button.
pub const WHEEL_REPEAT_INTERVAL_MS: u64 = 100;

fn cell_has_action(cell: &Vec<ButtonAction>) -> (b: bool)
    ensures
        b == cell_configured(cell@),
{
    let mut i: usize = 0;
    while i < cell.len()
        invariant
            i <= cell@.len(),
            forall|k: int| 0 <= k < i ==> cell@[k] is Disabled,
        decreases cell.len() - i,
    {
        match &cell[i] {
            ButtonAction::Disabled => {},
            _ => {
                return true;
            },
        }
        i = i + 1;
    }
    false
}

impl ButtonActions {
    /// No action in any cell.
    pub fn empty() -> (a: Self)
        ensures
            a.single@.len() == 0,
            a.double@.len() == 0,
            a.long@.len() == 0,
    {
        ButtonActions { single: Vec::new(), double: Vec::new(), long: Vec::new() }
    }

    /// Only a single-press action.
    pub fn single(action: ButtonAction) -> (a: Self)
        ensures
            a.single@ == seq![action],
            a.double@.len() == 0,
            a.long@.len() == 0,
    {
        let mut single = Vec::new();
        single.push(action);
        ButtonActions { single, double: Vec::new(), long: Vec::new() }
    }

    /// Whether any cell holds an action other than `Disabled`.
    pub fn any_configured(&self) -> (b: bool)
        ensures
            b == actions_configured(*self),
    {
        cell_has_action(&self.single) || cell_has_action(&self.double) || cell_has_action(
            &self.long,
        )
    }
}

impl Default for ButtonActions {
    fn default() -> (a: Self)
        ensures
            a.single@.len() == 0,
            a.double@.len() == 0,
            a.long@.len() == 0,
    {
        ButtonActions::empty()
    }
}

/// The mapping of every button, with the master switch.
#[derive(Debug, Clone, PartialEq, Eq)]
pub struct ButtonMappings {
    pub enabled: bool,
    /// Entries per button; a later entry for the same button wins.
    pub actions: Vec<(RemoteButton, ButtonActions)>,
}

/// Position of the entry for `b` in an entry list, if any.
pub open spec fn entry_index(entries: Seq<(RemoteButton, ButtonActions)>, b: RemoteButton) -> int
    decreases entries.len(),
{
    if entries.len() == 0 {
        -1
    } else if entries.last().0 == b {
        entries.len() - 1
    } else {
        entry_index(entries.drop_last(), b)
    }
}

proof fn lemma_entry_index_range(entries: Seq<(RemoteButton, ButtonActions)>, b: RemoteButton)
    ensures
        -1 <= entry_index(entries, b) < entries.len(),
        entry_index(entries, b) >= 0 ==> entries[entry_index(entries, b)].0 == b,
        entry_index(entries, b) == -1 ==> forall|i: int| 0 <= i < entries.len() ==> entries[i].0 != b,
    decreases entries.len(),
{
    if entries.len() > 0 {
        lemma_entry_index_range(entries.drop_last(), b);
        assert forall|i: int| 0 <= i < entries.len() - 1 implies entries.drop_last()[i] == entries[i] by {}
    }
}

/// The actions an entry list gives `b`: those of its last entry for `b`.
pub open spec fn entry_lookup(entries: Seq<(RemoteButton, ButtonActions)>, b: RemoteButton) -> Option<
    ButtonActions,
> {
    let i = entry_index(entries, b);
    if i >= 0 {
        Some(entries[i].1)
    } else {
        None
    }
}

impl ButtonMappings {
    pub open spec fn entries(self) -> Seq<(RemoteButton, ButtonActions)> {
        self.actions@
    }

    /// The actions mapped to `b`, if the button has an entry.
    pub open spec fn spec_actions(self, b: RemoteButton) -> Option<ButtonActions> {
        entry_lookup(self.entries(), b)
    }

    /// Nothing mapped; the master switch on.
    pub fn new() -> (m: Self)
        ensures
            m.enabled,
            forall|b: RemoteButton| m.spec_actions(b) is None,
    {
        ButtonMappings { enabled: true, actions: Vec::new() }
    }

    fn find_entry(&self, button: RemoteButton) -> (r: Option<usize>)
        ensures
            match r {
                Some(i) => i as int == entry_index(self.entries(), button) && i < self.actions@.len(),
                None => entry_index(self.entries(), button) == -1,
            },
    {
        proof {
            lemma_entry_index_range(self.actions@, button);
        }
        let mut i = self.actions.len();
        assert(self.actions@.subrange(0, i as int) =~= self.actions@);
        while i > 0
            invariant
                i <= self.actions@.len(),
                entry_index(self.actions@, button) == entry_index(
                    self.actions@.subrange(0, i as int),
                    button,
                ),
            decreases i,
        {
            assert(self.actions@.subrange(0, i as int).drop_last() =~= self.actions@.subrange(
                0,
                i - 1,
            ));
            if self.actions[i - 1].0 == button {
                return Some(i - 1);
            }
            i = i - 1;
        }
        None
    }

    /// The actions mapped to `button`, `None` when it has none.
    pub fn actions(&self, button: RemoteButton) -> (a: Option<&ButtonActions>)
        ensures
            match a {
                Some(a) => self.spec_actions(button) == Some(*a),
                None => self.spec_actions(button) is None,
            },
    {
        match self.find_entry(button) {
            Some(i) => Some(&self.actions[i].1),
            None => None,
        }
    }

    /// Maps `button` to `actions`, replacing what it had.
    pub fn set_actions(&mut self, button: RemoteButton, actions: ButtonActions)
        ensures
            final(self).enabled == old(self).enabled,
            final(self).spec_actions(button) == Some(actions),
            old(self).spec_actions(button) is None ==> final(self).entries() == old(
                self,
            ).entries().push((button, actions)),
            forall|b: RemoteButton|
                b != button ==> final(self).spec_actions(b) == old(self).spec_actions(b),
    {
        let ghost before = self.actions@;
        match self.find_entry(button) {
            Some(i) => {
                proof {
                    lemma_entry_index_range(before, button);
                }
                self.actions.set(i, (button, actions));
                proof {
                    lemma_entry_index_update(before, i as int, (button, actions));
                    assert forall|b: RemoteButton| b != button implies self.spec_actions(b)
                        == old(self).spec_actions(b) by {
                        lemma_entry_index_range(before, b);
                    }
                }
            },
            None => {
                self.actions.push((button, actions));
                proof {
                    assert(self.actions@.drop_last() =~= before);
                    assert forall|b: RemoteButton| b != button implies self.spec_actions(b)
                        == old(self).spec_actions(b) by {
                        lemma_entry_index_range(before, b);
                        assert(entry_index(self.actions@, b) == entry_index(before, b));
                    }
                }
            },
        }
    }
}

/// Replacing an entry by one with the same button keeps every lookup index.
proof fn lemma_entry_index_update(
    entries: Seq<(RemoteButton, ButtonActions)>,
    i: int,
    e: (RemoteButton, ButtonActions),
)
    requires
        0 <= i < entries.len(),
        entries[i].0 == e.0,
    ensures
        forall|b: RemoteButton| entry_index(entries.update(i, e), b) == entry_index(entries, b),
    decreases entries.len(),
{
    let u = entries.update(i, e);
    if i < entries.len() - 1 {
        lemma_entry_index_update(entries.drop_last(), i, e);
        assert(u.drop_last() =~= entries.drop_last().update(i, e));
        assert forall|b: RemoteButton| entry_index(u, b) == entry_index(entries, b) by {
            assert(u.last() == entries.last());
            assert(entry_index(u.drop_last(), b) == entry_index(entries.drop_last(), b));
            assert(u.len() == entries.len());
        }
    } else {
        assert(u.drop_last() =~= entries.drop_last());
        assert forall|b: RemoteButton| entry_index(u, b) == entry_index(entries, b) by {
            assert(u.last() == e);
        }
    }
}

impl Default for ButtonMappings {
    fn default() -> (m: Self)
        ensures
            m.enabled,
            forall|b: RemoteButton| m.spec_actions(b) is None,
    {
        ButtonMappings::new()
    }
}

/// A recognised gesture of one button.
#[derive(Debug, Clone, Copy, PartialEq, Eq, Structural)]
pub enum ButtonTrigger {
    Single,
    Double,
    Long,
}

/// The cell of `actions` that `trigger` fires.
pub open spec fn trigger_cell(actions: ButtonActions, trigger: ButtonTrigger) -> Seq<ButtonAction> {
    match trigger {
        ButtonTrigger::Single => actions.single@,
        ButtonTrigger::Double => actions.double@,
        ButtonTrigger::Long => actions.long@,
    }
}

impl ButtonMappings {
    /// The actions `trigger` on `button` runs, in order; empty when the
    /// button has no entry.
    pub fn sequence_for(&self, button: RemoteButton, trigger: ButtonTrigger) -> (v: &[ButtonAction])
        ensures
            v@ == match self.spec_actions(button) {
                Some(a) => trigger_cell(a, trigger),
                None => Seq::empty(),
            },
    {
        match self.actions(button) {
            Some(a) => match trigger {
                ButtonTrigger::Single => a.single.as_slice(),
                ButtonTrigger::Double => a.double.as_slice(),
                ButtonTrigger::Long => a.long.as_slice(),
            },
            None => &[],
        }
    }
}

/// The key a button sends by itself, which a `Native` action lets through;
/// `None` for the buttons that have no such key.
pub open spec fn spec_native_key(b: RemoteButton) -> Option<KeyCode> {
    match b {
        RemoteButton::Confirm => Some(KeyCode::Enter),
        RemoteButton::Up => Some(KeyCode::Up),
        RemoteButton::Down => Some(KeyCode::Down),
        RemoteButton::Left => Some(KeyCode::Left),
        RemoteButton::Right => Some(KeyCode::Right),
        RemoteButton::Home => Some(KeyCode::Home),
        RemoteButton::Menu => Some(KeyCode::Apps),
        RemoteButton::VolumeMute => Some(KeyCode::VolumeMute),
        RemoteButton::VolumeUp => Some(KeyCode::VolumeUp),
        RemoteButton::VolumeDown => Some(KeyCode::VolumeDown),
        _ => None,
    }
}

/// The key `button` sends by itself, if it has one.
pub fn native_key(button: RemoteButton) -> (k: Option<KeyCode>)
    ensures
        k == spec_native_key(button),
{
    match button {
        RemoteButton::Confirm => Some(KeyCode::Enter),
        RemoteButton::Up => Some(KeyCode::Up),
        RemoteButton::Down => Some(KeyCode::Down),
        RemoteButton::Left => Some(KeyCode::Left),
        RemoteButton::Right => Some(KeyCode::Right),
        RemoteButton::Home => Some(KeyCode::Home),
        RemoteButton::Menu => Some(KeyCode::Apps),
        RemoteButton::VolumeMute => Some(KeyCode::VolumeMute),
        RemoteButton::VolumeUp => Some(KeyCode::VolumeUp),
        RemoteButton::VolumeDown => Some(KeyCode::VolumeDown),
        _ => None,
    }
}

/// The chord problem of one action, if it holds a chord that cannot be
/// injected.
pub open spec fn action_error(a: ButtonAction) -> Option<KeyChordError> {
    match a {
        ButtonAction::Shortcut { chord } => match spec_validated(chord.keys@) {
            Ok(_) => None,
            Err(e) => Some(e),
        },
        ButtonAction::HoldShortcut { chord } => match spec_validated(chord.keys@) {
            Ok(_) => None,
            Err(e) => Some(e),
        },
        _ => None,
    }
}

/// The first chord problem in a cell, in step order.
pub open spec fn cell_error(cell: Seq<ButtonAction>) -> Option<KeyChordError>
    decreases cell.len(),
{
    if cell.len() == 0 {
        None
    } else {
        match cell_error(cell.drop_last()) {
            Some(e) => Some(e),
            None => action_error(cell.last()),
        }
    }
}

/// The first chord problem of a button: single, then double, then long.
pub open spec fn actions_error(a: ButtonActions) -> Option<KeyChordError> {
    match cell_error(a.single@) {
        Some(e) => Some(e),
        None => match cell_error(a.double@) {
            Some(e) => Some(e),
            None => cell_error(a.long@),
        },
    }
}

/// The first chord problem among the buttons with an ordinal below `n`, in
/// button order.
pub open spec fn entries_error(entries: Seq<(RemoteButton, ButtonActions)>, n: nat) -> Option<
    KeyChordError,
>
    decreases n,
{
    if n == 0 {
        None
    } else {
        match entries_error(entries, (n - 1) as nat) {
            Some(e) => Some(e),
            None => match entry_lookup(entries, button_at(n - 1)) {
                Some(a) => actions_error(a),
                None => None,
            },
        }
    }
}

/// Whether normalization keeps action `a` on button `b`: a `Native` action
/// stays only where the button has a key of its own.
pub open spec fn keeps_action(b: RemoteButton, a: ButtonAction) -> bool {
    !(a is Native && spec_native_key(b) is None)
}

/// A cell of `b` after normalization, in the same step order.
pub open spec fn kept_cell(b: RemoteButton, cell: Seq<ButtonAction>) -> Seq<ButtonAction>
    decreases cell.len(),
{
    if cell.len() == 0 {
        Seq::empty()
    } else if keeps_action(b, cell.last()) {
        kept_cell(b, cell.drop_last()).push(cell.last())
    } else {
        kept_cell(b, cell.drop_last())
    }
}

/// `x` is what normalization makes of the actions `a` of button `b`.
pub open spec fn normalized_actions(b: RemoteButton, a: ButtonActions, x: ButtonActions) -> bool {
    &&& x.single@ == kept_cell(b, a.single@)
    &&& x.double@ == kept_cell(b, a.double@)
    &&& x.long@ == kept_cell(b, a.long@)
}

/// One entry per button, in button order.
pub open spec fn canonical_entries(entries: Seq<(RemoteButton, ButtonActions)>) -> bool {
    forall|i: int, j: int|
        0 <= i < j < entries.len() ==> button_ordinal(entries[i].0) < button_ordinal(
            entries[j].0,
        )
}

/// Looking up in a list with one more entry at the end.
proof fn lemma_lookup_push(
    entries: Seq<(RemoteButton, ButtonActions)>,
    e: (RemoteButton, ButtonActions),
    b: RemoteButton,
)
    ensures
        entry_lookup(entries.push(e), b) == if e.0 == b {
            Some(e.1)
        } else {
            entry_lookup(entries, b)
        },
{
    let p = entries.push(e);
    assert(p.drop_last() =~= entries);
    lemma_entry_index_range(entries, b);
}

/// Looking up in a list, split into its last entry and the rest.
proof fn lemma_lookup_last(entries: Seq<(RemoteButton, ButtonActions)>, b: RemoteButton)
    requires
        entries.len() > 0,
    ensures
        entry_lookup(entries, b) == if entries.last().0 == b {
            Some(entries.last().1)
        } else {
            entry_lookup(entries.drop_last(), b)
        },
{
    assert(entries.drop_last().push(entries.last()) =~= entries);
    lemma_lookup_push(entries.drop_last(), entries.last(), b);
}

/// Moves the elements of `v` into a vector of the opposite order.
fn reversed(v: Vec<ButtonAction>) -> (r: Vec<ButtonAction>)
    ensures
        r@ == v@.reverse(),
{
    let ghost orig = v@;
    let mut v = v;
    let mut r: Vec<ButtonAction> = Vec::new();
    while v.len() > 0
        invariant
            v@ == orig.subrange(0, v@.len() as int),
            r@.len() == orig.len() - v@.len(),
            forall|i: int| 0 <= i < r@.len() ==> r@[i] == orig[orig.len() - 1 - i],
        decreases v.len(),
    {
        let a = v.pop().unwrap();
        r.push(a);
    }
    assert(r@ =~= orig.reverse());
    r
}

/// One cell of `button` after normalization, or the first chord problem in
/// it.
fn normalize_cell(button: RemoteButton, cell: Vec<ButtonAction>) -> (r: Result<
    Vec<ButtonAction>,
    KeyChordError,
>)
    ensures
        match r {
            Ok(v) => cell_error(cell@) is None && v@ == kept_cell(button, cell@),
            Err(e) => cell_error(cell@) == Some(e),
        },
{
    let ghost orig = cell@;
    let n = cell.len();
    let mut rev = reversed(cell);
    let mut out: Vec<ButtonAction> = Vec::new();
    let mut j: usize = 0;
    while j < n
        invariant
            orig == cell@,
            n == orig.len(),
            j <= n,
            rev@.len() == n - j,
            forall|i: int| 0 <= i < rev@.len() ==> rev@[i] == orig[n - 1 - i],
            cell_error(orig.subrange(0, j as int)) is None,
            out@ == kept_cell(button, orig.subrange(0, j as int)),
        decreases n - j,
    {
        let a = rev.pop().unwrap();
        let ghost pre = orig.subrange(0, j + 1);
        assert(pre.drop_last() =~= orig.subrange(0, j as int));
        assert(pre.last() == a);
        let problem = match &a {
            ButtonAction::Shortcut { chord } => chord_problem(&chord.keys),
            ButtonAction::HoldShortcut { chord } => chord_problem(&chord.keys),
            _ => None,
        };
        if let Some(e) = problem {
            proof {
                assert(action_error(a) == Some(e));
                assert(cell_error(pre) == Some(e));
                lemma_cell_error_stays(orig, j as int + 1);
            }
            return Err(e);
        }
        let keep = match &a {
            ButtonAction::Native => native_key(button).is_some(),
            _ => true,
        };
        if keep {
            out.push(a);
        }
        j = j + 1;
    }
    assert(orig.subrange(0, n as int) =~= orig);
    Ok(out)
}

/// The actions of `button` after normalization, or the first chord problem
/// among them.
fn normalize_actions(button: RemoteButton, actions: ButtonActions) -> (r: Result<
    ButtonActions,
    KeyChordError,
>)
    ensures
        match r {
            Ok(x) => actions_error(actions) is None && normalized_actions(button, actions, x),
            Err(e) => actions_error(actions) == Some(e),
        },
{
    let ButtonActions { single, double, long } = actions;
    let single = match normalize_cell(button, single) {
        Ok(v) => v,
        Err(e) => {
            return Err(e);
        },
    };
    let double = match normalize_cell(button, double) {
        Ok(v) => v,
        Err(e) => {
            return Err(e);
        },
    };
    let long = match normalize_cell(button, long) {
        Ok(v) => v,
        Err(e) => {
            return Err(e);
        },
    };
    Ok(ButtonActions { single, double, long })
}

/// `x` is the normal form of `m`: the same master switch, one entry per
/// mapped button in button order, and each button's actions as
/// `normalized_actions` makes them.
pub open spec fn normal_form_of(m: ButtonMappings, x: ButtonMappings) -> bool {
    &&& x.enabled == m.enabled
    &&& canonical_entries(x.entries())
    &&& forall|b: RemoteButton|
        match (#[trigger] x.spec_actions(b), m.spec_actions(b)) {
            (Some(y), Some(a)) => normalized_actions(b, a, y),
            (None, None) => true,
            _ => false,
        }
}

/// What `normalized` answers for `m`: its normal form when no chord has a
/// problem, else the first chord problem.
pub open spec fn normalization_result(m: ButtonMappings, r: Result<ButtonMappings, KeyChordError>) -> bool {
    match r {
        Ok(x) => entries_error(m.entries(), 15) is None && normal_form_of(m, x),
        Err(e) => entries_error(m.entries(), 15) == Some(e),
    }
}

/// The three cells of a button, as sequences.
pub open spec fn actions_view(a: ButtonActions) -> (Seq<ButtonAction>, Seq<ButtonAction>, Seq<
    ButtonAction,
>) {
    (a.single@, a.double@, a.long@)
}

/// An entry list with each button's cells as sequences.
pub open spec fn entries_view(entries: Seq<(RemoteButton, ButtonActions)>) -> Seq<
    (RemoteButton, (Seq<ButtonAction>, Seq<ButtonAction>, Seq<ButtonAction>)),
> {
    entries.map_values(|e: (RemoteButton, ButtonActions)| (e.0, actions_view(e.1)))
}

/// A mapping as plain values: the master switch and its entries.
pub open spec fn mappings_view(m: ButtonMappings) -> (
    bool,
    Seq<(RemoteButton, (Seq<ButtonAction>, Seq<ButtonAction>, Seq<ButtonAction>))>,
) {
    (m.enabled, entries_view(m.entries()))
}

/// A button has cells in an entry list exactly when some entry names it,
/// and then they are the cells of such an entry.
proof fn lemma_lookup_some_has_entry(entries: Seq<(RemoteButton, ButtonActions)>, b: RemoteButton)
    ensures
        entry_lookup(entries, b) is Some <==> exists|i: int|
            0 <= i < entries.len() && #[trigger] entries[i].0 == b,
        entry_lookup(entries, b) is Some ==> exists|i: int|
            0 <= i < entries.len() && #[trigger] entries[i].0 == b && entry_lookup(entries, b)
                == Some(entries[i].1),
{
    lemma_entry_index_range(entries, b);
}

/// Two lists with one entry per button in button order that give every
/// button the same cells are the same list.
pub proof fn lemma_canonical_lookups_determine(
    a: Seq<(RemoteButton, ButtonActions)>,
    b: Seq<(RemoteButton, ButtonActions)>,
)
    requires
        canonical_entries(a),
        canonical_entries(b),
        forall|k: RemoteButton|
            match (#[trigger] entry_lookup(a, k), entry_lookup(b, k)) {
                (Some(x), Some(y)) => actions_view(x) == actions_view(y),
                (None, None) => true,
                _ => false,
            },
    ensures
        entries_view(a) == entries_view(b),
    decreases a.len() + b.len(),
{
    broadcast use lemma_ordinal_roundtrip;

    if a.len() == 0 || b.len() == 0 {
        if a.len() > 0 {
            lemma_lookup_some_has_entry(a, a.last().0);
            lemma_lookup_some_has_entry(b, a.last().0);
        } else if b.len() > 0 {
            lemma_lookup_some_has_entry(a, b.last().0);
            lemma_lookup_some_has_entry(b, b.last().0);
        }
        assert(entries_view(a) =~= entries_view(b));
    } else {
        let la = a.last();
        let lb = b.last();
        lemma_lookup_some_has_entry(a, la.0);
        lemma_lookup_some_has_entry(b, la.0);
        lemma_lookup_some_has_entry(a, lb.0);
        lemma_lookup_some_has_entry(b, lb.0);
        assert(button_ordinal(lb.0) <= button_ordinal(la.0)) by {
            let i = choose|i: int| 0 <= i < a.len() && #[trigger] a[i].0 == lb.0;
            if i < a.len() - 1 {
                assert(button_ordinal(a[i].0) < button_ordinal(a[a.len() - 1].0));
            }
        }
        assert(button_ordinal(la.0) <= button_ordinal(lb.0)) by {
            let i = choose|i: int| 0 <= i < b.len() && #[trigger] b[i].0 == la.0;
            if i < b.len() - 1 {
                assert(button_ordinal(b[i].0) < button_ordinal(b[b.len() - 1].0));
            }
        }
        assert(la.0 == lb.0);
        lemma_lookup_last(a, la.0);
        lemma_lookup_last(b, la.0);
        let da = a.drop_last();
        let db = b.drop_last();
        assert forall|k: RemoteButton|
            match (#[trigger] entry_lookup(da, k), entry_lookup(db, k)) {
                (Some(x), Some(y)) => actions_view(x) == actions_view(y),
                (None, None) => true,
                _ => false,
            } by {
            lemma_lookup_last(a, k);
            lemma_lookup_last(b, k);
            if k == la.0 {
                lemma_lookup_some_has_entry(da, k);
                lemma_lookup_some_has_entry(db, k);
                if exists|i: int| 0 <= i < da.len() && #[trigger] da[i].0 == k {
                    let i = choose|i: int| 0 <= i < da.len() && #[trigger] da[i].0 == k;
                    assert(button_ordinal(a[i].0) < button_ordinal(a[a.len() - 1].0));
                }
                if exists|i: int| 0 <= i < db.len() && #[trigger] db[i].0 == k {
                    let i = choose|i: int| 0 <= i < db.len() && #[trigger] db[i].0 == k;
                    assert(button_ordinal(b[i].0) < button_ordinal(b[b.len() - 1].0));
                }
            } else {
                assert(entry_lookup(a, k) == entry_lookup(da, k));
                assert(entry_lookup(b, k) == entry_lookup(db, k));
            }
        }
        lemma_canonical_lookups_determine(da, db);
        assert(entries_view(a) =~= entries_view(da).push((la.0, actions_view(la.1))));
        assert(entries_view(b) =~= entries_view(db).push((lb.0, actions_view(lb.1))));
    }
}

impl ButtonMappings {
    /// The mapping in normal form, or the first chord that cannot be
    /// injected (buttons in button order; single, double, long; steps in
    /// order). The normal form holds one entry per mapped button, in button
    /// order, with each button's own actions, except that a `Native` step
    /// on a button without a key of its own is dropped; the master switch is
    /// kept.
    pub fn normalized(self) -> (r: Result<ButtonMappings, KeyChordError>)
        ensures
            normalization_result(self, r),
    {
        broadcast use lemma_ordinal_roundtrip;

        let ghost orig = self.actions@;
        let ButtonMappings { enabled, actions } = self;
        assert(actions@ == orig);
        // One slot per button, the last button first, so that popping the
        // slots walks the buttons in order.
        let mut slots: Vec<Option<ButtonActions>> = Vec::new();
        let mut k: usize = 0;
        while k < 15
            invariant
                k <= 15,
                slots@.len() == k,
                forall|i: int| 0 <= i < k ==> slots@[i] is None,
            decreases 15 - k,
        {
            slots.push(None);
            k = k + 1;
        }
        let mut rest = actions;
        while rest.len() > 0
            invariant
                slots@.len() == 15,
                rest@.len() <= orig.len(),
                rest@ == orig.subrange(0, rest@.len() as int),
                forall|b: RemoteButton|
                    entry_lookup(orig, b) == match #[trigger] slots@[14 - button_ordinal(b)] {
                        Some(a) => Some(a),
                        None => entry_lookup(rest@, b),
                    },
            decreases rest.len(),
        {
            let ghost before = rest@;
            let (b, a) = rest.pop().unwrap();
            proof {
                assert(rest@ =~= before.drop_last());
                assert(rest@ =~= orig.subrange(0, rest@.len() as int));
                assert forall|c: RemoteButton| true implies entry_lookup(before, c) == (if before.last().0
                    == c {
                    Some(before.last().1)
                } else {
                    entry_lookup(rest@, c)
                }) by {
                    lemma_lookup_last(before, c);
                }
            }
            let idx = 14 - b.ordinal();
            if slots[idx].is_none() {
                slots.set(idx, Some(a));
            }
        }
        let mut out: Vec<(RemoteButton, ButtonActions)> = Vec::new();
        let mut k: usize = 0;
        while k < 15
            invariant
                orig == self.actions@,
                k <= 15,
                slots@.len() == 15 - k,
                forall|b: RemoteButton|
                    button_ordinal(b) >= k ==> entry_lookup(orig, b) == #[trigger] slots@[14
                        - button_ordinal(b)],
                entries_error(orig, k as nat) is None,
                canonical_entries(out@),
                forall|i: int| 0 <= i < out@.len() ==> button_ordinal(#[trigger] out@[i].0) < k,
                forall|b: RemoteButton|
                    button_ordinal(b) < k ==> match (
                        #[trigger] entry_lookup(out@, b),
                        entry_lookup(orig, b),
                    ) {
                        (Some(x), Some(a)) => normalized_actions(b, a, x),
                        (None, None) => true,
                        _ => false,
                    },
                forall|b: RemoteButton|
                    button_ordinal(b) >= k ==> #[trigger] entry_lookup(out@, b) is None,
            decreases 15 - k,
        {
            let ghost before = out@;
            let b = crate::raw_input::button_from_ordinal(k);
            proof {
                crate::raw_input::lemma_button_at_roundtrip(k as int);
                assert(entry_lookup(orig, b) == slots@[14 - k as int]);
            }
            let slot = slots.pop().unwrap();
            match slot {
                None => {},
                Some(a) => {
                    match normalize_actions(b, a) {
                        Ok(x) => {
                            out.push((b, x));
                        },
                        Err(e) => {
                            proof {
                                assert(entries_error(orig, (k + 1) as nat) == Some(e));
                                lemma_entries_error_stays(orig, (k + 1) as nat, 15);
                            }
                            return Err(e);
                        },
                    }
                },
            }
            proof {
                assert(entries_error(orig, (k + 1) as nat) is None);
                assert forall|c: RemoteButton| true implies entry_lookup(out@, c) == (if out@.len()
                    > before.len() && c == b {
                    entry_lookup(out@, b)
                } else {
                    entry_lookup(before, c)
                }) by {
                    if out@.len() > before.len() {
                        assert(out@ == before.push(out@.last()));
                        lemma_lookup_push(before, out@.last(), c);
                    }
                }
            }
            k = k + 1;
        }
        Ok(ButtonMappings { enabled, actions: out })
    }
}

/// Once a problem is found in the first steps of a cell, it stays the first.
proof fn lemma_cell_error_stays(cell: Seq<ButtonAction>, n: int)
    requires
        0 <= n <= cell.len(),
        cell_error(cell.subrange(0, n)) is Some,
    ensures
        cell_error(cell) == cell_error(cell.subrange(0, n)),
    decreases cell.len() - n,
{
    if n < cell.len() {
        assert(cell.subrange(0, n + 1).drop_last() =~= cell.subrange(0, n));
        lemma_cell_error_stays(cell, n + 1);
    } else {
        assert(cell.subrange(0, n) =~= cell);
    }
}

/// Once a problem is found among the first buttons, it stays the first.
proof fn lemma_entries_error_stays(entries: Seq<(RemoteButton, ButtonActions)>, n: nat, m: nat)
    requires
        n <= m,
        entries_error(entries, n) is Some,
    ensures
        entries_error(entries, m) == entries_error(entries, n),
    decreases m - n,
{
    if n < m {
        lemma_entries_error_stays(entries, n, (m - 1) as nat);
    }
}

/// The key hold the settings store keeps, in milliseconds: at most one
/// second.
pub fn clamp_injection_hold_ms(millis: u32) -> (r: u32)
    ensures
        r == if millis < 1000 {
            millis
        } else {
            1000
        },
{
    if millis < 1000 {
        millis
    } else {
        1000
    }
}

/// One notch of the mouse wheel (`WHEEL_DELTA`).
pub const WHEEL_DELTA: i32 = 120;

/// Notches sent per wheel action.
pub const WHEEL_NOTCHES: i32 = 1;

/// Longest key hold between an injected key-down and its key-up.
pub const MAX_INJECTION_HOLD_MS: u64 = 1000;

/// Key hold used until the user sets one.
pub const DEFAULT_INJECTION_HOLD_MS: u64 = 30;

/// Kinds of injected mouse events.
#[derive(Debug, Clone, Copy, PartialEq, Eq, Structural)]
pub enum MouseEventKind {
    Wheel,
    HorizontalWheel,
    LeftDown,
    LeftUp,
    RightDown,
    RightUp,
    MiddleDown,
    MiddleUp,
}

/// One injected mouse event; `data` is the signed wheel amount.
#[derive(Debug, Clone, Copy, PartialEq, Eq, Structural)]
pub struct MouseEvent {
    pub kind: MouseEventKind,
    pub data: i32,
}

/// Events for a mouse action: one wheel event (vertical up positive,
/// horizontal right positive), or a button's down and up.
pub open spec fn spec_mouse_events(kind: MouseAction) -> Seq<MouseEvent> {
    let delta = WHEEL_DELTA * WHEEL_NOTCHES;
    match kind {
        MouseAction::WheelUp => seq![MouseEvent { kind: MouseEventKind::Wheel, data: delta as i32 }],
        MouseAction::WheelDown => seq![MouseEvent { kind: MouseEventKind::Wheel, data: (-delta) as i32 }],
        MouseAction::WheelRight => seq![
            MouseEvent { kind: MouseEventKind::HorizontalWheel, data: delta as i32 },
        ],
        MouseAction::WheelLeft => seq![
            MouseEvent { kind: MouseEventKind::HorizontalWheel, data: (-delta) as i32 },
        ],
        MouseAction::LeftClick => seq![
            MouseEvent { kind: MouseEventKind::LeftDown, data: 0 },
            MouseEvent { kind: MouseEventKind::LeftUp, data: 0 },
        ],
        MouseAction::RightClick => seq![
            MouseEvent { kind: MouseEventKind::RightDown, data: 0 },
            MouseEvent { kind: MouseEventKind::RightUp, data: 0 },
        ],
        MouseAction::MiddleClick => seq![
            MouseEvent { kind: MouseEventKind::MiddleDown, data: 0 },
            MouseEvent { kind: MouseEventKind::MiddleUp, data: 0 },
        ],
    }
}

/// Every mouse action injects its own events: no two actions give the same
/// sequence; a click is the press and then the release of the button it
/// names; a wheel action is one wheel event, vertical for up and down,
/// horizontal for left and right, positive for up and right and negative
/// for down and left.
pub proof fn lemma_mouse_events_fit_their_action(a: MouseAction, b: MouseAction)
    ensures
        a != b ==> spec_mouse_events(a) != spec_mouse_events(b),
        a == MouseAction::LeftClick ==> spec_mouse_events(a) == seq![
            MouseEvent { kind: MouseEventKind::LeftDown, data: 0 },
            MouseEvent { kind: MouseEventKind::LeftUp, data: 0 },
        ],
        a == MouseAction::RightClick ==> spec_mouse_events(a) == seq![
            MouseEvent { kind: MouseEventKind::RightDown, data: 0 },
            MouseEvent { kind: MouseEventKind::RightUp, data: 0 },
        ],
        a == MouseAction::MiddleClick ==> spec_mouse_events(a) == seq![
            MouseEvent { kind: MouseEventKind::MiddleDown, data: 0 },
            MouseEvent { kind: MouseEventKind::MiddleUp, data: 0 },
        ],
        spec_is_wheel(a) ==> spec_mouse_events(a).len() == 1,
        (a == MouseAction::WheelUp || a == MouseAction::WheelDown) ==> spec_mouse_events(a)[0].kind
            == MouseEventKind::Wheel,
        (a == MouseAction::WheelLeft || a == MouseAction::WheelRight) ==> spec_mouse_events(
            a,
        )[0].kind == MouseEventKind::HorizontalWheel,
        (a == MouseAction::WheelUp || a == MouseAction::WheelRight) ==> spec_mouse_events(a)[0].data
            > 0,
        (a == MouseAction::WheelDown || a == MouseAction::WheelLeft) ==> spec_mouse_events(
            a,
        )[0].data < 0,
{
    if a != b {
        assert(spec_mouse_events(a)[0] != spec_mouse_events(b)[0]);
    }
}

pub fn build_mouse_inputs(kind: MouseAction) -> (v: Vec<MouseEvent>)
    ensures
        v@ == spec_mouse_events(kind),
{
    let delta = WHEEL_DELTA * WHEEL_NOTCHES;
    let negative = -delta;
    let v = match kind {
        MouseAction::WheelUp => vec![MouseEvent { kind: MouseEventKind::Wheel, data: delta }],
        MouseAction::WheelDown => vec![MouseEvent { kind: MouseEventKind::Wheel, data: negative }],
        MouseAction::WheelRight => vec![MouseEvent { kind: MouseEventKind::HorizontalWheel, data: delta }],
        MouseAction::WheelLeft => vec![MouseEvent { kind: MouseEventKind::HorizontalWheel, data: negative }],
        MouseAction::LeftClick => vec![
            MouseEvent { kind: MouseEventKind::LeftDown, data: 0 },
            MouseEvent { kind: MouseEventKind::LeftUp, data: 0 },
        ],
        MouseAction::RightClick => vec![
            MouseEvent { kind: MouseEventKind::RightDown, data: 0 },
            MouseEvent { kind: MouseEventKind::RightUp, data: 0 },
        ],
        MouseAction::MiddleClick => vec![
            MouseEvent { kind: MouseEventKind::MiddleDown, data: 0 },
            MouseEvent { kind: MouseEventKind::MiddleUp, data: 0 },
        ],
    };
    assert(v@ =~= spec_mouse_events(kind));
    v
}

/// UTF-16 code units of one character.
pub open spec fn utf16_units(c: char) -> Seq<u16> {
    let u = c as u32;
    if u < 0x10000 {
        seq![u as u16]
    } else {
        let v = u - 0x10000;
        seq![(0xD800 + v / 1024) as u16, (0xDC00 + v % 1024) as u16]
    }
}

/// UTF-16 encoding of a character sequence.
pub open spec fn utf16_of(s: Seq<char>) -> Seq<u16>
    decreases s.len(),
{
    if s.len() == 0 {
        Seq::empty()
    } else {
        utf16_of(s.drop_last()) + utf16_units(s.last())
    }
}

/// One Unicode key event (`KEYEVENTF_UNICODE`): a UTF-16 unit, down or up.
#[derive(Debug, Clone, Copy, PartialEq, Eq, Structural)]
pub struct UnicodeKeyEvent {
    pub unit: u16,
    pub is_key_up: bool,
}

/// Each UTF-16 unit is typed as its key-down followed by its key-up.
pub open spec fn unit_events(units: Seq<u16>) -> Seq<UnicodeKeyEvent>
    decreases units.len(),
{
    if units.len() == 0 {
        Seq::empty()
    } else {
        unit_events(units.drop_last()) + seq![
            UnicodeKeyEvent { unit: units.last(), is_key_up: false },
            UnicodeKeyEvent { unit: units.last(), is_key_up: true },
        ]
    }
}

proof fn lemma_unit_events_concat(a: Seq<u16>, b: Seq<u16>)
    ensures
        unit_events(a + b) == unit_events(a) + unit_events(b),
    decreases b.len(),
{
    if b.len() == 0 {
        assert(a + b =~= a);
        assert(unit_events(a) + unit_events(b) =~= unit_events(a));
    } else {
        assert((a + b).drop_last() =~= a + b.drop_last());
        lemma_unit_events_concat(a, b.drop_last());
        assert(unit_events(a + b) =~= unit_events(a) + unit_events(b));
    }
}

/// The events that type `value`, refusing an empty text as an empty chord:
/// there is nothing to send.
pub fn plan_text(value: &str) -> (r: Result<Vec<UnicodeKeyEvent>, SendInputError>)
    ensures
        value@.len() == 0 ==> r == Err::<Vec<UnicodeKeyEvent>, SendInputError>(
            SendInputError::EmptyChord,
        ),
        value@.len() > 0 ==> (r matches Ok(v) && v@ == unit_events(utf16_of(value@))),
{
    if value.unicode_len() == 0 {
        return Err(SendInputError::EmptyChord);
    }
    Ok(build_text_inputs(value))
}

/// Events that type a text: every UTF-16 unit (surrogate pairs unit by unit)
/// as key-down then key-up, independent of the keyboard layout.
pub fn build_text_inputs(value: &str) -> (v: Vec<UnicodeKeyEvent>)
    ensures
        v@ == unit_events(utf16_of(value@)),
{
    let chars = crate::text::chars_of(value);
    let mut v: Vec<UnicodeKeyEvent> = Vec::new();
    let mut i: usize = 0;
    while i < chars.len()
        invariant
            i <= chars@.len(),
            chars@ == value@,
            v@ == unit_events(utf16_of(chars@.subrange(0, i as int))),
        decreases chars.len() - i,
    {
        let c = chars[i];
        let u = c as u32;
        let ghost before = chars@.subrange(0, i as int);
        assert(chars@.subrange(0, i + 1).drop_last() =~= before);
        assert(chars@.subrange(0, i + 1).last() == c);
        assert(utf16_of(chars@.subrange(0, i + 1)) == utf16_of(before) + utf16_units(c));
        proof {
            vstd::utf8::char_is_scalar(c);
        }
        assert(u <= 0x10FFFF);
        if u < 0x10000 {
            let unit = u as u16;
            v.push(UnicodeKeyEvent { unit, is_key_up: false });
            v.push(UnicodeKeyEvent { unit, is_key_up: true });
            proof {
                lemma_unit_events_concat(utf16_of(before), seq![unit]);
                assert(utf16_units(c) =~= seq![unit]);
                assert(seq![unit].drop_last() =~= Seq::<u16>::empty());
                assert(unit_events(Seq::<u16>::empty()) =~= Seq::<UnicodeKeyEvent>::empty());
                assert(seq![unit].last() == unit);
                assert(unit_events(seq![unit]) =~= seq![
                    UnicodeKeyEvent { unit, is_key_up: false },
                    UnicodeKeyEvent { unit, is_key_up: true },
                ]);
            }
        } else {
            let w = u - 0x10000;
            let high = (0xD800 + w / 1024) as u16;
            let low = (0xDC00 + w % 1024) as u16;
            v.push(UnicodeKeyEvent { unit: high, is_key_up: false });
            v.push(UnicodeKeyEvent { unit: high, is_key_up: true });
            v.push(UnicodeKeyEvent { unit: low, is_key_up: false });
            v.push(UnicodeKeyEvent { unit: low, is_key_up: true });
            proof {
                lemma_unit_events_concat(utf16_of(before), seq![high, low]);
                assert(utf16_units(c) =~= seq![high, low]);
                assert(seq![high, low].drop_last() =~= seq![high]);
                assert(seq![high].drop_last() =~= Seq::<u16>::empty());
                assert(unit_events(Seq::<u16>::empty()) =~= Seq::<UnicodeKeyEvent>::empty());
                assert(seq![high].last() == high);
                assert(seq![high, low].last() == low);
                assert(unit_events(seq![high]) =~= seq![
                    UnicodeKeyEvent { unit: high, is_key_up: false },
                    UnicodeKeyEvent { unit: high, is_key_up: true },
                ]);
                assert(unit_events(seq![high, low]) =~= seq![
                    UnicodeKeyEvent { unit: high, is_key_up: false },
                    UnicodeKeyEvent { unit: high, is_key_up: true },
                    UnicodeKeyEvent { unit: low, is_key_up: false },
                    UnicodeKeyEvent { unit: low, is_key_up: true },
                ]);
            }
        }
        i = i + 1;
        assert(v@ =~= unit_events(utf16_of(chars@.subrange(0, i as int))));
    }
    assert(chars@.subrange(0, chars@.len() as int) =~= chars@);
    v
}

/// One planned key edge of a chord.
#[derive(Debug, Clone, Copy, PartialEq, Eq, Structural)]
pub struct PlannedKeyEvent {
    pub key: KeyCode,
    pub is_key_up: bool,
}

/// Why an injection could not be made or did not complete.
#[derive(Debug, Clone, PartialEq, Eq)]
pub enum SendInputError {
    EmptyChord,
    PartialDelivery { sent: usize, expected: usize },
    Backend(String),
}

pub open spec fn downs(keys: Seq<KeyCode>) -> Seq<PlannedKeyEvent> {
    Seq::new(keys.len(), |i: int| PlannedKeyEvent { key: keys[i], is_key_up: false })
}

pub open spec fn ups_reversed(keys: Seq<KeyCode>) -> Seq<PlannedKeyEvent> {
    Seq::new(keys.len(), |i: int| PlannedKeyEvent { key: keys[keys.len() - 1 - i], is_key_up: true })
}

fn plan_downs(keys: &Vec<KeyCode>) -> (v: Vec<PlannedKeyEvent>)
    ensures
        v@ == downs(keys@),
{
    let mut v: Vec<PlannedKeyEvent> = Vec::new();
    let mut i: usize = 0;
    while i < keys.len()
        invariant
            i <= keys@.len(),
            v@ == downs(keys@).subrange(0, i as int),
        decreases keys.len() - i,
    {
        v.push(PlannedKeyEvent { key: keys[i], is_key_up: false });
        i = i + 1;
        assert(v@ =~= downs(keys@).subrange(0, i as int));
    }
    assert(downs(keys@).subrange(0, keys@.len() as int) =~= downs(keys@));
    v
}

fn plan_ups(keys: &Vec<KeyCode>, v: &mut Vec<PlannedKeyEvent>)
    ensures
        final(v)@ == old(v)@ + ups_reversed(keys@),
{
    let ghost start = v@;
    let n = keys.len();
    let mut i: usize = 0;
    while i < n
        invariant
            i <= n == keys@.len(),
            v@ == start + ups_reversed(keys@).subrange(0, i as int),
        decreases n - i,
    {
        v.push(PlannedKeyEvent { key: keys[n - 1 - i], is_key_up: true });
        i = i + 1;
        assert(v@ =~= start + ups_reversed(keys@).subrange(0, i as int));
    }
    assert(ups_reversed(keys@).subrange(0, n as int) =~= ups_reversed(keys@));
}

/// Key-down edges of a chord, in press order (hold-to-talk press).
pub fn plan_key_down(chord: &KeyChord) -> (r: Result<Vec<PlannedKeyEvent>, SendInputError>)
    ensures
        chord.keys@.len() == 0 ==> r == Err::<Vec<PlannedKeyEvent>, SendInputError>(
            SendInputError::EmptyChord,
        ),
        chord.keys@.len() > 0 ==> (r matches Ok(v) && v@ == downs(chord.keys@)),
{
    if chord.keys.len() == 0 {
        return Err(SendInputError::EmptyChord);
    }
    Ok(plan_downs(&chord.keys))
}

/// Key-up edges of a chord, in reverse press order (hold-to-talk release).
pub fn plan_key_up(chord: &KeyChord) -> (r: Result<Vec<PlannedKeyEvent>, SendInputError>)
    ensures
        chord.keys@.len() == 0 ==> r == Err::<Vec<PlannedKeyEvent>, SendInputError>(
            SendInputError::EmptyChord,
        ),
        chord.keys@.len() > 0 ==> (r matches Ok(v) && v@ == ups_reversed(chord.keys@)),
{
    if chord.keys.len() == 0 {
        return Err(SendInputError::EmptyChord);
    }
    let mut v = Vec::new();
    plan_ups(&chord.keys, &mut v);
    assert(v@ =~= ups_reversed(chord.keys@));
    Ok(v)
}

/// A whole tap of a chord: all key-downs, then the key-ups in reverse.
pub fn plan_key_tap(chord: &KeyChord) -> (r: Result<Vec<PlannedKeyEvent>, SendInputError>)
    ensures
        chord.keys@.len() == 0 ==> r == Err::<Vec<PlannedKeyEvent>, SendInputError>(
            SendInputError::EmptyChord,
        ),
        chord.keys@.len() > 0 ==> (r matches Ok(v) && v@ == downs(chord.keys@) + ups_reversed(
            chord.keys@,
        )),
{
    if chord.keys.len() == 0 {
        return Err(SendInputError::EmptyChord);
    }
    let mut v = plan_downs(&chord.keys);
    plan_ups(&chord.keys, &mut v);
    Ok(v)
}

/// Checks that a batch was delivered in full.
pub fn submit_result(sent: usize, expected: usize) -> (r: Result<usize, SendInputError>)
    ensures
        sent == expected ==> r == Ok::<usize, SendInputError>(sent),
        sent != expected ==> r == Err::<usize, SendInputError>(
            SendInputError::PartialDelivery { sent, expected },
        ),
{
    if sent == expected {
        Ok(sent)
    } else {
        Err(SendInputError::PartialDelivery { sent, expected })
    }
}

/// Injection counters shown in diagnostics.
#[derive(Debug, Clone, PartialEq, Eq)]
pub struct SendInputSnapshot {
    pub available: bool,
    pub submitted_batches: u64,
    pub submitted_events: u64,
    pub last_error: Option<String>,
}

impl SendInputSnapshot {
    /// A copy with the same field values.
    pub fn copy(&self) -> (s: Self)
        ensures
            s == *self,
    {
        SendInputSnapshot {
            available: self.available,
            submitted_batches: self.submitted_batches,
            submitted_events: self.submitted_events,
            last_error: copy_opt_string(&self.last_error),
        }
    }
}

impl Default for SendInputSnapshot {
    fn default() -> (s: Self)
        ensures
            !s.available,
            s.submitted_batches == 0,
            s.submitted_events == 0,
            s.last_error is None,
    {
        SendInputSnapshot { available: false, submitted_batches: 0, submitted_events: 0, last_error: None }
    }
}

/// Platform-level failure reported to the UI.
#[derive(Debug, Clone, PartialEq, Eq)]
pub enum PlatformError {
    SendInput(String),
    UnsupportedPlatform,
}

/// Counters and key-hold setting of the input injector.
#[derive(Debug)]
pub struct SendInputRuntime {
    snapshot: SendInputSnapshot,
    hold_millis: u64,
}

impl SendInputRuntime {
    pub closed spec fn state(self) -> SendInputSnapshot {
        self.snapshot
    }

    pub closed spec fn hold(self) -> u64 {
        self.hold_millis
    }

    /// Available, nothing submitted, default key hold.
    pub fn new() -> (r: Self)
        ensures
            r.state().available,
            r.state().submitted_batches == 0,
            r.state().submitted_events == 0,
            r.state().last_error is None,
            r.hold() == DEFAULT_INJECTION_HOLD_MS,
    {
        SendInputRuntime {
            snapshot: SendInputSnapshot {
                available: true,
                submitted_batches: 0,
                submitted_events: 0,
                last_error: None,
            },
            hold_millis: DEFAULT_INJECTION_HOLD_MS,
        }
    }

    /// Key hold between an injected key-down and its key-up, milliseconds.
    pub fn injection_hold(&self) -> (ms: u64)
        ensures
            ms == self.hold(),
    {
        self.hold_millis
    }

    /// Sets the key hold, capped at one second; takes effect on the next
    /// injection.
    pub fn set_injection_hold(&mut self, hold_ms: u64)
        ensures
            final(self).hold() == if hold_ms < MAX_INJECTION_HOLD_MS {
                hold_ms
            } else {
                MAX_INJECTION_HOLD_MS
            },
            final(self).state() == old(self).state(),
    {
        self.hold_millis = if hold_ms < MAX_INJECTION_HOLD_MS {
            hold_ms
        } else {
            MAX_INJECTION_HOLD_MS
        };
    }

    pub fn snapshot(&self) -> (s: SendInputSnapshot)
        ensures
            s == self.state(),
    {
        self.snapshot.copy()
    }

    /// Records a completed batch of `events` events; returns the new counters.
    pub fn record_success(&mut self, events: usize) -> (s: SendInputSnapshot)
        requires
            old(self).state().submitted_batches < u64::MAX,
            old(self).state().submitted_events + events <= u64::MAX,
        ensures
            final(self).state() == (SendInputSnapshot {
                submitted_batches: (old(self).state().submitted_batches + 1) as u64,
                submitted_events: (old(self).state().submitted_events + events) as u64,
                last_error: None,
                ..old(self).state()
            }),
            s == final(self).state(),
            final(self).hold() == old(self).hold(),
    {
        self.snapshot.submitted_batches = self.snapshot.submitted_batches + 1;
        self.snapshot.submitted_events = self.snapshot.submitted_events + events as u64;
        self.snapshot.last_error = None;
        self.snapshot.copy()
    }

    /// Records a failed injection as `"<operation>：<message>"`; the counters
    /// stay; returns the error for the caller.
    pub fn record_failure(&mut self, operation: &str, message: &str) -> (e: PlatformError)
        ensures
            final(self).state() == (SendInputSnapshot {
                last_error: final(self).state().last_error,
                ..old(self).state()
            }),
            opt_string_view(final(self).state().last_error) == Some(operation@ + seq!['：'] + message@),
            e matches PlatformError::SendInput(m) && m@ == message@,
            final(self).hold() == old(self).hold(),
    {
        let mut text = String::from_str(operation);
        text.push('：');
        text.append(message);
        self.snapshot.last_error = Some(text);
        PlatformError::SendInput(String::from_str(message))
    }
}

impl Default for SendInputRuntime {
    fn default() -> (r: Self)
        ensures
            r.state().available,
            r.state().submitted_batches == 0,
            r.state().submitted_events == 0,
            r.state().last_error is None,
            r.hold() == DEFAULT_INJECTION_HOLD_MS,
    {
        SendInputRuntime::new()
    }
}

} // verus!
