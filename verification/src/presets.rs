//! Mapping presets: one step applies a whole button layout. Applying a preset
//! replaces the mapping as a whole: buttons it does not list end up unmapped.
//! The three layouts only use keys that hold across programs in their field.
use vstd::prelude::*;
use crate::raw_input::{button_ordinal, RemoteButton};
use crate::hotkey::{lemma_validated_chords_are_distinct, spec_validated, KeyChordError};
use crate::send_input::{
    actions_error, actions_view, canonical_entries, entries_error, entry_lookup,
    lemma_canonical_lookups_determine, mappings_view, normalization_result, kept_cell, normalized_actions, spec_native_key,
    ButtonAction, ButtonActions, ButtonMappings, KeyChord, KeyCode, MouseAction,
};
use crate::text::{chars_of, same_chars};

verus! {

/// Catalog entry of a preset, for the preset picker.
#[derive(Debug, Clone, PartialEq, Eq)]
pub struct MappingPresetInfo {
    pub id: String,
    pub name: String,
    pub note: String,
}

/// The preset used for "restore recommended" and for first-run setup.
pub const RECOMMENDED_PRESET: &'static str = "generic";

/// The known presets.
#[derive(Debug, Clone, Copy, PartialEq, Eq, Structural)]
pub enum PresetKind {
    /// Any program: wheel up/down, tab left/right, Enter, Escape, full screen.
    Generic,
    /// Web pages and documents: wheel, Space pages, Alt+arrows go back/forward.
    Reading,
    /// Players and video sites: Space plays/pauses, arrows seek natively.
    Media,
}

pub open spec fn preset_id(k: PresetKind) -> Seq<char> {
    match k {
        PresetKind::Generic => seq!['g', 'e', 'n', 'e', 'r', 'i', 'c'],
        PresetKind::Reading => seq!['r', 'e', 'a', 'd', 'i', 'n', 'g'],
        PresetKind::Media => seq!['m', 'e', 'd', 'i', 'a'],
    }
}

pub open spec fn spec_preset_kind(id: Seq<char>) -> Option<PresetKind> {
    if id == preset_id(PresetKind::Generic) {
        Some(PresetKind::Generic)
    } else if id == preset_id(PresetKind::Reading) {
        Some(PresetKind::Reading)
    } else if id == preset_id(PresetKind::Media) {
        Some(PresetKind::Media)
    } else {
        None
    }
}

/// The shape of one preset action.
pub enum PresetAction {
    Keys(Seq<KeyCode>),
    Wheel(MouseAction),
    Native,
}

pub open spec fn action_is(a: ButtonAction, p: PresetAction) -> bool {
    match p {
        PresetAction::Keys(keys) => a matches ButtonAction::Shortcut { chord } && chord.keys@ == keys,
        PresetAction::Wheel(kind) => a == ButtonAction::Mouse { kind },
        PresetAction::Native => a == ButtonAction::Native,
    }
}

/// The action a preset gives a button; `None` leaves the button unmapped.
pub open spec fn preset_action(k: PresetKind, b: RemoteButton) -> Option<PresetAction> {
    match k {
        PresetKind::Generic => match b {
            RemoteButton::Confirm => Some(PresetAction::Keys(seq![KeyCode::Enter])),
            RemoteButton::Back => Some(PresetAction::Keys(seq![KeyCode::Escape])),
            RemoteButton::Up => Some(PresetAction::Wheel(MouseAction::WheelUp)),
            RemoteButton::Down => Some(PresetAction::Wheel(MouseAction::WheelDown)),
            RemoteButton::Left => Some(PresetAction::Keys(seq![KeyCode::LeftControl, KeyCode::PageUp])),
            RemoteButton::Right => Some(
                PresetAction::Keys(seq![KeyCode::LeftControl, KeyCode::PageDown]),
            ),
            RemoteButton::Home => Some(PresetAction::Native),
            RemoteButton::Menu => Some(PresetAction::Native),
            RemoteButton::Power => Some(PresetAction::Keys(seq![KeyCode::F11])),
            RemoteButton::VolumeMute => Some(PresetAction::Native),
            RemoteButton::VolumeUp => Some(PresetAction::Native),
            RemoteButton::VolumeDown => Some(PresetAction::Native),
            _ => None,
        },
        PresetKind::Reading => match b {
            RemoteButton::Confirm => Some(PresetAction::Keys(seq![KeyCode::Space])),
            RemoteButton::Back => Some(PresetAction::Keys(seq![KeyCode::Escape])),
            RemoteButton::Up => Some(PresetAction::Wheel(MouseAction::WheelUp)),
            RemoteButton::Down => Some(PresetAction::Wheel(MouseAction::WheelDown)),
            RemoteButton::Left => Some(PresetAction::Keys(seq![KeyCode::LeftAlt, KeyCode::Left])),
            RemoteButton::Right => Some(PresetAction::Keys(seq![KeyCode::LeftAlt, KeyCode::Right])),
            RemoteButton::Home => Some(PresetAction::Keys(seq![KeyCode::LeftControl, KeyCode::Home])),
            RemoteButton::Menu => Some(PresetAction::Native),
            RemoteButton::Power => Some(PresetAction::Keys(seq![KeyCode::F11])),
            RemoteButton::VolumeMute => Some(PresetAction::Native),
            RemoteButton::VolumeUp => Some(PresetAction::Native),
            RemoteButton::VolumeDown => Some(PresetAction::Native),
            _ => None,
        },
        PresetKind::Media => match b {
            RemoteButton::Confirm => Some(PresetAction::Keys(seq![KeyCode::Space])),
            RemoteButton::Back => Some(PresetAction::Keys(seq![KeyCode::Escape])),
            RemoteButton::Up => Some(PresetAction::Native),
            RemoteButton::Down => Some(PresetAction::Native),
            RemoteButton::Left => Some(PresetAction::Native),
            RemoteButton::Right => Some(PresetAction::Native),
            RemoteButton::Home => Some(PresetAction::Keys(seq![KeyCode::F])),
            RemoteButton::Menu => Some(PresetAction::Native),
            RemoteButton::Power => Some(PresetAction::Keys(seq![KeyCode::M])),
            RemoteButton::VolumeMute => Some(PresetAction::Native),
            RemoteButton::VolumeUp => Some(PresetAction::Native),
            RemoteButton::VolumeDown => Some(PresetAction::Native),
            _ => None,
        },
    }
}

/// `m` maps exactly the buttons that preset `k` lists, each to its preset
/// action as the single-press cell and nothing else.
pub open spec fn is_preset_mapping(k: PresetKind, m: ButtonMappings) -> bool {
    forall|b: RemoteButton|
        match (#[trigger] m.spec_actions(b), preset_action(k, b)) {
            (Some(a), Some(p)) => {
                &&& a.single@.len() == 1
                &&& action_is(a.single@[0], p)
                &&& a.double@.len() == 0
                &&& a.long@.len() == 0
            },
            (None, None) => true,
            _ => false,
        }
}

/// The direction buttons of every preset act in their own direction: in the
/// generic and reading presets Up scrolls the wheel up and Down scrolls it
/// down, Left goes back (previous tab, history back) and Right forward
/// (next tab, history forward); the media preset lets all four arrows
/// through as themselves. Up and Down never do the same thing, nor do Left
/// and Right, unless both let their own, different keys through.
pub proof fn lemma_direction_buttons_go_their_own_way(k: PresetKind)
    ensures
        k != PresetKind::Media ==> preset_action(k, RemoteButton::Up) == Some(
            PresetAction::Wheel(MouseAction::WheelUp),
        ),
        k != PresetKind::Media ==> preset_action(k, RemoteButton::Down) == Some(
            PresetAction::Wheel(MouseAction::WheelDown),
        ),
        k == PresetKind::Generic ==> preset_action(k, RemoteButton::Left) == Some(
            PresetAction::Keys(seq![KeyCode::LeftControl, KeyCode::PageUp]),
        ),
        k == PresetKind::Generic ==> preset_action(k, RemoteButton::Right) == Some(
            PresetAction::Keys(seq![KeyCode::LeftControl, KeyCode::PageDown]),
        ),
        k == PresetKind::Reading ==> preset_action(k, RemoteButton::Left) == Some(
            PresetAction::Keys(seq![KeyCode::LeftAlt, KeyCode::Left]),
        ),
        k == PresetKind::Reading ==> preset_action(k, RemoteButton::Right) == Some(
            PresetAction::Keys(seq![KeyCode::LeftAlt, KeyCode::Right]),
        ),
        k == PresetKind::Media ==> {
            &&& preset_action(k, RemoteButton::Up) == Some(PresetAction::Native)
            &&& preset_action(k, RemoteButton::Down) == Some(PresetAction::Native)
            &&& preset_action(k, RemoteButton::Left) == Some(PresetAction::Native)
            &&& preset_action(k, RemoteButton::Right) == Some(PresetAction::Native)
        },
        preset_action(k, RemoteButton::Up) != preset_action(k, RemoteButton::Down) || spec_native_key(
            RemoteButton::Up,
        ) != spec_native_key(RemoteButton::Down),
        preset_action(k, RemoteButton::Left) != preset_action(k, RemoteButton::Right)
            || spec_native_key(RemoteButton::Left) != spec_native_key(RemoteButton::Right),
{
}

/// A built preset mapping scrolls down on Down and up on Up (outside the
/// media preset), each as the single press of the button.
pub proof fn lemma_built_wheel_directions(k: PresetKind, m: ButtonMappings)
    requires
        is_preset_mapping(k, m),
        k != PresetKind::Media,
    ensures
        m.spec_actions(RemoteButton::Up) is Some && m.spec_actions(RemoteButton::Up)->0.single@
            == seq![ButtonAction::Mouse { kind: MouseAction::WheelUp }],
        m.spec_actions(RemoteButton::Down) is Some && m.spec_actions(RemoteButton::Down)->0.single@
            == seq![ButtonAction::Mouse { kind: MouseAction::WheelDown }],
{
    lemma_direction_buttons_go_their_own_way(k);
    assert(m.spec_actions(RemoteButton::Up) matches Some(a) && a.single@.len() == 1);
    assert(m.spec_actions(RemoteButton::Down) matches Some(a) && a.single@.len() == 1);
    assert(m.spec_actions(RemoteButton::Up)->0.single@ =~= seq![
        ButtonAction::Mouse { kind: MouseAction::WheelUp },
    ]);
    assert(m.spec_actions(RemoteButton::Down)->0.single@ =~= seq![
        ButtonAction::Mouse { kind: MouseAction::WheelDown },
    ]);
}

/// A preset lets a button's own key through only on buttons that have one.
pub proof fn lemma_preset_native_only_with_native_key(k: PresetKind, b: RemoteButton)
    ensures
        preset_action(k, b) matches Some(PresetAction::Native) ==> spec_native_key(b) is Some,
{
}

/// Every chord a preset assigns passes chord validation unchanged.
pub proof fn lemma_preset_chords_valid(k: PresetKind, b: RemoteButton)
    ensures
        preset_action(k, b) matches Some(PresetAction::Keys(keys)) ==> spec_validated(keys)
            == Ok::<Seq<KeyCode>, KeyChordError>(keys),
{
    if let Some(PresetAction::Keys(keys)) = preset_action(k, b) {
        lemma_validated_chords_are_distinct(keys);
    }
}

/// A preset mapping is already in normal form: normalization finds no chord
/// problem and leaves every button's actions as they are.
pub proof fn lemma_preset_mapping_is_normal(k: PresetKind, m: ButtonMappings)
    requires
        is_preset_mapping(k, m),
    ensures
        entries_error(m.entries(), 15) is None,
        forall|b: RemoteButton|
            (#[trigger] m.spec_actions(b)) matches Some(a) ==> normalized_actions(b, a, a),
{
    assert forall|b: RemoteButton| (#[trigger] m.spec_actions(b)) is Some implies {
        &&& actions_error(m.spec_actions(b)->0) is None
        &&& normalized_actions(b, m.spec_actions(b)->0, m.spec_actions(b)->0)
    } by {
        let a = m.spec_actions(b)->0;
        let x = a.single@[0];
        lemma_preset_native_only_with_native_key(k, b);
        lemma_preset_chords_valid(k, b);
        assert(a.single@.drop_last() =~= Seq::<ButtonAction>::empty());
        assert(a.single@ == Seq::<ButtonAction>::empty().push(x));
        assert(kept_cell(b, a.double@) =~= a.double@);
        assert(kept_cell(b, a.long@) =~= a.long@);
        assert(kept_cell(b, a.single@) =~= a.single@);
    }
    lemma_no_error_upto(k, m, 15);
}

/// Normalizing a built preset gives it back unchanged: `normalized` answers
/// `Ok` with the same master switch and the same entries, in the same order,
/// with the same cells.
pub proof fn lemma_preset_normalizes_unchanged(
    k: PresetKind,
    m: ButtonMappings,
    r: Result<ButtonMappings, KeyChordError>,
)
    requires
        is_preset_mapping(k, m),
        canonical_entries(m.entries()),
        normalization_result(m, r),
    ensures
        r matches Ok(x) && mappings_view(x) == mappings_view(m),
{
    lemma_preset_mapping_is_normal(k, m);
    let x = r->Ok_0;
    assert forall|b: RemoteButton|
        match (#[trigger] entry_lookup(x.entries(), b), entry_lookup(m.entries(), b)) {
            (Some(y), Some(a)) => actions_view(y) == actions_view(a),
            (None, None) => true,
            _ => false,
        } by {
        assert(x.spec_actions(b) == entry_lookup(x.entries(), b));
        assert(m.spec_actions(b) == entry_lookup(m.entries(), b));
    }
    lemma_canonical_lookups_determine(x.entries(), m.entries());
}

proof fn lemma_no_error_upto(k: PresetKind, m: ButtonMappings, n: nat)
    requires
        n <= 15,
        forall|b: RemoteButton|
            (#[trigger] m.spec_actions(b)) matches Some(a) ==> actions_error(a) is None,
    ensures
        entries_error(m.entries(), n) is None,
    decreases n,
{
    if n > 0 {
        lemma_no_error_upto(k, m, (n - 1) as nat);
        let b = crate::raw_input::button_at(n - 1);
        assert(m.spec_actions(b) == entry_lookup(m.entries(), b));
    }
}

fn key(code: KeyCode) -> (a: ButtonAction)
    ensures
        action_is(a, PresetAction::Keys(seq![code])),
{
    let mut keys = Vec::new();
    keys.push(code);
    assert(keys@ =~= seq![code]);
    ButtonAction::Shortcut { chord: KeyChord { keys } }
}

fn combo(first: KeyCode, second: KeyCode) -> (a: ButtonAction)
    ensures
        action_is(a, PresetAction::Keys(seq![first, second])),
{
    let mut keys = Vec::new();
    keys.push(first);
    keys.push(second);
    assert(keys@ =~= seq![first, second]);
    ButtonAction::Shortcut { chord: KeyChord { keys } }
}

fn wheel(kind: MouseAction) -> (a: ButtonAction)
    ensures
        action_is(a, PresetAction::Wheel(kind)),
{
    ButtonAction::Mouse { kind }
}

fn native() -> (a: ButtonAction)
    ensures
        action_is(a, PresetAction::Native),
{
    ButtonAction::Native
}

fn preset_action_for(k: PresetKind, b: RemoteButton) -> (a: Option<ButtonAction>)
    ensures
        match (a, preset_action(k, b)) {
            (Some(a), Some(p)) => action_is(a, p),
            (None, None) => true,
            _ => false,
        },
{
    match k {
        PresetKind::Generic => match b {
            RemoteButton::Confirm => Some(key(KeyCode::Enter)),
            RemoteButton::Back => Some(key(KeyCode::Escape)),
            RemoteButton::Up => Some(wheel(MouseAction::WheelUp)),
            RemoteButton::Down => Some(wheel(MouseAction::WheelDown)),
            RemoteButton::Left => Some(combo(KeyCode::LeftControl, KeyCode::PageUp)),
            RemoteButton::Right => Some(combo(KeyCode::LeftControl, KeyCode::PageDown)),
            RemoteButton::Home => Some(native()),
            RemoteButton::Menu => Some(native()),
            RemoteButton::Power => Some(key(KeyCode::F11)),
            RemoteButton::VolumeMute => Some(native()),
            RemoteButton::VolumeUp => Some(native()),
            RemoteButton::VolumeDown => Some(native()),
            _ => None,
        },
        PresetKind::Reading => match b {
            RemoteButton::Confirm => Some(key(KeyCode::Space)),
            RemoteButton::Back => Some(key(KeyCode::Escape)),
            RemoteButton::Up => Some(wheel(MouseAction::WheelUp)),
            RemoteButton::Down => Some(wheel(MouseAction::WheelDown)),
            RemoteButton::Left => Some(combo(KeyCode::LeftAlt, KeyCode::Left)),
            RemoteButton::Right => Some(combo(KeyCode::LeftAlt, KeyCode::Right)),
            RemoteButton::Home => Some(combo(KeyCode::LeftControl, KeyCode::Home)),
            RemoteButton::Menu => Some(native()),
            RemoteButton::Power => Some(key(KeyCode::F11)),
            RemoteButton::VolumeMute => Some(native()),
            RemoteButton::VolumeUp => Some(native()),
            RemoteButton::VolumeDown => Some(native()),
            _ => None,
        },
        PresetKind::Media => match b {
            RemoteButton::Confirm => Some(key(KeyCode::Space)),
            RemoteButton::Back => Some(key(KeyCode::Escape)),
            RemoteButton::Up => Some(native()),
            RemoteButton::Down => Some(native()),
            RemoteButton::Left => Some(native()),
            RemoteButton::Right => Some(native()),
            RemoteButton::Home => Some(key(KeyCode::F)),
            RemoteButton::Menu => Some(native()),
            RemoteButton::Power => Some(key(KeyCode::M)),
            RemoteButton::VolumeMute => Some(native()),
            RemoteButton::VolumeUp => Some(native()),
            RemoteButton::VolumeDown => Some(native()),
            _ => None,
        },
    }
}

/// The preset an id names.
pub fn preset_kind(id: &str) -> (k: Option<PresetKind>)
    ensures
        k == spec_preset_kind(id@),
{
    let chars = chars_of(id);
    let generic = vec!['g', 'e', 'n', 'e', 'r', 'i', 'c'];
    let reading = vec!['r', 'e', 'a', 'd', 'i', 'n', 'g'];
    let media = vec!['m', 'e', 'd', 'i', 'a'];
    assert(generic@ =~= preset_id(PresetKind::Generic));
    assert(reading@ =~= preset_id(PresetKind::Reading));
    assert(media@ =~= preset_id(PresetKind::Media));
    if same_chars(chars.as_slice(), generic.as_slice()) {
        Some(PresetKind::Generic)
    } else if same_chars(chars.as_slice(), reading.as_slice()) {
        Some(PresetKind::Reading)
    } else if same_chars(chars.as_slice(), media.as_slice()) {
        Some(PresetKind::Media)
    } else {
        None
    }
}

/// The catalog of presets, in picker order.
pub fn catalog() -> (v: Vec<MappingPresetInfo>)
    ensures
        v@.len() == 3,
        v@[0].id@ == preset_id(PresetKind::Generic),
        v@[1].id@ == preset_id(PresetKind::Reading),
        v@[2].id@ == preset_id(PresetKind::Media),
        v@[0].name@ == "通用（浏览器 / 任意程序）"@,
        v@[1].name@ == "阅读（网页 / 文档）"@,
        v@[2].name@ == "影音（播放器 / 视频网站）"@,
        v@[0].note@ == "上下滚轮、左右切标签页、确定回车、返回 Esc、电源全屏"@,
        v@[1].note@ == "上下滚轮、确定空格翻页、左右前进后退、主页回到顶部"@,
        v@[2].note@ == "确定播放暂停、方向键快退快进、主页全屏、电源静音"@,
{
    proof {
        reveal_strlit("generic");
        reveal_strlit("reading");
        reveal_strlit("media");
    }
    let mut v = Vec::new();
    v.push(
        MappingPresetInfo {
            id: String::from_str("generic"),
            name: String::from_str("通用（浏览器 / 任意程序）"),
            note: String::from_str("上下滚轮、左右切标签页、确定回车、返回 Esc、电源全屏"),
        },
    );
    v.push(
        MappingPresetInfo {
            id: String::from_str("reading"),
            name: String::from_str("阅读（网页 / 文档）"),
            note: String::from_str("上下滚轮、确定空格翻页、左右前进后退、主页回到顶部"),
        },
    );
    v.push(
        MappingPresetInfo {
            id: String::from_str("media"),
            name: String::from_str("影音（播放器 / 视频网站）"),
            note: String::from_str("确定播放暂停、方向键快退快进、主页全屏、电源静音"),
        },
    );
    v
}

/// The complete mapping of the preset `id`, keeping the master switch as
/// given; `None` for an unknown id. Every listed button gets its action as
/// the single-press cell; every other button stays unmapped.
pub fn build(id: &str, enabled: bool) -> (m: Option<ButtonMappings>)
    ensures
        match (m, spec_preset_kind(id@)) {
            (Some(m), Some(k)) => {
                &&& m.enabled == enabled
                &&& is_preset_mapping(k, m)
                &&& canonical_entries(m.entries())
            },
            (None, None) => true,
            _ => false,
        },
{
    broadcast use crate::raw_input::lemma_ordinal_roundtrip;

    let kind = match preset_kind(id) {
        Some(k) => k,
        None => {
            return None;
        },
    };
    let mut mappings = ButtonMappings { enabled, actions: Vec::new() };
    let buttons = crate::raw_input::all_buttons();
    let mut i: usize = 0;
    while i < buttons.len()
        invariant
            i <= buttons@.len(),
            buttons@.len() == 15,
            forall|k: int| 0 <= k < 15 ==> buttons@[k] == crate::raw_input::button_at(k),
            mappings.enabled == enabled,
            canonical_entries(mappings.entries()),
            forall|j: int|
                0 <= j < mappings.entries().len() ==> button_ordinal(
                    #[trigger] mappings.entries()[j].0,
                ) < i,
            forall|b: RemoteButton|
                match (#[trigger] mappings.spec_actions(b), preset_action(kind, b)) {
                    (Some(a), Some(p)) => {
                        &&& button_ordinal(b) < i
                        &&& a.single@.len() == 1
                        &&& action_is(a.single@[0], p)
                        &&& a.double@.len() == 0
                        &&& a.long@.len() == 0
                    },
                    (None, Some(p)) => button_ordinal(b) >= i,
                    (None, None) => true,
                    _ => false,
                },
        decreases buttons.len() - i,
    {
        let b = buttons[i];
        proof {
            crate::raw_input::lemma_button_at_roundtrip(i as int);
        }
        match preset_action_for(kind, b) {
            Some(action) => {
                mappings.set_actions(b, ButtonActions::single(action));
            },
            None => {},
        }
        i = i + 1;
        assert forall|x: RemoteButton|
            match (#[trigger] mappings.spec_actions(x), preset_action(kind, x)) {
                (Some(a), Some(p)) => {
                    &&& button_ordinal(x) < i
                    &&& a.single@.len() == 1
                    &&& action_is(a.single@[0], p)
                    &&& a.double@.len() == 0
                    &&& a.long@.len() == 0
                },
                (None, Some(p)) => button_ordinal(x) >= i,
                (None, None) => true,
                _ => false,
            } by {
            crate::raw_input::lemma_ordinal_roundtrip(x);
        }
    }
    Some(mappings)
}

} // verus!
