//! Remote model profiles: which device a Raw Input path belongs to, which
//! buttons the model has and how its HID usages decode. The two supported
//! vendors use different HID pages whose usage values collide, so usages are
//! always decoded through the profile of the connected remote.
use vstd::prelude::*;
use crate::raw_input::{
    button_at, button_for_usage, button_from_ordinal, button_ordinal, lemma_button_at_roundtrip,
    lemma_ordinal_roundtrip, spec_button_for_usage, RemoteButton, BUTTON_COUNT,
};
use crate::text::{
    chars_of, contains_chars, contains_seq, lower_chars, lower_seq, same_chars, trim, trim_bounds,
};

verus! {

/// The supported remote models.
#[derive(Debug, Clone, Copy, PartialEq, Eq, Structural)]
pub enum ProfileKind {
    /// Xiaomi Bluetooth Remote 2 / 2 Pro (RC001 / RC003), keyboard-page usages.
    Xiaomi,
    /// Google TV / Chromecast voice remote, consumer-page usages.
    GoogleTv,
}

/// A remote model profile.
#[derive(Debug, Clone, Copy, PartialEq, Eq, Structural)]
pub struct RemoteProfile {
    kind: ProfileKind,
}

pub open spec fn kind_vendor_id(k: ProfileKind) -> u16 {
    match k {
        ProfileKind::Xiaomi => 0x2717,
        ProfileKind::GoogleTv => 0x18D1,
    }
}

pub open spec fn kind_product_id(k: ProfileKind) -> u16 {
    match k {
        ProfileKind::Xiaomi => 0x32B8,
        ProfileKind::GoogleTv => 0x9450,
    }
}

pub open spec fn kind_id(k: ProfileKind) -> Seq<char> {
    match k {
        ProfileKind::Xiaomi => seq!['x', 'i', 'a', 'o', 'm', 'i'],
        ProfileKind::GoogleTv => seq!['g', 'o', 'o', 'g', 'l', 'e', '_', 't', 'v'],
    }
}

/// Only the Xiaomi table was confirmed on real hardware.
pub open spec fn kind_verified(k: ProfileKind) -> bool {
    k == ProfileKind::Xiaomi
}

/// Consumer-page usages of the Google TV remote.
pub open spec fn google_button_for_usage(usage: u16) -> Option<RemoteButton> {
    if usage == 0x019E {
        Some(RemoteButton::Power)
    } else if usage == 0x0189 {
        Some(RemoteButton::Tv)
    } else if usage == 0x0042 {
        Some(RemoteButton::Up)
    } else if usage == 0x0043 {
        Some(RemoteButton::Down)
    } else if usage == 0x0044 {
        Some(RemoteButton::Left)
    } else if usage == 0x0045 {
        Some(RemoteButton::Right)
    } else if usage == 0x0041 {
        Some(RemoteButton::Confirm)
    } else if usage == 0x0224 {
        Some(RemoteButton::Back)
    } else if usage == 0x0223 {
        Some(RemoteButton::Home)
    } else if usage == 0x00E9 {
        Some(RemoteButton::VolumeUp)
    } else if usage == 0x00EA {
        Some(RemoteButton::VolumeDown)
    } else if usage == 0x00E2 {
        Some(RemoteButton::VolumeMute)
    } else if usage == 0x0077 {
        Some(RemoteButton::Youtube)
    } else if usage == 0x0078 {
        Some(RemoteButton::Netflix)
    } else {
        None
    }
}

pub open spec fn kind_button_for_usage(k: ProfileKind, usage: u16) -> Option<RemoteButton> {
    match k {
        ProfileKind::Xiaomi => spec_button_for_usage(usage),
        ProfileKind::GoogleTv => google_button_for_usage(usage),
    }
}

/// The buttons a model physically has: the Xiaomi remote lacks the two app
/// keys, the Google remote lacks Menu.
pub open spec fn kind_has_button(k: ProfileKind, b: RemoteButton) -> bool {
    match k {
        ProfileKind::Xiaomi => button_ordinal(b) < 13,
        ProfileKind::GoogleTv => b != RemoteButton::Menu,
    }
}

/// The one usage that decodes to `b` under the profile, if any.
pub open spec fn kind_usage_of(k: ProfileKind, b: RemoteButton) -> Option<u16> {
    match k {
        ProfileKind::Xiaomi => match b {
            RemoteButton::Back => Some(0x00F1u16),
            RemoteButton::Confirm => Some(0x0028u16),
            RemoteButton::Tv => Some(0x0035u16),
            RemoteButton::Home => Some(0x004Au16),
            RemoteButton::Right => Some(0x004Fu16),
            RemoteButton::Left => Some(0x0050u16),
            RemoteButton::Down => Some(0x0051u16),
            RemoteButton::Up => Some(0x0052u16),
            RemoteButton::Menu => Some(0x0065u16),
            RemoteButton::Power => Some(0x0066u16),
            RemoteButton::VolumeMute => Some(0x007Fu16),
            RemoteButton::VolumeUp => Some(0x0080u16),
            RemoteButton::VolumeDown => Some(0x0081u16),
            _ => None,
        },
        ProfileKind::GoogleTv => match b {
            RemoteButton::Power => Some(0x019Eu16),
            RemoteButton::Tv => Some(0x0189u16),
            RemoteButton::Up => Some(0x0042u16),
            RemoteButton::Down => Some(0x0043u16),
            RemoteButton::Left => Some(0x0044u16),
            RemoteButton::Right => Some(0x0045u16),
            RemoteButton::Confirm => Some(0x0041u16),
            RemoteButton::Back => Some(0x0224u16),
            RemoteButton::Home => Some(0x0223u16),
            RemoteButton::VolumeUp => Some(0x00E9u16),
            RemoteButton::VolumeDown => Some(0x00EAu16),
            RemoteButton::VolumeMute => Some(0x00E2u16),
            RemoteButton::Youtube => Some(0x0077u16),
            RemoteButton::Netflix => Some(0x0078u16),
            _ => None,
        },
    }
}

/// Each profile's usage table is one-to-one: a usage decodes to `b` exactly
/// when it is the usage the table lists for `b`, and every decoded button is
/// a button of the model.
pub proof fn lemma_usage_table_inverse(k: ProfileKind, usage: u16, b: RemoteButton)
    ensures
        kind_button_for_usage(k, usage) == Some(b) <==> kind_usage_of(k, b) == Some(usage),
        kind_button_for_usage(k, usage) == Some(b) ==> kind_has_button(k, b),
{
}

/// Lower-case four-digit hexadecimal digit of `d` (`0 <= d < 16`).
pub open spec fn hex_digit(d: int) -> char {
    if d < 10 {
        (('0' as u32) + d) as char
    } else {
        (('a' as u32) + d - 10) as char
    }
}

/// `format!("{:04x}", v)`.
pub open spec fn hex4(v: u16) -> Seq<char> {
    seq![
        hex_digit((v / 4096) as int % 16),
        hex_digit((v / 256) as int % 16),
        hex_digit((v / 16) as int % 16),
        hex_digit(v as int % 16),
    ]
}

pub open spec fn classic_vid(v: u16) -> Seq<char> {
    seq!['v', 'i', 'd', '_'] + hex4(v)
}

pub open spec fn classic_pid(p: u16) -> Seq<char> {
    seq!['p', 'i', 'd', '_'] + hex4(p)
}

pub open spec fn ble_vid(v: u16, marker: char) -> Seq<char> {
    seq!['d', 'e', 'v', '_', 'v', 'i', 'd', '&', '0', marker] + hex4(v)
}

pub open spec fn ble_pid(p: u16) -> Seq<char> {
    seq!['p', 'i', 'd', '&'] + hex4(p)
}

/// Whether a Raw Input device path belongs to a remote with the given ids.
/// Classic HID paths read `vid_xxxx&pid_xxxx`; Bluetooth LE HID paths read
/// `dev_vid&00xxxx` (or `&01xxxx`) and `pid&xxxx`. Comparison is on the
/// trimmed, ASCII-lower-cased path.
pub open spec fn path_matches_ids(path: Seq<char>, vid: u16, pid: u16) -> bool {
    let n = lower_seq(trim(path));
    ||| contains_seq(n, classic_vid(vid)) && contains_seq(n, classic_pid(pid))
    ||| (contains_seq(n, ble_vid(vid, '0')) || contains_seq(n, ble_vid(vid, '1'))) && contains_seq(
        n,
        ble_pid(pid),
    )
}

pub open spec fn kind_matches_path(k: ProfileKind, path: Seq<char>) -> bool {
    path_matches_ids(path, kind_vendor_id(k), kind_product_id(k))
}

/// The first profile, in the order Xiaomi then Google TV, whose ids occur in
/// the path.
pub open spec fn spec_profile_for_path(path: Seq<char>) -> Option<ProfileKind> {
    if kind_matches_path(ProfileKind::Xiaomi, path) {
        Some(ProfileKind::Xiaomi)
    } else if kind_matches_path(ProfileKind::GoogleTv, path) {
        Some(ProfileKind::GoogleTv)
    } else {
        None
    }
}

pub open spec fn spec_profile_by_id(id: Seq<char>) -> Option<ProfileKind> {
    if id == kind_id(ProfileKind::Xiaomi) {
        Some(ProfileKind::Xiaomi)
    } else if id == kind_id(ProfileKind::GoogleTv) {
        Some(ProfileKind::GoogleTv)
    } else {
        None
    }
}

fn hex_digit_char(d: u16) -> (c: char)
    requires
        d < 16,
    ensures
        c == hex_digit(d as int),
{
    if d < 10 {
        ((48 + d) as u8) as char
    } else {
        ((97 + d - 10) as u8) as char
    }
}

fn push_hex4(v: &mut Vec<char>, x: u16)
    ensures
        final(v)@ == old(v)@ + hex4(x),
{
    v.push(hex_digit_char((x / 4096) % 16));
    v.push(hex_digit_char((x / 256) % 16));
    v.push(hex_digit_char((x / 16) % 16));
    v.push(hex_digit_char(x % 16));
    assert(v@ =~= old(v)@ + hex4(x));
}

impl RemoteProfile {
    pub closed spec fn kind(self) -> ProfileKind {
        self.kind
    }

    pub fn xiaomi() -> (p: Self)
        ensures
            p.kind() == ProfileKind::Xiaomi,
    {
        RemoteProfile { kind: ProfileKind::Xiaomi }
    }

    pub fn google_tv() -> (p: Self)
        ensures
            p.kind() == ProfileKind::GoogleTv,
    {
        RemoteProfile { kind: ProfileKind::GoogleTv }
    }

    pub fn profile_kind(&self) -> (k: ProfileKind)
        ensures
            k == self.kind(),
    {
        self.kind
    }

    /// Stable profile id (`xiaomi`, `google_tv`).
    pub fn id(&self) -> (s: &'static str)
        ensures
            s@ == kind_id(self.kind()),
    {
        match self.kind {
            ProfileKind::Xiaomi => {
                proof {
                    reveal_strlit("xiaomi");
                }
                "xiaomi"
            },
            ProfileKind::GoogleTv => {
                proof {
                    reveal_strlit("google_tv");
                }
                "google_tv"
            },
        }
    }

    /// Display name of the model.
    pub fn name(&self) -> (s: &'static str)
        ensures
            s@ == match self.kind() {
                ProfileKind::Xiaomi => "小米蓝牙遥控器 2 / 2 Pro"@,
                ProfileKind::GoogleTv => "Google TV / Chromecast 语音遥控器"@,
            },
    {
        match self.kind {
            ProfileKind::Xiaomi => "小米蓝牙遥控器 2 / 2 Pro",
            ProfileKind::GoogleTv => "Google TV / Chromecast 语音遥控器",
        }
    }

    pub fn vendor_id(&self) -> (v: u16)
        ensures
            v == kind_vendor_id(self.kind()),
    {
        match self.kind {
            ProfileKind::Xiaomi => 0x2717,
            ProfileKind::GoogleTv => 0x18D1,
        }
    }

    pub fn product_id(&self) -> (v: u16)
        ensures
            v == kind_product_id(self.kind()),
    {
        match self.kind {
            ProfileKind::Xiaomi => 0x32B8,
            ProfileKind::GoogleTv => 0x9450,
        }
    }

    /// Whether the usage table was confirmed on real hardware.
    pub fn verified(&self) -> (b: bool)
        ensures
            b == kind_verified(self.kind()),
    {
        match self.kind {
            ProfileKind::Xiaomi => true,
            ProfileKind::GoogleTv => false,
        }
    }

    /// The buttons the model physically has, in the stable button order.
    pub fn buttons(&self) -> (v: Vec<RemoteButton>)
        ensures
            forall|b: RemoteButton| #[trigger] v@.contains(b) <==> kind_has_button(self.kind(), b),
            forall|i: int, j: int|
                0 <= i < j < v@.len() ==> button_ordinal(v@[i]) < button_ordinal(v@[j]),
    {
        let mut v: Vec<RemoteButton> = Vec::new();
        let mut i: usize = 0;
        while i < BUTTON_COUNT
            invariant
                i <= BUTTON_COUNT,
                forall|b: RemoteButton|
                    #[trigger] v@.contains(b) <==> (button_ordinal(b) < i && kind_has_button(
                        self.kind(),
                        b,
                    )),
                forall|a: int, c: int|
                    0 <= a < c < v@.len() ==> button_ordinal(v@[a]) < button_ordinal(v@[c]),
                forall|a: int| 0 <= a < v@.len() ==> button_ordinal(v@[a]) < i,
            decreases BUTTON_COUNT - i,
        {
            let b = button_from_ordinal(i);
            proof {
                lemma_button_at_roundtrip(i as int);
            }
            if self.has_button(b) {
                let ghost before = v@;
                v.push(b);
                assert forall|x: RemoteButton|
                    #[trigger] v@.contains(x) <==> (button_ordinal(x) < i + 1 && kind_has_button(
                        self.kind(),
                        x,
                    )) by {
                    lemma_ordinal_roundtrip(x);
                    assert(v@ == before.push(b));
                    if button_ordinal(x) == i {
                        assert(x == b);
                        assert(v@[v@.len() - 1] == x);
                    }
                    if before.contains(x) {
                        let j = choose|j: int| 0 <= j < before.len() && before[j] == x;
                        assert(v@[j] == x);
                    }
                    if v@.contains(x) && x != b {
                        let j = choose|j: int| 0 <= j < v@.len() && v@[j] == x;
                        assert(j < before.len());
                        assert(before[j] == x);
                        assert(before.contains(x));
                    }
                }
            } else {
                assert forall|x: RemoteButton|
                    #[trigger] v@.contains(x) <==> (button_ordinal(x) < i + 1 && kind_has_button(
                        self.kind(),
                        x,
                    )) by {
                    lemma_ordinal_roundtrip(x);
                    if button_ordinal(x) == i {
                        assert(x == b);
                        assert(!kind_has_button(self.kind(), x));
                        assert(!v@.contains(x));
                    }
                }
            }
            i = i + 1;
        }
        v
    }

    pub fn has_button(&self, button: RemoteButton) -> (b: bool)
        ensures
            b == kind_has_button(self.kind(), button),
    {
        match self.kind {
            ProfileKind::Xiaomi => button.ordinal() < 13,
            ProfileKind::GoogleTv => button != RemoteButton::Menu,
        }
    }

    /// Decodes a HID usage with this model's table.
    pub fn button_for_usage(&self, usage: u16) -> (b: Option<RemoteButton>)
        ensures
            b == kind_button_for_usage(self.kind(), usage),
    {
        match self.kind {
            ProfileKind::Xiaomi => button_for_usage(usage),
            ProfileKind::GoogleTv => {
                if usage == 0x019E {
                    Some(RemoteButton::Power)
                } else if usage == 0x0189 {
                    Some(RemoteButton::Tv)
                } else if usage == 0x0042 {
                    Some(RemoteButton::Up)
                } else if usage == 0x0043 {
                    Some(RemoteButton::Down)
                } else if usage == 0x0044 {
                    Some(RemoteButton::Left)
                } else if usage == 0x0045 {
                    Some(RemoteButton::Right)
                } else if usage == 0x0041 {
                    Some(RemoteButton::Confirm)
                } else if usage == 0x0224 {
                    Some(RemoteButton::Back)
                } else if usage == 0x0223 {
                    Some(RemoteButton::Home)
                } else if usage == 0x00E9 {
                    Some(RemoteButton::VolumeUp)
                } else if usage == 0x00EA {
                    Some(RemoteButton::VolumeDown)
                } else if usage == 0x00E2 {
                    Some(RemoteButton::VolumeMute)
                } else if usage == 0x0077 {
                    Some(RemoteButton::Youtube)
                } else if usage == 0x0078 {
                    Some(RemoteButton::Netflix)
                } else {
                    None
                }
            },
        }
    }

    /// The usage this model's table lists for `button`.
    pub fn usage_for_button(&self, button: RemoteButton) -> (u: Option<u16>)
        ensures
            u == kind_usage_of(self.kind(), button),
    {
        match self.kind {
            ProfileKind::Xiaomi => match button {
                RemoteButton::Back => Some(0x00F1),
                RemoteButton::Confirm => Some(0x0028),
                RemoteButton::Tv => Some(0x0035),
                RemoteButton::Home => Some(0x004A),
                RemoteButton::Right => Some(0x004F),
                RemoteButton::Left => Some(0x0050),
                RemoteButton::Down => Some(0x0051),
                RemoteButton::Up => Some(0x0052),
                RemoteButton::Menu => Some(0x0065),
                RemoteButton::Power => Some(0x0066),
                RemoteButton::VolumeMute => Some(0x007F),
                RemoteButton::VolumeUp => Some(0x0080),
                RemoteButton::VolumeDown => Some(0x0081),
                _ => None,
            },
            ProfileKind::GoogleTv => match button {
                RemoteButton::Power => Some(0x019E),
                RemoteButton::Tv => Some(0x0189),
                RemoteButton::Up => Some(0x0042),
                RemoteButton::Down => Some(0x0043),
                RemoteButton::Left => Some(0x0044),
                RemoteButton::Right => Some(0x0045),
                RemoteButton::Confirm => Some(0x0041),
                RemoteButton::Back => Some(0x0224),
                RemoteButton::Home => Some(0x0223),
                RemoteButton::VolumeUp => Some(0x00E9),
                RemoteButton::VolumeDown => Some(0x00EA),
                RemoteButton::VolumeMute => Some(0x00E2),
                RemoteButton::Youtube => Some(0x0077),
                RemoteButton::Netflix => Some(0x0078),
                _ => None,
            },
        }
    }

    /// The usage table: each button of the model that has a usage, with
    /// that usage, in the stable button order.
    pub fn usages(&self) -> (v: Vec<(u16, RemoteButton)>)
        ensures
            forall|i: int|
                0 <= i < v@.len() ==> kind_usage_of(self.kind(), #[trigger] v@[i].1) == Some(
                    v@[i].0,
                ),
            forall|i: int, j: int|
                0 <= i < j < v@.len() ==> button_ordinal(v@[i].1) < button_ordinal(v@[j].1),
            forall|b: RemoteButton|
                #[trigger] kind_usage_of(self.kind(), b) is Some ==> exists|i: int|
                    0 <= i < v@.len() && v@[i].1 == b,
    {
        let mut v: Vec<(u16, RemoteButton)> = Vec::new();
        let mut i: usize = 0;
        while i < BUTTON_COUNT
            invariant
                i <= BUTTON_COUNT,
                forall|k: int|
                    0 <= k < v@.len() ==> kind_usage_of(self.kind(), #[trigger] v@[k].1) == Some(
                        v@[k].0,
                    ),
                forall|a: int, c: int|
                    0 <= a < c < v@.len() ==> button_ordinal(v@[a].1) < button_ordinal(v@[c].1),
                forall|a: int| 0 <= a < v@.len() ==> button_ordinal(#[trigger] v@[a].1) < i,
                forall|b: RemoteButton|
                    button_ordinal(b) < i && #[trigger] kind_usage_of(self.kind(), b) is Some
                        ==> exists|k: int| 0 <= k < v@.len() && v@[k].1 == b,
            decreases BUTTON_COUNT - i,
        {
            let b = button_from_ordinal(i);
            proof {
                lemma_button_at_roundtrip(i as int);
            }
            let ghost before = v@;
            match self.usage_for_button(b) {
                Some(u) => {
                    v.push((u, b));
                    assert forall|x: RemoteButton|
                        button_ordinal(x) < i + 1 && #[trigger] kind_usage_of(self.kind(), x)
                            is Some implies exists|k: int| 0 <= k < v@.len() && v@[k].1 == x by {
                        lemma_ordinal_roundtrip(x);
                        if button_ordinal(x) == i {
                            assert(v@[v@.len() - 1].1 == x);
                        } else {
                            let k = choose|k: int| 0 <= k < before.len() && before[k].1 == x;
                            assert(v@[k].1 == x);
                        }
                    }
                },
                None => {
                    assert forall|x: RemoteButton|
                        button_ordinal(x) < i + 1 && #[trigger] kind_usage_of(self.kind(), x)
                            is Some implies exists|k: int| 0 <= k < v@.len() && v@[k].1 == x by {
                        lemma_ordinal_roundtrip(x);
                        if button_ordinal(x) == i {
                            assert(x == b);
                        }
                    }
                },
            }
            i = i + 1;
        }
        proof {
            assert forall|b: RemoteButton| #[trigger]
                kind_usage_of(self.kind(), b) is Some implies exists|k: int|
                0 <= k < v@.len() && v@[k].1 == b by {
                lemma_ordinal_roundtrip(b);
            }
        }
        v
    }

    /// Whether a Raw Input device path belongs to this model.
    pub fn device_path_matches(&self, path: &str) -> (b: bool)
        ensures
            b == kind_matches_path(self.kind(), path@),
    {
        let raw = chars_of(path);
        let (start, end) = trim_bounds(raw.as_slice());
        let trimmed = vstd::slice::slice_subrange(raw.as_slice(), start, end);
        let normalized = lower_chars(trimmed);
        let vid = self.vendor_id();
        let pid = self.product_id();
        let mut classic_v = vec!['v', 'i', 'd', '_'];
        push_hex4(&mut classic_v, vid);
        let mut classic_p = vec!['p', 'i', 'd', '_'];
        push_hex4(&mut classic_p, pid);
        let mut ble_v0 = vec!['d', 'e', 'v', '_', 'v', 'i', 'd', '&', '0', '0'];
        push_hex4(&mut ble_v0, vid);
        let mut ble_v1 = vec!['d', 'e', 'v', '_', 'v', 'i', 'd', '&', '0', '1'];
        push_hex4(&mut ble_v1, vid);
        let mut ble_p = vec!['p', 'i', 'd', '&'];
        push_hex4(&mut ble_p, pid);
        assert(classic_v@ =~= classic_vid(vid));
        assert(classic_p@ =~= classic_pid(pid));
        assert(ble_v0@ =~= ble_vid(vid, '0'));
        assert(ble_v1@ =~= ble_vid(vid, '1'));
        assert(ble_p@ =~= ble_pid(pid));
        let n = normalized.as_slice();
        let classic = contains_chars(n, classic_v.as_slice()) && contains_chars(
            n,
            classic_p.as_slice(),
        );
        let ble = (contains_chars(n, ble_v0.as_slice()) || contains_chars(n, ble_v1.as_slice()))
            && contains_chars(n, ble_p.as_slice());
        classic || ble
    }
}

/// The profile used when no model was recognised: Xiaomi.
pub fn default_profile() -> (p: RemoteProfile)
    ensures
        p.kind() == ProfileKind::Xiaomi,
{
    RemoteProfile::xiaomi()
}

/// All profiles, in lookup order.
pub fn profiles() -> (v: Vec<RemoteProfile>)
    ensures
        v@.len() == 2,
        v@[0].kind() == ProfileKind::Xiaomi,
        v@[1].kind() == ProfileKind::GoogleTv,
{
    vec![RemoteProfile::xiaomi(), RemoteProfile::google_tv()]
}

/// The profile with the given id.
pub fn profile_by_id(id: &str) -> (p: Option<RemoteProfile>)
    ensures
        match p {
            Some(p) => spec_profile_by_id(id@) == Some(p.kind()),
            None => spec_profile_by_id(id@) is None,
        },
{
    let chars = chars_of(id);
    let xiaomi = vec!['x', 'i', 'a', 'o', 'm', 'i'];
    let google = vec!['g', 'o', 'o', 'g', 'l', 'e', '_', 't', 'v'];
    assert(xiaomi@ =~= kind_id(ProfileKind::Xiaomi));
    assert(google@ =~= kind_id(ProfileKind::GoogleTv));
    if same_chars(chars.as_slice(), xiaomi.as_slice()) {
        Some(RemoteProfile::xiaomi())
    } else if same_chars(chars.as_slice(), google.as_slice()) {
        Some(RemoteProfile::google_tv())
    } else {
        None
    }
}

/// The model a Raw Input device path belongs to.
pub fn profile_for_device_path(path: &str) -> (p: Option<RemoteProfile>)
    ensures
        match p {
            Some(p) => spec_profile_for_path(path@) == Some(p.kind()),
            None => spec_profile_for_path(path@) is None,
        },
{
    let xiaomi = RemoteProfile::xiaomi();
    if xiaomi.device_path_matches(path) {
        return Some(xiaomi);
    }
    let google = RemoteProfile::google_tv();
    if google.device_path_matches(path) {
        return Some(google);
    }
    None
}

} // verus!
