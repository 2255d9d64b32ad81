//! Per-application mapping presets: a foreground process bound to a preset
//! gets that preset while it is in front; leaving it returns to the user's own
//! saved mapping. Switching only changes the running mapping, never the saved
//! one: the saved mapping stays the baseline and a preset is a temporary
//! overlay over it.
use vstd::prelude::*;
use crate::presets::{build, is_preset_mapping, preset_kind, spec_preset_kind};
use crate::send_input::ButtonMappings;
use crate::text::{chars_of, lower_chars, lower_seq, string_of, trim, trim_bounds};

verus! {

pub open spec fn is_path_sep(c: char) -> bool {
    c == '\\' || c == '/'
}

/// The part after the last `\` or `/` (the whole string when there is none).
pub open spec fn after_last_sep(s: Seq<char>) -> Seq<char>
    decreases s.len(),
{
    if s.len() == 0 {
        s
    } else if is_path_sep(s.last()) {
        Seq::empty()
    } else {
        after_last_sep(s.drop_last()).push(s.last())
    }
}

pub open spec fn exe_suffix() -> Seq<char> {
    seq!['.', 'e', 'x', 'e']
}

pub open spec fn strip_exe(s: Seq<char>) -> Seq<char> {
    if s.len() >= 4 && s.subrange(s.len() - 4, s.len() as int) == exe_suffix() {
        s.subrange(0, s.len() - 4)
    } else {
        s
    }
}

/// Process identity: file name without directories, trimmed, ASCII
/// lower-cased, without a trailing `.exe`.
pub open spec fn spec_normalize_process(name: Seq<char>) -> Seq<char> {
    strip_exe(lower_seq(trim(after_last_sep(name))))
}

fn last_segment_start(s: &[char]) -> (k: usize)
    ensures
        k <= s@.len(),
        s@.subrange(k as int, s@.len() as int) == after_last_sep(s@),
{
    let n = s.len();
    let mut j: usize = n;
    assert(s@.subrange(0, n as int) =~= s@);
    assert(s@.subrange(n as int, n as int) =~= Seq::<char>::empty());
    while j > 0 && !(s[j - 1] == '\\' || s[j - 1] == '/')
        invariant
            j <= n == s@.len(),
            after_last_sep(s@) == after_last_sep(s@.subrange(0, j as int)) + s@.subrange(
                j as int,
                n as int,
            ),
        decreases j,
    {
        let ghost pre = s@.subrange(0, j as int);
        assert(pre.drop_last() =~= s@.subrange(0, j - 1));
        assert(after_last_sep(pre) == after_last_sep(s@.subrange(0, j - 1)).push(s@[j - 1]));
        assert(after_last_sep(s@.subrange(0, j - 1)).push(s@[j - 1]) + s@.subrange(j as int, n as int)
            =~= after_last_sep(s@.subrange(0, j - 1)) + s@.subrange(j - 1, n as int));
        j = j - 1;
    }
    if j > 0 {
        let ghost pre = s@.subrange(0, j as int);
        assert(after_last_sep(pre) == Seq::<char>::empty());
    } else {
        assert(s@.subrange(0, 0) =~= Seq::<char>::empty());
    }
    assert(after_last_sep(s@) =~= s@.subrange(j as int, n as int));
    j
}

/// Normalised process identity: drops directories and `.exe`, trims, and
/// lower-cases ASCII letters.
pub fn normalize_process(name: &str) -> (s: String)
    ensures
        s@ == spec_normalize_process(name@),
{
    let raw = chars_of(name);
    let k = last_segment_start(raw.as_slice());
    let base = vstd::slice::slice_subrange(raw.as_slice(), k, raw.len());
    let (start, end) = trim_bounds(base);
    let trimmed = vstd::slice::slice_subrange(base, start, end);
    let lowered = lower_chars(trimmed);
    let n = lowered.len();
    let mut keep = n;
    if n >= 4 && lowered[n - 4] == '.' && lowered[n - 3] == 'e' && lowered[n - 2] == 'x' && lowered[n
        - 1] == 'e' {
        keep = n - 4;
        assert(lowered@.subrange(n - 4, n as int) =~= exe_suffix());
    } else if n >= 4 {
        assert(lowered@.subrange(n - 4, n as int) != exe_suffix()) by {
            if lowered@.subrange(n - 4, n as int) == exe_suffix() {
                assert(lowered@.subrange(n - 4, n as int)[0] == lowered@[n - 4]);
                assert(lowered@.subrange(n - 4, n as int)[1] == lowered@[n - 3]);
                assert(lowered@.subrange(n - 4, n as int)[2] == lowered@[n - 2]);
                assert(lowered@.subrange(n - 4, n as int)[3] == lowered@[n - 1]);
            }
        }
    }
    let kept = vstd::slice::slice_subrange(lowered.as_slice(), 0, keep);
    assert(kept@ =~= strip_exe(lowered@));
    string_of(kept)
}

/// Position of the last entry keyed `k`, or -1.
pub open spec fn key_index(s: Seq<(String, String)>, k: Seq<char>) -> int
    decreases s.len(),
{
    if s.len() == 0 {
        -1
    } else if s.last().0@ == k {
        s.len() - 1
    } else {
        key_index(s.drop_last(), k)
    }
}

/// The preset bound to the process `k` (the last entry for it wins).
pub open spec fn binding_lookup(s: Seq<(String, String)>, k: Seq<char>) -> Option<Seq<char>> {
    let i = key_index(s, k);
    if i >= 0 {
        Some(s[i].1@)
    } else {
        None
    }
}

/// What `normalized` keeps of an entry list: each entry under its normalised
/// process, with the preset trimmed; entries with an empty process, an empty
/// preset or an unknown preset are dropped; the last entry for a process wins.
pub open spec fn normalized_lookup(s: Seq<(String, String)>, k: Seq<char>) -> Option<Seq<char>>
    decreases s.len(),
{
    if s.len() == 0 {
        None
    } else {
        let p = spec_normalize_process(s.last().0@);
        let v = trim(s.last().1@);
        if p.len() > 0 && v.len() > 0 && spec_preset_kind(v) is Some && p == k {
            Some(v)
        } else {
            normalized_lookup(s.drop_last(), k)
        }
    }
}

pub open spec fn keys_unique(s: Seq<(String, String)>) -> bool {
    forall|i: int, j: int| 0 <= i < j < s.len() ==> s[i].0@ != s[j].0@
}

proof fn lemma_key_index_range(s: Seq<(String, String)>, k: Seq<char>)
    ensures
        -1 <= key_index(s, k) < s.len(),
        key_index(s, k) >= 0 ==> s[key_index(s, k)].0@ == k,
        key_index(s, k) == -1 ==> forall|i: int| 0 <= i < s.len() ==> s[i].0@ != k,
    decreases s.len(),
{
    if s.len() > 0 {
        lemma_key_index_range(s.drop_last(), k);
        assert forall|i: int| 0 <= i < s.len() - 1 implies s.drop_last()[i] == s[i] by {}
    }
}

proof fn lemma_key_index_update(s: Seq<(String, String)>, i: int, e: (String, String))
    requires
        0 <= i < s.len(),
        s[i].0@ == e.0@,
    ensures
        forall|k: Seq<char>| key_index(s.update(i, e), k) == key_index(s, k),
    decreases s.len(),
{
    let u = s.update(i, e);
    if i < s.len() - 1 {
        lemma_key_index_update(s.drop_last(), i, e);
        assert(u.drop_last() =~= s.drop_last().update(i, e));
        assert forall|k: Seq<char>| key_index(u, k) == key_index(s, k) by {
            assert(u.last() == s.last());
            assert(key_index(u.drop_last(), k) == key_index(s.drop_last(), k));
        }
    } else {
        assert(u.drop_last() =~= s.drop_last());
        assert forall|k: Seq<char>| key_index(u, k) == key_index(s, k) by {
            assert(u.last() == e);
        }
    }
}

fn find_binding(s: &Vec<(String, String)>, key: &String) -> (r: Option<usize>)
    ensures
        match r {
            Some(i) => i as int == key_index(s@, key@) && i < s@.len(),
            None => key_index(s@, key@) == -1,
        },
{
    proof {
        lemma_key_index_range(s@, key@);
    }
    let mut i = s.len();
    assert(s@.subrange(0, i as int) =~= s@);
    while i > 0
        invariant
            i <= s@.len(),
            key_index(s@, key@) == key_index(s@.subrange(0, i as int), key@),
        decreases i,
    {
        assert(s@.subrange(0, i as int).drop_last() =~= s@.subrange(0, i - 1));
        if s[i - 1].0 == *key {
            return Some(i - 1);
        }
        i = i - 1;
    }
    None
}

/// Lexicographic order of texts by code point, the order of their UTF-8
/// bytes.
pub open spec fn chars_lt(a: Seq<char>, b: Seq<char>) -> bool
    decreases a.len(),
{
    if a.len() == 0 {
        b.len() > 0
    } else if b.len() == 0 {
        false
    } else if a[0] != b[0] {
        (a[0] as int) < (b[0] as int)
    } else {
        chars_lt(a.drop_first(), b.drop_first())
    }
}

/// Each process once, in ascending order of its name.
pub open spec fn keys_sorted(s: Seq<(String, String)>) -> bool {
    forall|i: int, j: int| 0 <= i < j < s.len() ==> chars_lt(s[i].0@, s[j].0@)
}

/// No text is below itself.
pub proof fn lemma_chars_lt_irreflexive(a: Seq<char>)
    ensures
        !chars_lt(a, a),
    decreases a.len(),
{
    if a.len() > 0 {
        lemma_chars_lt_irreflexive(a.drop_first());
    }
}

/// Of two different texts one is below the other.
pub proof fn lemma_chars_lt_total(a: Seq<char>, b: Seq<char>)
    requires
        a != b,
    ensures
        chars_lt(a, b) || chars_lt(b, a),
    decreases a.len(),
{
    if a.len() > 0 && b.len() > 0 && a[0] == b[0] {
        if a.drop_first() == b.drop_first() {
            assert(a =~= seq![a[0]] + a.drop_first());
            assert(b =~= seq![b[0]] + b.drop_first());
        }
        lemma_chars_lt_total(a.drop_first(), b.drop_first());
    } else if a.len() == 0 && b.len() == 0 {
        assert(a =~= b);
    }
}

/// The order is transitive.
pub proof fn lemma_chars_lt_transitive(a: Seq<char>, b: Seq<char>, c: Seq<char>)
    requires
        chars_lt(a, b),
        chars_lt(b, c),
    ensures
        chars_lt(a, c),
    decreases a.len(),
{
    if a.len() > 0 && a[0] == b[0] && b[0] == c[0] {
        lemma_chars_lt_transitive(a.drop_first(), b.drop_first(), c.drop_first());
    }
}

/// Whether `a` comes before `b` in the order of `chars_lt`.
fn chars_less(a: &[char], b: &[char]) -> (r: bool)
    ensures
        r == chars_lt(a@, b@),
{
    let mut i: usize = 0;
    assert(a@.skip(0) =~= a@);
    assert(b@.skip(0) =~= b@);
    loop
        invariant
            i <= a@.len(),
            i <= b@.len(),
            chars_lt(a@, b@) == chars_lt(a@.skip(i as int), b@.skip(i as int)),
        decreases a@.len() - i,
    {
        if i == a.len() {
            return i < b.len();
        }
        if i == b.len() {
            return false;
        }
        if a[i] != b[i] {
            return a[i] < b[i];
        }
        assert(a@.skip(i as int).drop_first() =~= a@.skip(i + 1));
        assert(b@.skip(i as int).drop_first() =~= b@.skip(i + 1));
        i = i + 1;
    }
}

/// In a list with each process once, the lookup finds the one entry that
/// names the process.
proof fn lemma_unique_lookup(s: Seq<(String, String)>, i: int)
    requires
        keys_unique(s),
        0 <= i < s.len(),
    ensures
        binding_lookup(s, s[i].0@) == Some(s[i].1@),
{
    lemma_key_index_range(s, s[i].0@);
}

/// Sorted keys are unique keys.
proof fn lemma_sorted_unique(s: Seq<(String, String)>)
    requires
        keys_sorted(s),
    ensures
        keys_unique(s),
{
    assert forall|i: int, j: int| 0 <= i < j < s.len() implies s[i].0@ != s[j].0@ by {
        lemma_chars_lt_irreflexive(s[i].0@);
    }
}

/// The first position whose process does not come before `key`.
fn sorted_position(s: &Vec<(String, String)>, key: &String) -> (pos: usize)
    ensures
        pos <= s@.len(),
        forall|j: int| 0 <= j < pos ==> chars_lt(#[trigger] s@[j].0@, key@),
        pos < s@.len() ==> !chars_lt(s@[pos as int].0@, key@),
{
    let k = chars_of(key.as_str());
    let mut i: usize = 0;
    while i < s.len()
        invariant
            i <= s@.len(),
            k@ == key@,
            forall|j: int| 0 <= j < i ==> chars_lt(#[trigger] s@[j].0@, key@),
        decreases s.len() - i,
    {
        let name = chars_of(s[i].0.as_str());
        if !chars_less(name.as_slice(), k.as_slice()) {
            return i;
        }
        i = i + 1;
    }
    i
}

/// Binds `key` to `value` in a sorted list, keeping it sorted.
fn insert_binding(s: &mut Vec<(String, String)>, key: String, value: String)
    requires
        keys_sorted(old(s)@),
    ensures
        keys_sorted(final(s)@),
        keys_unique(final(s)@),
        forall|k: Seq<char>|
            #[trigger] binding_lookup(final(s)@, k) == if k == key@ {
                Some(value@)
            } else {
                binding_lookup(old(s)@, k)
            },
{
    let ghost before = s@;
    let ghost kv = key@;
    let ghost vv = value@;
    proof {
        lemma_sorted_unique(before);
    }
    match find_binding(s, &key) {
        Some(i) => {
            proof {
                lemma_key_index_range(before, kv);
            }
            s.set(i, (key, value));
            proof {
                lemma_key_index_update(before, i as int, s@[i as int]);
                assert forall|k: Seq<char>|
                    #[trigger] binding_lookup(s@, k) == if k == kv {
                        Some(vv)
                    } else {
                        binding_lookup(before, k)
                    } by {
                    lemma_key_index_range(before, k);
                }
                assert forall|a: int, b: int| 0 <= a < b < s@.len() implies chars_lt(
                    s@[a].0@,
                    s@[b].0@,
                ) by {
                    assert(chars_lt(before[a].0@, before[b].0@));
                }
                lemma_sorted_unique(s@);
            }
        },
        None => {
            proof {
                lemma_key_index_range(before, kv);
            }
            let pos = sorted_position(s, &key);
            s.insert(pos, (key, value));
            proof {
                let u = s@;
                assert(u =~= before.insert(pos as int, (u[pos as int])));
                assert(u[pos as int].0@ == kv && u[pos as int].1@ == vv);
                if pos < before.len() {
                    assert(before[pos as int].0@ != kv);
                    lemma_chars_lt_total(before[pos as int].0@, kv);
                }
                assert forall|a: int, b: int| 0 <= a < b < u.len() implies chars_lt(
                    u[a].0@,
                    u[b].0@,
                ) by {
                    if b < pos {
                        assert(chars_lt(before[a].0@, before[b].0@));
                    } else if b == pos {
                        assert(chars_lt(before[a].0@, kv));
                    } else if a > pos {
                        assert(chars_lt(before[a - 1].0@, before[b - 1].0@));
                    } else if a == pos {
                        if b - 1 > pos {
                            assert(chars_lt(before[pos as int].0@, before[b - 1].0@));
                            lemma_chars_lt_transitive(kv, before[pos as int].0@, before[b - 1].0@);
                        }
                    } else {
                        assert(chars_lt(before[a].0@, kv));
                        if b - 1 > pos {
                            assert(chars_lt(before[pos as int].0@, before[b - 1].0@));
                            lemma_chars_lt_transitive(kv, before[pos as int].0@, before[b - 1].0@);
                        }
                        lemma_chars_lt_transitive(before[a].0@, kv, before[b - 1].0@);
                    }
                }
                lemma_sorted_unique(u);
                assert forall|k: Seq<char>|
                    #[trigger] binding_lookup(u, k) == if k == kv {
                        Some(vv)
                    } else {
                        binding_lookup(before, k)
                    } by {
                    if k == kv {
                        lemma_unique_lookup(u, pos as int);
                    } else {
                        lemma_key_index_range(before, k);
                        lemma_key_index_range(u, k);
                        let bi = key_index(before, k);
                        if bi >= 0 {
                            let ui = if bi < pos {
                                bi
                            } else {
                                bi + 1
                            };
                            assert(u[ui] == before[bi]);
                            lemma_unique_lookup(u, ui);
                        } else {
                            let ui = key_index(u, k);
                            if ui >= 0 {
                                if ui < pos {
                                    assert(u[ui] == before[ui]);
                                } else if ui > pos {
                                    assert(u[ui] == before[ui - 1]);
                                }
                            }
                        }
                    }
                }
            }
        },
    }
}

/// Process name → preset id bindings, with the master switch.
#[derive(Debug, Clone, PartialEq, Eq)]
pub struct AppProfileBindings {
    pub enabled: bool,
    /// Entries per process; a later entry for the same process wins. Once
    /// normalized, each process is named once, in ascending order of name
    /// (`well_formed`).
    pub bindings: Vec<(String, String)>,
}

impl AppProfileBindings {
    /// Each process named once, in ascending order of name, as a map from
    /// process to preset holds them. `normalized` always gives such bindings.
    pub open spec fn well_formed(self) -> bool {
        keys_sorted(self.bindings@)
    }

    /// No binding, switched off.
    pub fn new() -> (b: Self)
        ensures
            !b.enabled,
            b.well_formed(),
            b.bindings@.len() == 0,
    {
        AppProfileBindings { enabled: false, bindings: Vec::new() }
    }

    /// Normalises every process name, trims every preset id and drops empty
    /// entries and entries naming no known preset; for a process named twice
    /// the later entry wins. The result holds each process once, in
    /// ascending order of process name.
    pub fn normalized(self) -> (r: Self)
        ensures
            r.enabled == self.enabled,
            r.well_formed(),
            keys_sorted(r.bindings@),
            keys_unique(r.bindings@),
            forall|k: Seq<char>|
                #[trigger] binding_lookup(r.bindings@, k) == normalized_lookup(self.bindings@, k),
    {
        let mut out: Vec<(String, String)> = Vec::new();
        let mut i: usize = 0;
        while i < self.bindings.len()
            invariant
                i <= self.bindings@.len(),
                keys_sorted(out@),
                forall|k: Seq<char>|
                    #[trigger] binding_lookup(out@, k) == normalized_lookup(
                        self.bindings@.subrange(0, i as int),
                        k,
                    ),
            decreases self.bindings.len() - i,
        {
            let ghost prefix = self.bindings@.subrange(0, i + 1);
            assert(prefix.drop_last() =~= self.bindings@.subrange(0, i as int));
            let process = normalize_process(self.bindings[i].0.as_str());
            let preset_chars = chars_of(self.bindings[i].1.as_str());
            let (start, end) = trim_bounds(preset_chars.as_slice());
            let preset = string_of(vstd::slice::slice_subrange(preset_chars.as_slice(), start, end));
            let known = preset_kind(preset.as_str()).is_some();
            if process.unicode_len() > 0 && preset.unicode_len() > 0 && known {
                insert_binding(&mut out, process, preset);
            }
            i = i + 1;
        }
        assert(self.bindings@.subrange(0, self.bindings@.len() as int) =~= self.bindings@);
        proof {
            lemma_sorted_unique(out@);
        }
        AppProfileBindings { enabled: self.enabled, bindings: out }
    }

    /// The preset for the foreground process; `None` when the master switch is
    /// off or the process has no binding.
    pub fn resolve(&self, foreground_process: &str) -> (r: Option<&str>)
        ensures
            match r {
                Some(p) => self.enabled && binding_lookup(
                    self.bindings@,
                    spec_normalize_process(foreground_process@),
                ) == Some(p@),
                None => !self.enabled || binding_lookup(
                    self.bindings@,
                    spec_normalize_process(foreground_process@),
                ) is None,
            },
    {
        if !self.enabled {
            return None;
        }
        let key = normalize_process(foreground_process);
        proof {
            lemma_key_index_range(self.bindings@, key@);
        }
        match find_binding(&self.bindings, &key) {
            Some(i) => Some(self.bindings[i].1.as_str()),
            None => None,
        }
    }
}

impl Default for AppProfileBindings {
    fn default() -> (b: Self)
        ensures
            !b.enabled,
            b.bindings@.len() == 0,
    {
        AppProfileBindings::new()
    }
}

/// What the overlay asks the mapping engine to do.
#[derive(Debug, Clone, PartialEq, Eq)]
pub enum OverlayChange {
    /// Apply this preset (temporarily; the saved mapping is untouched).
    Apply(String),
    /// Return to the user's saved mapping.
    Restore,
}

/// Overlay decision: when the wanted preset equals the active one nothing is
/// sent; otherwise the wanted one becomes active and is sent (`Some(p)` is
/// "apply p", `None` is "restore the baseline").
pub open spec fn overlay_step(active: Option<Seq<char>>, wanted: Option<Seq<char>>) -> (
    Option<Seq<char>>,
    Option<Option<Seq<char>>>,
) {
    if wanted == active {
        (active, None)
    } else {
        (wanted, Some(wanted))
    }
}

pub open spec fn change_view(c: Option<OverlayChange>) -> Option<Option<Seq<char>>> {
    match c {
        None => None,
        Some(OverlayChange::Apply(p)) => Some(Some(p@)),
        Some(OverlayChange::Restore) => Some(None),
    }
}

pub open spec fn opt_view(o: Option<String>) -> Option<Seq<char>> {
    match o {
        Some(s) => Some(s@),
        None => None,
    }
}

/// The preset the bindings want for a foreground process.
pub open spec fn spec_resolve(b: AppProfileBindings, process: Seq<char>) -> Option<Seq<char>> {
    if b.enabled {
        binding_lookup(b.bindings@, spec_normalize_process(process))
    } else {
        None
    }
}

/// Remembers the active preset and only reports a change when the wanted
/// preset differs, so polling does not rebuild the mapping every time.
#[derive(Debug)]
pub struct ProfileOverlay {
    active: Option<String>,
}

impl ProfileOverlay {
    pub closed spec fn active_view(self) -> Option<Seq<char>> {
        opt_view(self.active)
    }

    /// Nothing active: the baseline is in effect.
    pub fn new() -> (o: Self)
        ensures
            o.active_view() is None,
    {
        ProfileOverlay { active: None }
    }

    pub fn active(&self) -> (a: Option<&str>)
        ensures
            match a {
                Some(s) => self.active_view() == Some(s@),
                None => self.active_view() is None,
            },
    {
        match &self.active {
            Some(s) => Some(s.as_str()),
            None => None,
        }
    }

    /// Decides what to do for the current foreground process.
    pub fn evaluate(&mut self, bindings: &AppProfileBindings, foreground_process: &str) -> (c:
        Option<OverlayChange>)
        ensures
            final(self).active_view() == overlay_step(
                old(self).active_view(),
                spec_resolve(*bindings, foreground_process@),
            ).0,
            change_view(c) == overlay_step(
                old(self).active_view(),
                spec_resolve(*bindings, foreground_process@),
            ).1,
    {
        let wanted: Option<String> = match bindings.resolve(foreground_process) {
            Some(p) => Some(String::from_str(p)),
            None => None,
        };
        let same = match (&wanted, &self.active) {
            (Some(w), Some(a)) => *w == *a,
            (None, None) => true,
            _ => false,
        };
        if same {
            return None;
        }
        match wanted {
            Some(p) => {
                let applied = p.clone();
                self.active = Some(p);
                Some(OverlayChange::Apply(applied))
            },
            None => {
                self.active = None;
                Some(OverlayChange::Restore)
            },
        }
    }

    /// Forces the next evaluation to send its decision again (the baseline or
    /// the bindings changed).
    pub fn invalidate(&mut self)
        ensures
            final(self).active_view() is None,
    {
        self.active = None;
    }
}

impl Default for ProfileOverlay {
    fn default() -> (o: Self)
        ensures
            o.active_view() is None,
    {
        ProfileOverlay::new()
    }
}

/// The mapping an overlay change puts in effect: the preset it names,
/// keeping the master switch of the saved mapping, or the saved mapping
/// itself. `None` when the named preset is unknown, in which case nothing
/// changes.
pub fn overlay_mappings(change: &OverlayChange, baseline: ButtonMappings) -> (m: Option<
    ButtonMappings,
>)
    ensures
        match change {
            OverlayChange::Apply(p) => match (m, spec_preset_kind(p@)) {
                (Some(m), Some(k)) => m.enabled == baseline.enabled && is_preset_mapping(k, m),
                (None, None) => true,
                _ => false,
            },
            OverlayChange::Restore => m == Some(baseline),
        },
{
    match change {
        OverlayChange::Apply(preset) => build(preset.as_str(), baseline.enabled),
        OverlayChange::Restore => Some(baseline),
    }
}

/// Evaluating again with the same wanted preset sends nothing.
pub proof fn lemma_overlay_settles(active: Option<Seq<char>>, wanted: Option<Seq<char>>)
    ensures
        overlay_step(overlay_step(active, wanted).0, wanted).1 is None,
        overlay_step(overlay_step(active, wanted).0, wanted).0 == overlay_step(active, wanted).0,
{
}

/// After `invalidate` a bound process gets its preset sent again.
pub proof fn lemma_invalidate_reapplies(preset: Seq<char>)
    ensures
        overlay_step(None, Some(preset)).1 == Some(Some(preset)),
{
}

/// Turning the bindings off while a preset is active restores the baseline
/// exactly once.
pub proof fn lemma_disabled_restores_once(b: AppProfileBindings, process: Seq<char>, preset: Seq<
    char,
>)
    requires
        !b.enabled,
    ensures
        overlay_step(Some(preset), spec_resolve(b, process)) == (None::<Seq<char>>, Some(
            None::<Seq<char>>,
        )),
        overlay_step(None, spec_resolve(b, process)).1 is None,
{
}

} // verus!
