//! Values written into the diagnostic log. Text that comes from the user
//! interface is let through only when it is a short run of safe ASCII
//! characters, so that it cannot break or forge a log line; the button
//! mapping is logged as counts, never as its contents.
use vstd::prelude::*;
use crate::raw_input::{all_buttons, button_at, RemoteButton, BUTTON_COUNT};
use crate::send_input::{ButtonAction, ButtonActions, ButtonMappings};
use crate::text::{chars_of, decimal, push_decimal};

verus! {

pub open spec fn is_ascii_alnum(c: char) -> bool {
    ('0' <= c <= '9') || ('a' <= c <= 'z') || ('A' <= c <= 'Z')
}

pub open spec fn is_token_char(c: char) -> bool {
    is_ascii_alnum(c) || c == '_' || c == '-' || c == '.'
}

/// A front-end token that may go into the log as it is: 1 to 64 characters
/// from ASCII letters, digits, `_`, `-` and `.` (ASCII only, so characters
/// and bytes agree).
pub open spec fn valid_diagnostic_token(s: Seq<char>) -> bool {
    0 < s.len() <= 64 && forall|i: int| 0 <= i < s.len() ==> is_token_char(#[trigger] s[i])
}

fn all_chars(s: &[char], dots: bool) -> (b: bool)
    ensures
        b == forall|i: int|
            0 <= i < s@.len() ==> (is_ascii_alnum(#[trigger] s@[i]) || s@[i] == '_' || s@[i]
                == '-' || (dots && s@[i] == '.')),
{
    let mut i: usize = 0;
    while i < s.len()
        invariant
            i <= s@.len(),
            forall|k: int|
                0 <= k < i ==> (is_ascii_alnum(#[trigger] s@[k]) || s@[k] == '_' || s@[k] == '-'
                    || (dots && s@[k] == '.')),
        decreases s.len() - i,
    {
        let c = s[i];
        let ok = ('0' <= c && c <= '9') || ('a' <= c && c <= 'z') || ('A' <= c && c <= 'Z') || c
            == '_' || c == '-' || (dots && c == '.');
        if !ok {
            return false;
        }
        i = i + 1;
    }
    true
}

/// The token itself when it is valid, `"invalid"` otherwise.
pub fn diagnostic_token(value: &str) -> (r: &str)
    ensures
        r@ == if valid_diagnostic_token(value@) {
            value@
        } else {
            "invalid"@
        },
{
    let chars = chars_of(value);
    if chars.len() > 0 && chars.len() <= 64 && all_chars(chars.as_slice(), true) {
        value
    } else {
        "invalid"
    }
}

/// An operation id of the theme front end that may be logged: 1 to 48
/// characters from ASCII letters, digits, `-` and `_`.
pub open spec fn valid_operation_id(s: Seq<char>) -> bool {
    0 < s.len() <= 48 && forall|i: int|
        0 <= i < s.len() ==> (is_ascii_alnum(#[trigger] s[i]) || s[i] == '-' || s[i] == '_')
}

/// The operation id itself when it is valid, `"invalid"` otherwise.
pub fn sanitized_theme_operation_id(operation_id: &str) -> (r: &str)
    ensures
        r@ == if valid_operation_id(operation_id@) {
            operation_id@
        } else {
            "invalid"@
        },
{
    let chars = chars_of(operation_id);
    if chars.len() > 0 && chars.len() <= 48 && all_chars(chars.as_slice(), false) {
        operation_id
    } else {
        "invalid"
    }
}

pub open spec fn is_item_id_char(c: char) -> bool {
    is_ascii_alnum(c) || c == '_'
}

/// The characters of `s` that may stand in a readiness item id, in order.
pub open spec fn item_id_chars(s: Seq<char>) -> Seq<char>
    decreases s.len(),
{
    if s.len() == 0 {
        Seq::empty()
    } else if is_item_id_char(s.last()) {
        item_id_chars(s.drop_last()).push(s.last())
    } else {
        item_id_chars(s.drop_last())
    }
}

pub open spec fn at_most(s: Seq<char>, n: int) -> Seq<char> {
    if s.len() <= n {
        s
    } else {
        s.subrange(0, n)
    }
}

proof fn lemma_item_id_chars_safe(s: Seq<char>)
    ensures
        forall|i: int|
            0 <= i < item_id_chars(s).len() ==> is_item_id_char(#[trigger] item_id_chars(s)[i]),
    decreases s.len(),
{
    if s.len() > 0 {
        let init = s.drop_last();
        lemma_item_id_chars_safe(init);
        let k = item_id_chars(s);
        assert forall|i: int| 0 <= i < k.len() implies is_item_id_char(#[trigger] k[i]) by {
            if is_item_id_char(s.last()) {
                assert(k == item_id_chars(init).push(s.last()));
                if i < item_id_chars(init).len() {
                    assert(k[i] == item_id_chars(init)[i]);
                }
            } else {
                assert(k == item_id_chars(init));
            }
        }
    }
}

/// A stored readiness id has at most 32 characters, each an ASCII letter,
/// digit or `_`, whatever the front end sent.
pub proof fn lemma_readiness_id_is_safe(s: Seq<char>)
    ensures
        at_most(item_id_chars(s), 32).len() <= 32,
        forall|i: int|
            0 <= i < at_most(item_id_chars(s), 32).len() ==> is_item_id_char(
                #[trigger] at_most(item_id_chars(s), 32)[i],
            ),
{
    lemma_item_id_chars_safe(s);
    let k = item_id_chars(s);
    assert forall|i: int| 0 <= i < at_most(k, 32).len() implies is_item_id_char(
        #[trigger] at_most(k, 32)[i],
    ) by {
        assert(at_most(k, 32)[i] == k[i]);
    }
}

/// What a log line receives for a front-end token is at most 64 characters
/// from ASCII letters, digits, `_`, `-` and `.`, whatever the front end sent:
/// a line break or a separator cannot get through.
pub proof fn lemma_logged_token_is_safe(value: Seq<char>)
    ensures
        ({
            let logged = if valid_diagnostic_token(value) {
                value
            } else {
                "invalid"@
            };
            logged.len() <= 64 && forall|i: int|
                0 <= i < logged.len() ==> is_token_char(#[trigger] logged[i])
        }),
{
    reveal_strlit("invalid");
}

/// A readiness item id as stored and logged: its ASCII letters, digits and
/// `_`, at most the first 32 of them.
pub fn sanitized_readiness_item_id(item_id: &str) -> (r: String)
    ensures
        r@ == at_most(item_id_chars(item_id@), 32),
{
    let chars = chars_of(item_id);
    let mut out = String::new();
    let mut kept: usize = 0;
    let mut i: usize = 0;
    while i < chars.len()
        invariant
            i <= chars@.len(),
            chars@ == item_id@,
            out@ == at_most(item_id_chars(chars@.subrange(0, i as int)), 32),
            kept == out@.len() <= 32,
        decreases chars.len() - i,
    {
        let c = chars[i];
        let ghost before = chars@.subrange(0, i as int);
        assert(chars@.subrange(0, i + 1).drop_last() =~= before);
        assert(chars@.subrange(0, i + 1).last() == c);
        let ok = ('0' <= c && c <= '9') || ('a' <= c && c <= 'z') || ('A' <= c && c <= 'Z') || c
            == '_';
        if ok {
            if kept < 32 {
                out.push(c);
                kept = kept + 1;
            } else {
                assert(item_id_chars(before).push(c).subrange(0, 32) =~= item_id_chars(
                    before,
                ).subrange(0, 32));
            }
        }
        i = i + 1;
    }
    assert(chars@.subrange(0, chars@.len() as int) =~= chars@);
    out
}

// ---- Button mapping summary ----

/// The action cells of one button, single then double then long.
pub open spec fn button_cells(m: ButtonMappings, b: RemoteButton) -> Seq<ButtonAction> {
    match m.spec_actions(b) {
        Some(a) => a.single@ + a.double@ + a.long@,
        None => Seq::empty(),
    }
}

/// The cells of the buttons with ordinal below `n`, in button order.
pub open spec fn cells_upto(m: ButtonMappings, n: nat) -> Seq<ButtonAction>
    decreases n,
{
    if n == 0 {
        Seq::empty()
    } else {
        cells_upto(m, (n - 1) as nat) + button_cells(m, button_at(n - 1))
    }
}

/// How many buttons with ordinal below `n` have an entry.
pub open spec fn mapped_upto(m: ButtonMappings, n: nat) -> nat
    decreases n,
{
    if n == 0 {
        0
    } else {
        mapped_upto(m, (n - 1) as nat) + if m.spec_actions(button_at(n - 1)) is Some {
            1nat
        } else {
            0nat
        }
    }
}

/// The action kinds the summary counts.
#[derive(Debug, Clone, Copy, PartialEq, Eq, Structural)]
pub enum CellKind {
    Shortcut,
    OpenApp,
    Native,
    Disabled,
}

pub open spec fn is_kind(a: ButtonAction, k: CellKind) -> bool {
    match k {
        CellKind::Shortcut => a is Shortcut,
        CellKind::OpenApp => a is OpenApp,
        CellKind::Native => a is Native,
        CellKind::Disabled => a is Disabled,
    }
}

/// How many cells of `s` hold an action of kind `k`.
pub open spec fn count_matching(s: Seq<ButtonAction>, k: CellKind) -> nat
    decreases s.len(),
{
    if s.len() == 0 {
        0
    } else {
        count_matching(s.drop_last(), k) + if is_kind(s.last(), k) {
            1nat
        } else {
            0nat
        }
    }
}

pub open spec fn bool_text(b: bool) -> Seq<char> {
    if b {
        "true"@
    } else {
        "false"@
    }
}

/// The one-line summary of a mapping: the master switch, how many buttons
/// have an entry, and how many cells hold a shortcut, an application, the
/// native key and an explicit "disabled".
pub open spec fn mapping_summary(m: ButtonMappings) -> Seq<char> {
    let cells = cells_upto(m, 15);
    "enabled="@ + bool_text(m.enabled) + " button_count="@ + decimal(mapped_upto(m, 15))
        + " shortcut_count="@ + decimal(count_matching(cells, CellKind::Shortcut))
        + " open_app_count="@ + decimal(count_matching(cells, CellKind::OpenApp))
        + " native_count="@ + decimal(count_matching(cells, CellKind::Native))
        + " disabled_cell_count="@ + decimal(
        count_matching(cells, CellKind::Disabled),
    )
}

/// Running counts of the four action kinds.
struct Tally {
    shortcut: u128,
    open_app: u128,
    native: u128,
    disabled: u128,
}

spec fn tally_matches(t: Tally, cells: Seq<ButtonAction>) -> bool {
    &&& t.shortcut == count_matching(cells, CellKind::Shortcut)
    &&& t.open_app == count_matching(cells, CellKind::OpenApp)
    &&& t.native == count_matching(cells, CellKind::Native)
    &&& t.disabled == count_matching(cells, CellKind::Disabled)
}

proof fn lemma_counts_bounded(cells: Seq<ButtonAction>, p: CellKind)
    ensures
        count_matching(cells, p) <= cells.len(),
    decreases cells.len(),
{
    if cells.len() > 0 {
        lemma_counts_bounded(cells.drop_last(), p);
    }
}

fn tally_cell(t: &mut Tally, cell: &Vec<ButtonAction>, Ghost(seen): Ghost<Seq<ButtonAction>>)
    requires
        tally_matches(*old(t), seen),
        seen.len() + cell@.len() < 0x1_0000_0000_0000_0000_0000_0000_0000_0000,
    ensures
        tally_matches(*final(t), seen + cell@),
{
    let mut i: usize = 0;
    while i < cell.len()
        invariant
            i <= cell@.len(),
            seen.len() + cell@.len() < 0x1_0000_0000_0000_0000_0000_0000_0000_0000,
            tally_matches(*t, seen + cell@.subrange(0, i as int)),
        decreases cell.len() - i,
    {
        let ghost done = seen + cell@.subrange(0, i as int);
        let ghost next = seen + cell@.subrange(0, i + 1);
        assert(next.drop_last() =~= done);
        assert(next.last() == cell@[i as int]);
        proof {
            lemma_counts_bounded(done, CellKind::Shortcut);
            lemma_counts_bounded(done, CellKind::OpenApp);
            lemma_counts_bounded(done, CellKind::Native);
            lemma_counts_bounded(done, CellKind::Disabled);
        }
        match &cell[i] {
            ButtonAction::Shortcut { .. } => {
                t.shortcut = t.shortcut + 1;
            },
            ButtonAction::OpenApp { .. } => {
                t.open_app = t.open_app + 1;
            },
            ButtonAction::Native => {
                t.native = t.native + 1;
            },
            ButtonAction::Disabled => {
                t.disabled = t.disabled + 1;
            },
            _ => {},
        }
        i = i + 1;
    }
    assert(cell@.subrange(0, cell@.len() as int) =~= cell@);
}

fn push_bool(s: &mut String, b: bool)
    ensures
        final(s)@ == old(s)@ + bool_text(b),
{
    if b {
        s.append("true");
    } else {
        s.append("false");
    }
}

/// The summary line of a button mapping for the diagnostic log.
pub fn button_mapping_log_summary(mappings: &ButtonMappings) -> (s: String)
    ensures
        s@ == mapping_summary(*mappings),
{
    let buttons = all_buttons();
    let mut t = Tally { shortcut: 0, open_app: 0, native: 0, disabled: 0 };
    let mut button_count: u64 = 0;
    let mut i: usize = 0;
    while i < BUTTON_COUNT
        invariant
            i <= BUTTON_COUNT,
            buttons@.len() == BUTTON_COUNT,
            forall|k: int| 0 <= k < BUTTON_COUNT ==> buttons@[k] == button_at(k),
            tally_matches(t, cells_upto(*mappings, i as nat)),
            cells_upto(*mappings, i as nat).len() <= i * 0x3_0000_0000_0000_0000,
            button_count == mapped_upto(*mappings, i as nat),
            button_count <= i,
        decreases BUTTON_COUNT - i,
    {
        let b = buttons[i];
        let ghost before = cells_upto(*mappings, i as nat);
        match mappings.actions(b) {
            Some(a) => {
                let n1 = a.single.len();
                let n2 = a.double.len();
                let n3 = a.long.len();
                tally_cell(&mut t, &a.single, Ghost(before));
                tally_cell(&mut t, &a.double, Ghost(before + a.single@));
                tally_cell(&mut t, &a.long, Ghost(before + a.single@ + a.double@));
                assert(before + a.single@ + a.double@ + a.long@ =~= before + (a.single@ + a.double@
                    + a.long@));
                button_count = button_count + 1;
            },
            None => {
                assert(before + Seq::<ButtonAction>::empty() =~= before);
            },
        }
        i = i + 1;
    }
    let mut s = String::from_str("enabled=");
    push_bool(&mut s, mappings.enabled);
    s.append(" button_count=");
    push_decimal(&mut s, button_count as u128);
    s.append(" shortcut_count=");
    push_decimal(&mut s, t.shortcut);
    s.append(" open_app_count=");
    push_decimal(&mut s, t.open_app);
    s.append(" native_count=");
    push_decimal(&mut s, t.native);
    s.append(" disabled_cell_count=");
    push_decimal(&mut s, t.disabled);
    s
}

} // verus!
