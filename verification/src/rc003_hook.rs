//! The RC003 Back / Volume hook: the injector child process reports those
//! buttons as lines `"<button> <0|1>"`; this module parses the lines and
//! decides when the injector should run (only while an RC003 is connected and
//! ready), with a cool-down after a failed start.
use vstd::prelude::*;
use crate::platform_state::{ConnectionPhase, ConnectionSnapshot, RemoteModel};
use crate::raw_input::{ButtonEdge, RemoteButton};
use crate::text::{chars_of, is_space, is_space_char, same_chars, trim_start};

verus! {

/// Cool-down after the injector failed to start or exited.
pub const FAILURE_COOLDOWN_MS: u64 = 15_000;

/// Length of the run of non-whitespace characters at the start of `s`.
pub open spec fn word_len(s: Seq<char>) -> int
    decreases s.len(),
{
    if s.len() == 0 || is_space(s[0]) {
        0
    } else {
        1 + word_len(s.drop_first())
    }
}

/// The first whitespace-separated word of `s` (empty when there is none).
pub open spec fn first_word(s: Seq<char>) -> Seq<char> {
    let t = trim_start(s);
    t.subrange(0, word_len(t))
}

/// What follows the first word.
pub open spec fn after_first_word(s: Seq<char>) -> Seq<char> {
    let t = trim_start(s);
    t.subrange(word_len(t), t.len() as int)
}

pub open spec fn edge_button(name: Seq<char>) -> Option<RemoteButton> {
    if name == seq!['b', 'a', 'c', 'k'] {
        Some(RemoteButton::Back)
    } else if name == seq!['v', 'o', 'l', 'u', 'm', 'e', '_', 'u', 'p'] {
        Some(RemoteButton::VolumeUp)
    } else if name == seq!['v', 'o', 'l', 'u', 'm', 'e', '_', 'd', 'o', 'w', 'n'] {
        Some(RemoteButton::VolumeDown)
    } else {
        None
    }
}

/// A line is an edge when its first word names Back or a volume button and
/// its second word is `1` (pressed) or `0` (released); further words are
/// ignored. `ready`, empty lines and other buttons are no edge.
pub open spec fn spec_parse_edge(line: Seq<char>) -> Option<ButtonEdge> {
    let name = first_word(line);
    let state = first_word(after_first_word(line));
    if name.len() == 0 || state.len() == 0 {
        None
    } else if state != seq!['1'] && state != seq!['0'] {
        None
    } else {
        match edge_button(name) {
            Some(b) => Some(ButtonEdge { button: b, is_pressed: state == seq!['1'] }),
            None => None,
        }
    }
}

proof fn lemma_word_len_bounds(s: Seq<char>)
    ensures
        0 <= word_len(s) <= s.len(),
        forall|k: int| 0 <= k < word_len(s) ==> !is_space(#[trigger] s[k]),
        word_len(s) < s.len() ==> is_space(s[word_len(s)]),
    decreases s.len(),
{
    if s.len() > 0 && !is_space(s[0]) {
        lemma_word_len_bounds(s.drop_first());
        assert forall|k: int| 0 <= k < word_len(s) implies !is_space(#[trigger] s[k]) by {
            if k > 0 {
                assert(s[k] == s.drop_first()[k - 1]);
            }
        }
    }
}

/// Start of the first word at or after `from`, and its end.
fn word_at(s: &[char], from: usize) -> (r: (usize, usize))
    requires
        from <= s@.len(),
    ensures
        from <= r.0 <= r.1 <= s@.len(),
        s@.subrange(r.0 as int, s@.len() as int) == trim_start(s@.subrange(from as int, s@.len() as int)),
        r.1 - r.0 == word_len(trim_start(s@.subrange(from as int, s@.len() as int))),
{
    let n = s.len();
    let mut i = from;
    while i < n && is_space_char(s[i])
        invariant
            from <= i <= n == s@.len(),
            trim_start(s@.subrange(from as int, n as int)) == trim_start(s@.subrange(i as int, n as int)),
        decreases n - i,
    {
        assert(s@.subrange(i as int, n as int).drop_first() =~= s@.subrange(i + 1, n as int));
        i = i + 1;
    }
    let ghost t = s@.subrange(i as int, n as int);
    assert(trim_start(t) == t);
    let mut j = i;
    while j < n && !is_space_char(s[j])
        invariant
            i <= j <= n == s@.len(),
            t == s@.subrange(i as int, n as int),
            word_len(t) == (j - i) + word_len(s@.subrange(j as int, n as int)),
        decreases n - j,
    {
        assert(s@.subrange(j as int, n as int).drop_first() =~= s@.subrange(j + 1, n as int));
        j = j + 1;
    }
    (i, j)
}

/// Parses one line of the injector's output.
pub fn parse_edge(line: &str) -> (e: Option<ButtonEdge>)
    ensures
        e == spec_parse_edge(line@),
{
    let chars = chars_of(line);
    let s = chars.as_slice();
    let n = s.len();
    let (a, b) = word_at(s, 0);
    assert(s@.subrange(0, n as int) =~= s@);
    let ghost t1 = trim_start(s@);
    assert(first_word(line@) =~= s@.subrange(a as int, b as int));
    assert(after_first_word(line@) =~= s@.subrange(b as int, n as int));
    let (c, d) = word_at(s, b);
    assert(first_word(after_first_word(line@)) =~= s@.subrange(c as int, d as int));
    if a == b || c == d {
        return None;
    }
    let name = vstd::slice::slice_subrange(s, a, b);
    let state = vstd::slice::slice_subrange(s, c, d);
    let one = vec!['1'];
    let zero = vec!['0'];
    assert(one@ =~= seq!['1']);
    assert(zero@ =~= seq!['0']);
    let pressed = if same_chars(state, one.as_slice()) {
        true
    } else if same_chars(state, zero.as_slice()) {
        false
    } else {
        return None;
    };
    let back = vec!['b', 'a', 'c', 'k'];
    let up = vec!['v', 'o', 'l', 'u', 'm', 'e', '_', 'u', 'p'];
    let down = vec!['v', 'o', 'l', 'u', 'm', 'e', '_', 'd', 'o', 'w', 'n'];
    assert(back@ =~= seq!['b', 'a', 'c', 'k']);
    assert(up@ =~= seq!['v', 'o', 'l', 'u', 'm', 'e', '_', 'u', 'p']);
    assert(down@ =~= seq!['v', 'o', 'l', 'u', 'm', 'e', '_', 'd', 'o', 'w', 'n']);
    let button = if same_chars(name, back.as_slice()) {
        RemoteButton::Back
    } else if same_chars(name, up.as_slice()) {
        RemoteButton::VolumeUp
    } else if same_chars(name, down.as_slice()) {
        RemoteButton::VolumeDown
    } else {
        return None;
    };
    Some(ButtonEdge { button, is_pressed: pressed })
}

/// What the hook supervisor should do in one poll.
#[derive(Debug, Clone, Copy, PartialEq, Eq, Structural)]
pub enum HookCommand {
    /// Start the injector.
    Start,
    /// Close the injector (the remote is gone).
    Stop,
    /// Nothing to do.
    Idle,
}

/// Supervisor state: whether an injector runs and the earliest time of the
/// next start attempt (milliseconds).
#[derive(Debug, Clone, Copy, PartialEq, Eq, Structural)]
pub struct HookSupervisor {
    pub running: bool,
    pub next_attempt_ms: u64,
}

/// One poll of the supervisor given whether the hook is wanted.
pub open spec fn spec_poll(s: HookSupervisor, wanted: bool, now: u64) -> (HookSupervisor, HookCommand) {
    if wanted && !s.running && now >= s.next_attempt_ms {
        (s, HookCommand::Start)
    } else if !wanted && s.running {
        (HookSupervisor { running: false, ..s }, HookCommand::Stop)
    } else {
        (s, HookCommand::Idle)
    }
}

impl HookSupervisor {
    pub fn new(now: u64) -> (s: Self)
        ensures
            !s.running,
            s.next_attempt_ms == now,
    {
        HookSupervisor { running: false, next_attempt_ms: now }
    }

    /// One poll: start when wanted, idle and out of cool-down; stop when no
    /// longer wanted.
    pub fn poll(&mut self, wanted: bool, now: u64) -> (c: HookCommand)
        ensures
            (*final(self), c) == spec_poll(*old(self), wanted, now),
    {
        if wanted && !self.running && now >= self.next_attempt_ms {
            HookCommand::Start
        } else if !wanted && self.running {
            self.running = false;
            HookCommand::Stop
        } else {
            HookCommand::Idle
        }
    }

    /// Outcome of a start: running on success, cool-down on failure.
    pub fn started(&mut self, ok: bool, now: u64)
        requires
            now <= u64::MAX - FAILURE_COOLDOWN_MS,
        ensures
            ok ==> *final(self) == (HookSupervisor { running: true, ..*old(self) }),
            !ok ==> *final(self) == (HookSupervisor {
                running: false,
                next_attempt_ms: (now + FAILURE_COOLDOWN_MS) as u64,
            }),
    {
        if ok {
            self.running = true;
        } else {
            self.running = false;
            self.next_attempt_ms = now + FAILURE_COOLDOWN_MS;
        }
    }

    /// The injector exited on its own: back to idle with a cool-down.
    pub fn exited(&mut self, now: u64)
        requires
            now <= u64::MAX - FAILURE_COOLDOWN_MS,
        ensures
            !final(self).running,
            final(self).next_attempt_ms == now + FAILURE_COOLDOWN_MS,
    {
        self.running = false;
        self.next_attempt_ms = now + FAILURE_COOLDOWN_MS;
    }
}

/// A failed start is not retried before the cool-down has passed.
pub proof fn lemma_no_retry_during_cooldown(now: u64, later: u64)
    requires
        now <= u64::MAX - FAILURE_COOLDOWN_MS,
        later < now + FAILURE_COOLDOWN_MS,
    ensures
        spec_poll(
            HookSupervisor { running: false, next_attempt_ms: (now + FAILURE_COOLDOWN_MS) as u64 },
            true,
            later,
        ).1 == HookCommand::Idle,
{
}

/// The hook is wanted while an RC003 is connected and ready or streaming.
pub fn hook_wanted(snapshot: &ConnectionSnapshot) -> (b: bool)
    ensures
        b == (snapshot.remote_model == RemoteModel::Rc003 && (snapshot.phase
            == ConnectionPhase::Ready || snapshot.phase == ConnectionPhase::Streaming)),
{
    let ready = match snapshot.phase {
        ConnectionPhase::Ready | ConnectionPhase::Streaming => true,
        _ => false,
    };
    let rc003 = match snapshot.remote_model {
        RemoteModel::Rc003 => true,
        _ => false,
    };
    rc003 && ready
}

} // verus!
