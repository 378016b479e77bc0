//! The pane's side of the browser broker: the policy that decides what the
//! watch loop does after a pass ends, the counters it reports, and which
//! pane token it presents.
//!
//! A displaced pane does not fight back (the newer app has it until this
//! one's Browser tab is shown again), a lost connection is the reconnect's
//! job, and anything else retries, backing off from 2 s doubling to a
//! minute.
use vstd::prelude::*;
use crate::text::{
    append, chars_of, contains_exec, contains_seq, decimal, decimal_chars, owned, string_of, trim,
    trim_chars,
};

verus! {

/// First wait after a failed subscribe, in seconds; doubles per attempt up
/// to [`RETRY_MAX`].
pub const RETRY: u64 = 2;

/// The longest wait between two subscribes, in seconds.
pub const RETRY_MAX: u64 = 60;

/// Why one pass of the watch loop ended.
#[derive(Debug, Clone, Copy, PartialEq, Eq, Structural)]
pub enum Ended {
    /// The engine gave the pane to a newer app: its last item said so.
    Displaced,
    /// This app's connection to the engine is gone.
    Disconnected,
    /// The stream ended while the connection is up.
    Dropped,
    /// The engine refused the subscribe: the pane token is wrong.
    Refused,
    /// The subscribe failed for another reason.
    Unavailable,
}

/// What the loop does after a pass ended.
#[derive(Debug, Clone, Copy, PartialEq, Eq)]
pub enum Step {
    /// Leave the loop; the text is the log line's reason.
    Stop(&'static str),
    /// Subscribe again after this many seconds.
    RetryAfter(u64),
}

/// `2 * 2^k`.
pub open spec fn doubled(k: nat) -> nat
    decreases k,
{
    if k == 0 {
        RETRY as nat
    } else {
        2 * doubled((k - 1) as nat)
    }
}

/// The wait before retry number `attempt` (0-based), in seconds: 2, 4, 8,
/// 16, 32, then a minute, and a minute from there on.
pub open spec fn backoff_spec(attempt: u32) -> nat {
    let d = doubled(if attempt < 5 {
        attempt as nat
    } else {
        5
    });
    if d < RETRY_MAX {
        d
    } else {
        RETRY_MAX as nat
    }
}

/// The wait before retry number `attempt` (0-based), in seconds.
pub fn backoff(attempt: u32) -> (r: u64)
    ensures
        r as nat == backoff_spec(attempt),
{
    let k: u32 = if attempt < 5 {
        attempt
    } else {
        5
    };
    let mut w: u64 = RETRY;
    let mut i: u32 = 0;
    while i < k
        invariant
            i <= k <= 5,
            w as nat == doubled(i as nat),
            w <= 64,
        decreases k - i,
    {
        proof {
            lemma_doubled_bound(i as nat);
        }
        w = w * 2;
        i += 1;
    }
    if w < RETRY_MAX {
        w
    } else {
        RETRY_MAX
    }
}

proof fn lemma_doubled_bound(k: nat)
    requires
        k < 5,
    ensures
        doubled(k) <= 32,
        doubled(k + 1) == 2 * doubled(k),
{
    reveal_with_fuel(doubled, 6);
}

/// The reconnect policy. A displaced pane stops; a dead connection stops
/// (the reconnect re-attaches); everything else retries, backing off.
pub fn next_step(ended: Ended, attempt: u32) -> (r: Step)
    ensures
        ended == Ended::Displaced ==> (r matches Step::Stop(why) && why@
            == "another app took the browser pane; this one re-attaches when its Browser tab is shown again"@),
        ended == Ended::Disconnected ==> (r matches Step::Stop(why) && why@
            == "the engine connection closed; the reconnect re-attaches"@),
        ended != Ended::Displaced && ended != Ended::Disconnected ==> (r matches Step::RetryAfter(
            secs,
        ) && secs as nat == backoff_spec(attempt)),
{
    match ended {
        Ended::Displaced => Step::Stop(
            "another app took the browser pane; this one re-attaches when its Browser tab is shown again",
        ),
        Ended::Disconnected => Step::Stop("the engine connection closed; the reconnect re-attaches"),
        Ended::Dropped | Ended::Refused | Ended::Unavailable => Step::RetryAfter(backoff(attempt)),
    }
}

/// The waits never grow past a minute, never shrink from one attempt to the
/// next, and the first is two seconds.
pub proof fn law_backoff_is_bounded_and_monotone(a: u32, b: u32)
    requires
        a <= b,
    ensures
        RETRY <= backoff_spec(a) <= RETRY_MAX,
        backoff_spec(a) <= backoff_spec(b),
        backoff_spec(0) == RETRY,
{
    reveal_with_fuel(doubled, 6);
}

/// `u64` addition that wraps, as the atomic counters count.
pub open spec fn wrapping_inc(x: u64) -> u64 {
    if x == u64::MAX {
        0
    } else {
        (x + 1) as u64
    }
}

/// The broker's state on the pane's side: whether a watch is attached, and
/// how many ops were run and how many succeeded.
#[derive(Debug, Clone, Copy, PartialEq, Eq)]
pub struct AgentState {
    pub attached: bool,
    pub called: u64,
    pub ok: u64,
}

/// `tools_called=N ok=M`.
pub open spec fn counters_text(called: u64, ok: u64) -> Seq<char> {
    "tools_called="@ + decimal(called as nat) + " ok="@ + decimal(ok as nat)
}

impl AgentState {
    /// Nothing attached, nothing run.
    pub fn new() -> (r: AgentState)
        ensures
            !r.attached && r.called == 0 && r.ok == 0,
    {
        AgentState { attached: false, called: 0, ok: 0 }
    }

    /// A watch attached or ended.
    pub fn set_attached(&mut self, on: bool)
        ensures
            final(self).attached == on,
            final(self).called == old(self).called,
            final(self).ok == old(self).ok,
    {
        self.attached = on;
    }

    /// One op ran; `succeeded` says whether it answered `ok`.
    pub fn record(&mut self, succeeded: bool)
        ensures
            final(self).attached == old(self).attached,
            final(self).called == wrapping_inc(old(self).called),
            final(self).ok == if succeeded {
                wrapping_inc(old(self).ok)
            } else {
                old(self).ok
            },
    {
        self.called = if self.called == u64::MAX {
            0
        } else {
            self.called + 1
        };
        if succeeded {
            self.ok = if self.ok == u64::MAX {
                0
            } else {
                self.ok + 1
            };
        }
    }

}

/// Whether a watch is attached right now.
pub fn attached(state: &AgentState) -> (r: bool)
    ensures
        r == state.attached,
{
    state.attached
}

/// `tools_called=N ok=M`, for a proof line.
pub fn counters(state: &AgentState) -> (r: String)
    ensures
        r@ == counters_text(state.called, state.ok),
{
    let mut v = chars_of("tools_called=");
    append(&mut v, decimal_chars(state.called).as_slice());
    append(&mut v, chars_of(" ok=").as_slice());
    append(&mut v, decimal_chars(state.ok).as_slice());
    string_of(v.as_slice())
}

impl Default for AgentState {
    fn default() -> (r: AgentState)
        ensures
            !r.attached && r.called == 0 && r.ok == 0,
    {
        AgentState::new()
    }
}

/// A token candidate, trimmed; a blank one is no token.
pub open spec fn token_of(t: Option<Seq<char>>) -> Option<Seq<char>> {
    match t {
        Some(s) => if trim(s).len() > 0 {
            Some(trim(s))
        } else {
            None
        },
        None => None,
    }
}

fn non_empty(t: Option<&str>) -> (r: Option<String>)
    ensures
        r matches Some(s) ==> token_of(Some(t->0@)) == Some(s@) && t is Some,
        r is None ==> (t is None || token_of(Some(t->0@)) is None),
{
    match t {
        Some(s) => {
            let v = trim_chars(chars_of(s).as_slice());
            if v.len() > 0 {
                Some(string_of(v.as_slice()))
            } else {
                None
            }
        },
        None => None,
    }
}

/// The pane token this engine wants: the token this app dialed the engine
/// with first (the one the engine will accept), then the environment's,
/// then the one in the local data dir (the embedded case). Blank is none.
pub fn pane_token(dialed: Option<&str>, env: Option<&str>, file: Option<&str>) -> (r: Option<
    String,
>)
    ensures
        ({
            let d = match dialed {
                Some(s) => token_of(Some(s@)),
                None => None,
            };
            let e = match env {
                Some(s) => token_of(Some(s@)),
                None => None,
            };
            let f = match file {
                Some(s) => token_of(Some(s@)),
                None => None,
            };
            match d {
                Some(t) => r matches Some(x) && x@ == t,
                None => match e {
                    Some(t) => r matches Some(x) && x@ == t,
                    None => match f {
                        Some(t) => r matches Some(x) && x@ == t,
                        None => r is None,
                    },
                },
            }
        }),
{
    if let Some(t) = non_empty(dialed) {
        return Some(t);
    }
    if let Some(t) = non_empty(env) {
        return Some(t);
    }
    non_empty(file)
}

/// A little under the engine's own 30 s wait, so the agent reads the pane's
/// reason rather than the broker's timeout.
pub const OP_DEADLINE_SECS: u64 = 25;

/// One item of the watch stream, as read: whether it carries the engine's
/// `displaced` notice, its numeric id if it has one, and its op (empty
/// when it names none).
#[derive(Debug, Clone, PartialEq, Eq)]
pub struct WatchItem {
    pub displaced: bool,
    pub id: Option<u64>,
    pub op: String,
}

/// What the loop does with one item.
#[derive(Debug, Clone, PartialEq, Eq)]
pub enum ItemStep {
    /// The engine gave the pane to a newer app: remember it, run nothing.
    Displaced,
    /// No numeric id to answer to: nothing runs.
    Skip,
    /// Run `op`, and answer to `id`.
    Run { id: u64, op: String },
}

/// One item: a `displaced` notice is remembered and skipped, an item
/// without an id is skipped, and any other is run.
pub fn item_step(item: &WatchItem) -> (r: ItemStep)
    ensures
        item.displaced ==> r == ItemStep::Displaced,
        !item.displaced && item.id is None ==> r == ItemStep::Skip,
        !item.displaced && item.id is Some ==> (r matches ItemStep::Run { id, op } && id == item.id->0
            && op@ == item.op@),
{
    if item.displaced {
        return ItemStep::Displaced;
    }
    match item.id {
        Some(id) => ItemStep::Run { id, op: owned(item.op.as_str()) },
        None => ItemStep::Skip,
    }
}

/// `<op> did not finish within 25s`: the error an op past its deadline
/// answers with.
pub open spec fn deadline_text(op: Seq<char>) -> Seq<char> {
    op + " did not finish within "@ + decimal(OP_DEADLINE_SECS as nat) + "s"@
}

/// The error for an op that ran past its deadline.
pub fn deadline_error(op: &str) -> (r: String)
    ensures
        r@ == deadline_text(op@),
{
    let mut v = chars_of(op);
    append(&mut v, chars_of(" did not finish within ").as_slice());
    append(&mut v, decimal_chars(OP_DEADLINE_SECS).as_slice());
    append(&mut v, chars_of("s").as_slice());
    string_of(v.as_slice())
}

/// The answer to one op: its id, `ok` or `error` (never both), and the pane
/// token the watch was opened with.
#[derive(Debug, PartialEq, Eq)]
pub struct Reply<T> {
    pub id: u64,
    pub result: Result<T, String>,
    pub token: String,
}

impl AgentState {
    /// An op finished: it is counted, and answered to its id with the
    /// watch's token.
    pub fn finish<T>(&mut self, id: u64, result: Result<T, String>, token: &str) -> (r: Reply<T>)
        ensures
            r.id == id,
            r.result == result,
            r.token@ == token@,
            final(self).attached == old(self).attached,
            final(self).called == wrapping_inc(old(self).called),
            final(self).ok == if result is Ok {
                wrapping_inc(old(self).ok)
            } else {
                old(self).ok
            },
    {
        let succeeded = match &result {
            Ok(_) => true,
            Err(_) => false,
        };
        self.record(succeeded);
        Reply { id, result, token: owned(token) }
    }
}

/// Why a pass ended once its stream ran out: the engine's notice first,
/// then a closed connection, else a plain drop.
pub fn stream_ended(displaced: bool, closed: bool) -> (r: Ended)
    ensures
        r == if displaced {
            Ended::Displaced
        } else if closed {
            Ended::Disconnected
        } else {
            Ended::Dropped
        },
{
    if displaced {
        Ended::Displaced
    } else if closed {
        Ended::Disconnected
    } else {
        Ended::Dropped
    }
}

/// What `str::to_lowercase` gives: Unicode's lower case, a function of the
/// text alone.
pub uninterp spec fn lowercase_text(s: Seq<char>) -> Seq<char>;

/// `str::to_lowercase`. Its result is named rather than spelled out: the
/// mapping follows Unicode's case tables.
#[verifier::external_body]
fn to_lowercase(s: &str) -> (r: String)
    ensures
        r@ == lowercase_text(s@),
{
    s.to_lowercase()
}

/// A refusal names the token or says unauthorised.
pub open spec fn refusal_text(lowered: Seq<char>) -> bool {
    contains_seq(lowered, "token"@) || contains_seq(lowered, "unauthor"@)
}

/// Whether a lower-cased subscribe error is the engine refusing the token
/// rather than not being there yet.
pub fn is_refusal(lowered: &str) -> (r: bool)
    ensures
        r == refusal_text(lowered@),
{
    let v = chars_of(lowered);
    contains_exec(v.as_slice(), chars_of("token").as_slice()) || contains_exec(
        v.as_slice(),
        chars_of("unauthor").as_slice(),
    )
}

/// Why a pass ended when the subscribe itself failed: a closed connection,
/// else a refusal of the token (the error names the token or says
/// unauthorised, in any case), else the engine is not ready.
pub fn subscribe_failed(error: &str, closed: bool) -> (r: Ended)
    ensures
        r == if closed {
            Ended::Disconnected
        } else if refusal_text(lowercase_text(error@)) {
            Ended::Refused
        } else {
            Ended::Unavailable
        },
{
    if closed {
        return Ended::Disconnected;
    }
    let lowered = to_lowercase(error);
    if is_refusal(lowered.as_str()) {
        Ended::Refused
    } else {
        Ended::Unavailable
    }
}

} // verus!
