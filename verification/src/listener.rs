//! Remote change-stream listener policy: reconnect, exponential backoff,
//! and degradation to periodic full resync under sustained failure.
//!
//! The listener loop itself performs network reads outside this library;
//! every decision it takes — how long to wait, when to resubscribe, when
//! to fall back to a full resync — is computed here.

use vstd::prelude::*;
use vstd::arithmetic::power2::pow2;
use vstd::arithmetic::power2::{lemma_pow2_strictly_increases, lemma2_to64};

verus! {

/// First backoff delay, in seconds.
pub const INITIAL_BACKOFF_SECS: u64 = 1;

/// Cap on the backoff delay, in seconds.
pub const MAX_BACKOFF_SECS: u64 = 32;

/// Consecutive failed attempts before the long-cooldown path.
pub const MAX_RETRIES: u32 = 5;

/// Cooldown before retrying after the retry budget is spent, in seconds.
pub const LONG_RETRY_DELAY_SECS: u64 = 3600;

/// Grace delay before the fallback full resync, in seconds.
pub const RESYNC_GRACE_SECS: u64 = 10;

/// The delay scheduled after `n` consecutive failures: the initial
/// delay doubled `n` times, capped.
pub open spec fn spec_backoff_delay(n: int) -> int
    recommends
        0 <= n <= MAX_RETRIES,
{
    let raw = INITIAL_BACKOFF_SECS * pow2(n as nat);
    if raw > MAX_BACKOFF_SECS { MAX_BACKOFF_SECS as int } else { raw as int }
}

/// Backoff monotonicity: more consecutive failures never shorten the
/// next delay.
pub proof fn lemma_backoff_monotonic(n1: int, n2: int)
    requires
        0 <= n1 <= n2 <= MAX_RETRIES,
    ensures
        spec_backoff_delay(n1) <= spec_backoff_delay(n2),
{
    lemma2_to64();
    if n1 < n2 {
        lemma_pow2_strictly_increases(n1 as nat, n2 as nat);
    }
}

/// Reconnect backoff: how many attempts failed in a row, and the delay
/// the next failure will be answered with.
pub struct BackoffState {
    /// Consecutive failures so far
    pub retry_count: u32,
    /// Delay to schedule on the next failure, in seconds
    pub current_delay_secs: u64,
}

impl BackoffState {
    /// The delay always matches the failure count, which never leaves
    /// the retry budget.
    pub open spec fn wf(&self) -> bool {
        &&& self.retry_count <= MAX_RETRIES
        &&& self.current_delay_secs == spec_backoff_delay(self.retry_count as int)
    }

    /// Fresh state: no failures, initial delay.
    pub fn new() -> (r: Self)
        ensures
            r.wf(),
            r.retry_count == 0,
    {
        proof {
            lemma2_to64();
        }
        BackoffState { retry_count: 0, current_delay_secs: INITIAL_BACKOFF_SECS }
    }

    /// Any successful (non-error) subscription outcome resets the
    /// backoff to the initial delay.
    pub fn reset(&mut self)
        ensures
            final(self).wf(),
            final(self).retry_count == 0,
    {
        proof {
            lemma2_to64();
        }
        self.retry_count = 0;
        self.current_delay_secs = INITIAL_BACKOFF_SECS;
    }

    /// The delay for the failure that just happened: the initial delay
    /// doubled once per earlier consecutive failure, capped — or nothing
    /// once the retry budget is spent, which sends the caller down the
    /// long-cooldown path.
    pub fn next_delay(&mut self) -> (r: Option<u64>)
        requires
            old(self).wf(),
        ensures
            final(self).wf(),
            old(self).retry_count >= MAX_RETRIES ==> r is None
                && *final(self) == *old(self),
            old(self).retry_count < MAX_RETRIES ==> (r matches Some(d)
                && d == spec_backoff_delay(old(self).retry_count as int)
                && final(self).retry_count == old(self).retry_count + 1),
    {
        if self.retry_count >= MAX_RETRIES {
            return None;
        }
        let delay = self.current_delay_secs;
        proof {
            lemma2_to64();
            let n = self.retry_count as int;
            assert(pow2((n + 1) as nat) == 2 * pow2(n as nat)) by {
                vstd::arithmetic::power2::lemma_pow2_unfold((n + 1) as nat);
            }
        }
        self.retry_count = self.retry_count + 1;
        let doubled = self.current_delay_secs * 2;
        self.current_delay_secs = if doubled > MAX_BACKOFF_SECS {
            MAX_BACKOFF_SECS
        } else {
            doubled
        };
        Some(delay)
    }
}

/// In-stream listener state: whether push events are known to reach us.
pub struct ListenerState {
    /// True while the push subscription is believed active
    pub push_subscribed: bool,
}

/// How one round of listening to the change stream ended.
pub enum ListenOutcome {
    /// The server asked for an immediate resubscription: an expected
    /// control signal, not a failure
    ReconnectRequired,
    /// The stream ended; unexpected, and counted as a failure
    StreamEnded,
    /// Opening or reading the stream failed
    TransportError,
}

/// What the listener loop should do next.
pub enum ListenerAction {
    /// Open a new subscription immediately
    Resubscribe,
    /// Sleep, then open a new subscription
    RetryAfter { delay_secs: u64 },
    /// Sleep a short grace delay, schedule a full-hierarchy resync of
    /// the sync root, sleep the long cooldown, then resubscribe
    FullResyncAndCooldown { grace_secs: u64, cooldown_secs: u64 },
}

/// Decide how to continue after a listening round.  Whatever ended the
/// round, the subscription is gone, so the push state goes inactive.
/// A requested reconnect is an expected control signal: it resets the
/// backoff and resubscribes at once.  A stream end or a transport
/// error backs off exponentially, and only the failure that exhausts
/// the budget degrades to a full resync with a long cooldown.
pub fn on_listen_outcome(
    state: &mut ListenerState,
    backoff: &mut BackoffState,
    outcome: ListenOutcome,
) -> (r: ListenerAction)
    requires
        old(backoff).wf(),
    ensures
        final(backoff).wf(),
        final(state).push_subscribed == false,
        outcome is ReconnectRequired ==> r is Resubscribe
            && final(backoff).retry_count == 0,
        !(outcome is ReconnectRequired) && old(backoff).retry_count < MAX_RETRIES
            ==> (r matches ListenerAction::RetryAfter { delay_secs }
                && delay_secs == spec_backoff_delay(old(backoff).retry_count as int)
                && final(backoff).retry_count == old(backoff).retry_count + 1),
        !(outcome is ReconnectRequired) && old(backoff).retry_count >= MAX_RETRIES
            ==> (r matches ListenerAction::FullResyncAndCooldown { grace_secs, cooldown_secs }
                && grace_secs == RESYNC_GRACE_SECS
                && cooldown_secs == LONG_RETRY_DELAY_SECS
                && final(backoff).retry_count == 0),
{
    state.push_subscribed = false;
    match outcome {
        ListenOutcome::ReconnectRequired => {
            backoff.reset();
            ListenerAction::Resubscribe
        },
        ListenOutcome::StreamEnded => backoff_after_failure(backoff),
        ListenOutcome::TransportError => backoff_after_failure(backoff),
    }
}

/// The backoff half of a failed round: the next delay, or the
/// long-cooldown path once the budget is spent.
fn backoff_after_failure(backoff: &mut BackoffState) -> (r: ListenerAction)
    requires
        old(backoff).wf(),
    ensures
        final(backoff).wf(),
        old(backoff).retry_count < MAX_RETRIES
            ==> (r matches ListenerAction::RetryAfter { delay_secs }
                && delay_secs == spec_backoff_delay(old(backoff).retry_count as int)
                && final(backoff).retry_count == old(backoff).retry_count + 1),
        old(backoff).retry_count >= MAX_RETRIES
            ==> (r matches ListenerAction::FullResyncAndCooldown { grace_secs, cooldown_secs }
                && grace_secs == RESYNC_GRACE_SECS
                && cooldown_secs == LONG_RETRY_DELAY_SECS
                && final(backoff).retry_count == 0),
{
    match backoff.next_delay() {
        Some(delay_secs) => ListenerAction::RetryAfter { delay_secs },
        None => {
            backoff.reset();
            ListenerAction::FullResyncAndCooldown {
                grace_secs: RESYNC_GRACE_SECS,
                cooldown_secs: LONG_RETRY_DELAY_SECS,
            }
        },
    }
}

/// What the stream yielded, besides its end and errors.
pub enum StreamSignal {
    /// A batch of change records arrived
    Batch,
    /// The subscription resumed with no missed events
    Resumed,
    /// A fresh subscription with no replay guarantee
    Subscribed,
    /// A keep-alive
    KeepAlive,
    /// The server asks for a reconnect
    ReconnectRequired,
}

/// Update the in-stream state for one signal.  The returned flag says
/// whether a full-hierarchy resync of the sync root is owed: only a
/// fresh subscription has no replay guarantee, so only it triggers one.
/// A subscription confirmed fresh or resumed is a successful reconnect,
/// so it resets the backoff; no other signal touches it.
pub fn on_stream_signal(
    state: &mut ListenerState,
    backoff: &mut BackoffState,
    signal: StreamSignal,
) -> (full_resync: bool)
    requires
        old(backoff).wf(),
    ensures
        final(backoff).wf(),
        full_resync == (signal is Subscribed),
        final(state).push_subscribed == match signal {
            StreamSignal::Batch => old(state).push_subscribed,
            StreamSignal::Resumed => true,
            StreamSignal::Subscribed => true,
            StreamSignal::KeepAlive => old(state).push_subscribed,
            StreamSignal::ReconnectRequired => false,
        },
        (signal is Subscribed || signal is Resumed)
            ==> final(backoff).retry_count == 0,
        !(signal is Subscribed || signal is Resumed)
            ==> *final(backoff) == *old(backoff),
{
    match signal {
        StreamSignal::Batch => false,
        StreamSignal::Resumed => {
            state.push_subscribed = true;
            backoff.reset();
            false
        },
        StreamSignal::Subscribed => {
            state.push_subscribed = true;
            backoff.reset();
            true
        },
        StreamSignal::KeepAlive => false,
        StreamSignal::ReconnectRequired => {
            state.push_subscribed = false;
            false
        },
    }
}

} // verus!
