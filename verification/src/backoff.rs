//! Reconnect backoff: how long to wait before the next connection attempt,
//! computed from the time that passed since the previous one.

use tokio::time::Instant;
use vstd::prelude::*;

verus! {

/// Nanoseconds in one second.
pub const NANOS_PER_SEC: u128 = 1_000_000_000;

/// `tokio::time::Instant`: a reading of the monotonic clock. Nothing of it
/// is visible to contracts.
#[verifier::external_type_specification]
#[verifier::external_body]
pub struct ExInstant(Instant);

/// `tokio::time::Instant::now`: a reading of the monotonic clock.
/// Nothing is claimed of the reading.
#[verifier::external_body]
fn clock_now() -> Instant {
    Instant::now()
}

/// `tokio::time::Instant::duration_since`, in nanoseconds: the time from
/// `earlier` to `later`, zero when `earlier` is the later of the two.
/// Both readings are opaque, so nothing is claimed of the result.
#[verifier::external_body]
fn nanos_between(later: &Instant, earlier: &Instant) -> u128 {
    later.duration_since(*earlier).as_nanos()
}

/// `gap` limited from above by `hi`, then from below by `lo`.
pub open spec fn clamp_gap(gap: nat, lo: nat, hi: nat) -> nat {
    let capped = if gap < hi { gap } else { hi };
    if capped > lo { capped } else { lo }
}

/// The delay in nanoseconds before it is cut to whole seconds: twice the gap
/// since the last attempt, kept between `min` and `max`; a gap of more than
/// twice `max` counts as a fresh start and gives `min`.
pub open spec fn delay_nanos(gap: nat, min: nat, max: nat) -> nat {
    if gap > 2 * max {
        min
    } else {
        2 * clamp_gap(gap, min / 2, max / 2)
    }
}

/// The delay in whole seconds for a gap in nanoseconds and bounds in seconds.
pub open spec fn delay_secs(gap: nat, min_secs: nat, max_secs: nat) -> nat {
    delay_nanos(gap, min_secs * 1_000_000_000, max_secs * 1_000_000_000) / 1_000_000_000
}

/// The delay, in whole seconds, that follows a gap of `gap` nanoseconds
/// between two attempts.
pub fn next_delay(gap: u128, min_secs: u64, max_secs: u64) -> (secs: u64)
    ensures
        secs == delay_secs(gap as nat, min_secs as nat, max_secs as nat),
{
    let min: u128 = (min_secs as u128) * NANOS_PER_SEC;
    let max: u128 = (max_secs as u128) * NANOS_PER_SEC;
    let nanos: u128 = if gap > 2 * max {
        min
    } else {
        let capped: u128 = if gap < max / 2 { gap } else { max / 2 };
        let clamped: u128 = if capped > min / 2 { capped } else { min / 2 };
        2 * clamped
    };
    let secs: u128 = nanos / NANOS_PER_SEC;
    assert(nanos <= min || nanos <= max);
    secs as u64
}

/// The time of the last connection attempt and the bounds of the delay.
#[derive(Debug)]
pub struct Backoff {
    min_secs: u64,
    max_secs: u64,
    last_attempt: Option<Instant>,
}

impl Backoff {
    /// The lower bound of the delay, in seconds.
    pub closed spec fn min(&self) -> nat {
        self.min_secs as nat
    }

    /// The upper bound of the delay, in seconds.
    pub closed spec fn max(&self) -> nat {
        self.max_secs as nat
    }

    /// Whether an attempt has been recorded since construction or the last
    /// success.
    pub closed spec fn armed(&self) -> bool {
        self.last_attempt is Some
    }

    /// A backoff with the given bounds and no attempt recorded.
    pub fn new(min_secs: u64, max_secs: u64) -> (b: Backoff)
        ensures
            b.min() == min_secs,
            b.max() == max_secs,
            !b.armed(),
    {
        Backoff { min_secs, max_secs, last_attempt: None }
    }

    /// Records an attempt made now, and gives the delay before it: see
    /// `next_post`.
    pub fn next(&mut self) -> (delay: Option<u64>)
        ensures
            next_post(*old(self), *final(self), delay),
    {
        let now = clock_now();
        let delay = match &self.last_attempt {
            None => None,
            Some(attempt) => {
                let gap: u128 = nanos_between(&now, attempt);
                let secs: u64 = next_delay(gap, self.min_secs, self.max_secs);
                assert(secs == delay_secs(gap as nat, self.min(), self.max()) as u64);
                Some(secs)
            },
        };
        self.last_attempt = Some(now);
        delay
    }

    /// Forgets the last attempt: the connection was confirmed, and the next
    /// attempt is due at once. See `success_post`.
    pub fn success(&mut self)
        ensures
            success_post(*old(self), *final(self)),
    {
        self.last_attempt = None;
    }
}

/// What a call of `next` does. The first attempt, and the first after a
/// success, is due at once (`None`); any other is due after the delay that
/// the gap since the attempt before gives. Either way an attempt is on
/// record afterwards.
pub open spec fn next_post(pre: Backoff, post: Backoff, delay: Option<u64>) -> bool {
    &&& post.armed()
    &&& post.min() == pre.min()
    &&& post.max() == pre.max()
    &&& !pre.armed() ==> delay is None
    &&& pre.armed() ==> exists|gap: nat|
        delay == Some(#[trigger] delay_secs(gap, pre.min(), pre.max()) as u64)
}

/// What a call of `success` does: no attempt is on record afterwards.
pub open spec fn success_post(pre: Backoff, post: Backoff) -> bool {
    &&& !post.armed()
    &&& post.min() == pre.min()
    &&& post.max() == pre.max()
}

impl Default for Backoff {
    /// Delays between ten seconds and four minutes.
    fn default() -> (b: Backoff)
        ensures
            b.min() == 10,
            b.max() == 240,
            !b.armed(),
    {
        Backoff::new(10, 240)
    }
}

/// Every delay lies between the lower and the upper bound. Where the lower
/// bound is above the upper one, every delay is the lower bound.
pub proof fn lemma_delay_bounds(gap: nat, min_secs: nat, max_secs: nat)
    ensures
        min_secs <= delay_secs(gap, min_secs, max_secs),
        min_secs <= max_secs ==> delay_secs(gap, min_secs, max_secs) <= max_secs,
        min_secs > max_secs ==> delay_secs(gap, min_secs, max_secs) == min_secs,
{
}

/// A longer gap never gives a shorter delay, as long as the gap is not so long
/// that the sequence starts afresh.
pub proof fn lemma_delay_monotone(gap1: nat, gap2: nat, min_secs: nat, max_secs: nat)
    requires
        gap1 <= gap2 <= 2 * (max_secs * 1_000_000_000),
    ensures
        delay_secs(gap1, min_secs, max_secs) <= delay_secs(gap2, min_secs, max_secs),
{
}

/// Attempts that follow each other at once all wait the lower bound.
pub proof fn lemma_rapid_attempts(min_secs: nat, max_secs: nat)
    ensures
        delay_secs(0, min_secs, max_secs) == min_secs,
{
}

/// The first attempt is due at once, and every later one after a delay
/// within the bounds, until a success.
pub proof fn lemma_attempts(
    b0: Backoff,
    b1: Backoff,
    first: Option<u64>,
    b2: Backoff,
    second: Option<u64>,
)
    requires
        !b0.armed(),
        b0.min() <= u64::MAX,
        b0.max() <= u64::MAX,
        next_post(b0, b1, first),
        next_post(b1, b2, second),
    ensures
        first is None,
        second is Some,
        b0.min() <= second->0,
        b0.min() <= b0.max() ==> second->0 <= b0.max(),
        b0.min() > b0.max() ==> second->0 == b0.min(),
{
    let gap = choose|gap: nat|
        second == Some(#[trigger] delay_secs(gap, b1.min(), b1.max()) as u64);
    lemma_delay_bounds(gap, b1.min(), b1.max());
}

/// A success resets the sequence: the attempt that follows it is due at
/// once.
pub proof fn lemma_success_resets(
    b0: Backoff,
    b1: Backoff,
    b2: Backoff,
    delay: Option<u64>,
)
    requires
        success_post(b0, b1),
        next_post(b1, b2, delay),
    ensures
        delay is None,
        b2.armed(),
{
}

} // verus!
