//! Retry policy of requests to the node source.

use crate::bounds::{capped, larger};
use crate::errors::{IngestError, SourceError, SourceFailureClass};
use crate::ids::{BlockHeight, ShieldedProtocol, SubtreeRootIndex};
use crate::text::{decimal, number_in_text};
use std::time::Duration;
use vstd::prelude::*;

verus! {

/// Calls one request may take, the first one included.
pub const FETCH_RETRY_MAX_ATTEMPTS: u32 = 5;

/// Milliseconds before the first retry.
pub const FETCH_RETRY_INITIAL_BACKOFF_MILLIS: u64 = 250;

/// Longest wait between two attempts, in seconds.
pub const FETCH_RETRY_MAX_BACKOFF_SECONDS: u64 = 5;

/// Shortest time a request may spend on its attempts, in seconds.
pub const FETCH_RETRY_MIN_DEADLINE_SECONDS: u64 = 5;

/// Retryable failures one ingest run tolerates.
pub const FETCH_RETRY_FAILURE_BUDGET: u32 = 100;

/// Nanoseconds of a second.
pub const NANOS_PER_SECOND: u64 = 1_000_000_000;

/// Nanoseconds of a millisecond.
pub const NANOS_PER_MILLISECOND: u64 = 1_000_000;

/// What `Duration::as_nanos` counts in a span of time.
pub uninterp spec fn duration_nanos(duration: Duration) -> nat;

/// Nanoseconds of the longest span of time the standard library holds.
pub open spec fn longest_nanos() -> int {
    u64::MAX * NANOS_PER_SECOND + 999_999_999
}

/// `Duration::from_secs` makes a span of that many seconds.
pub assume_specification[ Duration::from_secs ](secs: u64) -> (duration: Duration)
    ensures
        duration_nanos(duration) == secs * NANOS_PER_SECOND,
;

/// `Duration::from_millis` makes a span of that many milliseconds.
pub assume_specification[ Duration::from_millis ](millis: u64) -> (duration: Duration)
    ensures
        duration_nanos(duration) == millis * NANOS_PER_MILLISECOND,
;

/// `Duration::as_nanos` counts the nanoseconds of a span.
pub assume_specification[ Duration::as_nanos ](duration: &Duration) -> (nanos: u128)
    ensures
        nanos == duration_nanos(*duration),
;

/// `Duration::saturating_mul` multiplies a span, stopping at the longest one.
pub assume_specification[ Duration::saturating_mul ](duration: Duration, rhs: u32) -> (product:
    Duration)
    ensures
        duration_nanos(product) == capped(duration_nanos(duration) * rhs, longest_nanos()),
;

/// `Duration::saturating_add` adds two spans, stopping at the longest one.
pub assume_specification[ Duration::saturating_add ](duration: Duration, rhs: Duration) -> (sum:
    Duration)
    ensures
        duration_nanos(sum) == capped(
            (duration_nanos(duration) + duration_nanos(rhs)) as int,
            longest_nanos(),
        ),
;

/// Nanoseconds that all attempts of one request may take together.
pub open spec fn deadline_nanos(request_timeout: int) -> int {
    larger(
        capped(request_timeout * FETCH_RETRY_MAX_ATTEMPTS, longest_nanos()),
        FETCH_RETRY_MIN_DEADLINE_SECONDS * NANOS_PER_SECOND,
    )
}

/// Nanoseconds to wait after having waited for some others.
pub open spec fn backoff_after(nanos: int) -> int {
    capped(2 * nanos, FETCH_RETRY_MAX_BACKOFF_SECONDS * NANOS_PER_SECOND)
}

/// Returns how long all attempts of one request may take together.
pub fn fetch_retry_deadline(request_timeout: Duration) -> (deadline: Duration)
    ensures
        duration_nanos(deadline) == deadline_nanos(duration_nanos(request_timeout) as int),
{
    let scaled = request_timeout.saturating_mul(FETCH_RETRY_MAX_ATTEMPTS);
    let floor = Duration::from_secs(FETCH_RETRY_MIN_DEADLINE_SECONDS);
    if scaled.as_nanos() >= floor.as_nanos() {
        scaled
    } else {
        floor
    }
}

/// Returns how long to wait after having waited for `current_backoff`.
pub fn next_fetch_retry_backoff(current_backoff: Duration) -> (next: Duration)
    ensures
        duration_nanos(next) == backoff_after(duration_nanos(current_backoff) as int),
{
    let doubled = current_backoff.saturating_mul(2);
    let ceiling = Duration::from_secs(FETCH_RETRY_MAX_BACKOFF_SECONDS);
    if doubled.as_nanos() <= ceiling.as_nanos() {
        doubled
    } else {
        ceiling
    }
}

/// Whether a failure of this class may pass when the same request is repeated.
pub open spec fn retryable(class: SourceFailureClass) -> bool {
    class is NodeUnreachable || class is StreamDisconnected
}

/// Returns whether the same call should be issued again after a wait.
///
/// Per-call retry handles the failure classes where retrying the *same
/// request* can plausibly succeed: transient transport
/// ([`SourceFailureClass::NodeUnreachable`]) and short-lived subscription
/// failures ([`SourceFailureClass::StreamDisconnected`]). View-stale
/// failures ([`SourceFailureClass::UpstreamViewChanged`]) and structural
/// failures are bubbled up to the loop, which re-observes the upstream
/// before issuing dependent requests.
pub fn per_call_retry_permitted(error: &SourceError) -> (permitted: bool)
    ensures
        permitted == retryable(error.class()),
{
    match error.upstream_classification() {
        SourceFailureClass::NodeUnreachable => true,
        SourceFailureClass::StreamDisconnected => true,
        _ => false,
    }
}

/// Counter of retryable source failures observed across a single ingest run.
#[derive(Clone, Copy, Debug, PartialEq, Eq, Structural)]
pub struct IngestRetryState {
    pub retryable_failures: u32,
}

impl Default for IngestRetryState {
    fn default() -> (state: Self)
        ensures
            state.retryable_failures == 0,
    {
        IngestRetryState { retryable_failures: 0 }
    }
}

/// Progress of one request through its attempts.
#[derive(Debug)]
pub struct SourceRetry {
    /// Description of the request.
    pub operation: String,
    /// How long all attempts may take together.
    pub deadline: Duration,
    /// Number of the attempt in flight, counted from one.
    pub attempt: u32,
    /// Wait before the next attempt.
    pub next_backoff: Duration,
}

/// What a failed attempt leads to.
pub enum RetryVerdict {
    /// The same request is issued again.
    Again,
    /// The failure is not one that repeating the request can cure.
    Fatal,
    /// The run has used up its failures.
    BudgetExceeded { retryable_failures: u32 },
    /// The request has used up its attempts or its time.
    DeadlineExceeded,
}

impl SourceRetry {
    /// Whether the attempt in flight is one the policy allows.
    pub open spec fn well_formed(self) -> bool {
        1 <= self.attempt <= FETCH_RETRY_MAX_ATTEMPTS
    }

    /// What a failure of the attempt in flight leads to, after some
    /// nanoseconds and with some failures already counted in the run.
    pub open spec fn verdict(
        self,
        class: SourceFailureClass,
        failures_before: u32,
        elapsed: int,
    ) -> RetryVerdict {
        let failures = capped(failures_before + 1, u32::MAX as int) as u32;
        if !retryable(class) {
            RetryVerdict::Fatal
        } else if failures > FETCH_RETRY_FAILURE_BUDGET {
            RetryVerdict::BudgetExceeded { retryable_failures: failures }
        } else if self.attempt >= FETCH_RETRY_MAX_ATTEMPTS || capped(
            elapsed + duration_nanos(self.next_backoff),
            longest_nanos(),
        ) > duration_nanos(self.deadline) {
            RetryVerdict::DeadlineExceeded
        } else {
            RetryVerdict::Again
        }
    }

    /// Starts the first attempt of a request.
    pub fn begin(operation: String, request_timeout: Duration) -> (retry: Self)
        ensures
            retry.well_formed(),
            retry.operation == operation,
            retry.attempt == 1,
            duration_nanos(retry.deadline) == deadline_nanos(
                duration_nanos(request_timeout) as int,
            ),
            duration_nanos(retry.next_backoff) == FETCH_RETRY_INITIAL_BACKOFF_MILLIS
                * NANOS_PER_MILLISECOND,
    {
        SourceRetry {
            operation,
            deadline: fetch_retry_deadline(request_timeout),
            attempt: 1,
            next_backoff: Duration::from_millis(FETCH_RETRY_INITIAL_BACKOFF_MILLIS),
        }
    }

    /// Accounts for the failure of the attempt in flight, `elapsed` after the
    /// first attempt began, and returns how long to wait before the next one.
    ///
    /// `reason` is the failure spelled out.
    pub fn after_failure(
        &mut self,
        retry_state: &mut IngestRetryState,
        error: SourceError,
        reason: String,
        elapsed: Duration,
    ) -> (wait: Result<Duration, IngestError>)
        requires
            old(self).well_formed(),
        ensures
            final(self).well_formed(),
            final(self).operation@ == old(self).operation@,
            final(self).deadline == old(self).deadline,
            final(retry_state).retryable_failures == if retryable(error.class()) {
                capped(old(retry_state).retryable_failures + 1, u32::MAX as int)
            } else {
                old(retry_state).retryable_failures as int
            },
            match old(self).verdict(
                error.class(),
                old(retry_state).retryable_failures,
                duration_nanos(elapsed) as int,
            ) {
                RetryVerdict::Again => {
                    &&& wait == Ok::<Duration, IngestError>(old(self).next_backoff)
                    &&& final(self).attempt == old(self).attempt + 1
                    &&& duration_nanos(final(self).next_backoff) == backoff_after(
                        duration_nanos(old(self).next_backoff) as int,
                    )
                },
                RetryVerdict::Fatal => {
                    &&& wait == Err::<Duration, IngestError>(IngestError::Source(error))
                    &&& *final(self) == *old(self)
                },
                RetryVerdict::BudgetExceeded { retryable_failures } => {
                    &&& *final(self) == *old(self)
                    &&& wait matches Err(
                        IngestError::SourceRetryBudgetExceeded {
                            operation,
                            retryable_failures: counted,
                            failure_budget,
                        },
                    )
                    &&& operation@ == old(self).operation@
                    &&& counted == retryable_failures
                    &&& failure_budget == FETCH_RETRY_FAILURE_BUDGET
                },
                RetryVerdict::DeadlineExceeded => {
                    &&& *final(self) == *old(self)
                    &&& wait matches Err(
                        IngestError::SourceRetryDeadlineExceeded { operation, reason: told },
                    )
                    &&& operation@ == old(self).operation@
                    &&& told@ == reason@
                },
            },
    {
        if !per_call_retry_permitted(&error) {
            return Err(IngestError::Source(error));
        }
        retry_state.retryable_failures = retry_state.retryable_failures.saturating_add(1);
        if retry_state.retryable_failures > FETCH_RETRY_FAILURE_BUDGET {
            return Err(
                IngestError::SourceRetryBudgetExceeded {
                    operation: self.operation.clone(),
                    retryable_failures: retry_state.retryable_failures,
                    failure_budget: FETCH_RETRY_FAILURE_BUDGET,
                },
            );
        }
        if self.attempt >= FETCH_RETRY_MAX_ATTEMPTS || elapsed.saturating_add(
            self.next_backoff,
        ).as_nanos() > self.deadline.as_nanos() {
            return Err(
                IngestError::SourceRetryDeadlineExceeded {
                    operation: self.operation.clone(),
                    reason,
                },
            );
        }
        let wait = self.next_backoff;
        self.next_backoff = next_fetch_retry_backoff(wait);
        self.attempt = self.attempt.saturating_add(1);
        Ok(wait)
    }
}

/// Wait before the attempt that follows a number of others.
pub open spec fn backoff_before_retry(retries: nat) -> int
    decreases retries,
{
    if retries == 0 {
        (FETCH_RETRY_INITIAL_BACKOFF_MILLIS * NANOS_PER_MILLISECOND) as int
    } else {
        backoff_after(backoff_before_retry((retries - 1) as nat))
    }
}

/// Waits never shrink from one attempt to the next, and never exceed the ceiling.
pub proof fn law_backoff_grows_up_to_its_ceiling(retries: nat)
    ensures
        backoff_before_retry(retries) <= backoff_before_retry(retries + 1),
        backoff_before_retry(retries) <= FETCH_RETRY_MAX_BACKOFF_SECONDS * NANOS_PER_SECOND,
        backoff_before_retry(retries) >= 0,
    decreases retries,
{
    reveal_with_fuel(backoff_before_retry, 3);
    if retries > 0 {
        law_backoff_grows_up_to_its_ceiling((retries - 1) as nat);
    }
}

/// A request that failed in its last attempt is never issued again.
pub proof fn law_last_attempt_is_never_repeated(
    retry: SourceRetry,
    class: SourceFailureClass,
    failures_before: u32,
    elapsed: int,
)
    requires
        retry.attempt >= FETCH_RETRY_MAX_ATTEMPTS,
    ensures
        !(retry.verdict(class, failures_before, elapsed) is Again),
{
}

/// Once a run has used up its failures, no request of it is issued again.
pub proof fn law_spent_budget_ends_every_request(
    retry: SourceRetry,
    class: SourceFailureClass,
    failures_before: u32,
    elapsed: int,
)
    requires
        failures_before >= FETCH_RETRY_FAILURE_BUDGET,
    ensures
        !(retry.verdict(class, failures_before, elapsed) is Again),
{
}

/// Names the request for one block.
pub fn block_fetch_operation(height: BlockHeight) -> (operation: String)
    ensures
        operation@ == "fetch block at height "@ + decimal(height.0 as nat) + ""@,
{
    number_in_text("fetch block at height ", height.0 as u64, "")
}

/// Names the request for a source-chain segment, which begins at a height
/// unless the cursor stands at the highest possible one.
pub fn segment_fetch_operation(next_connected_height: Option<BlockHeight>) -> (operation: String)
    ensures
        operation@ == match next_connected_height {
            Some(height) => "fetch source chain segment from height "@ + decimal(height.0 as nat)
                + ""@,
            None => "fetch source chain segment after cursor"@,
        },
{
    match next_connected_height {
        Some(height) => number_in_text(
            "fetch source chain segment from height ",
            height.0 as u64,
            "",
        ),
        None => "fetch source chain segment after cursor".to_owned(),
    }
}

/// Start of the name of a request for one pool's subtree roots.
pub open spec fn subtree_fetch_prefix(protocol: ShieldedProtocol) -> Seq<char> {
    match protocol {
        ShieldedProtocol::Sapling => "fetch Sapling subtree roots from index "@,
        ShieldedProtocol::Orchard => "fetch Orchard subtree roots from index "@,
        ShieldedProtocol::Ironwood => "fetch Ironwood subtree roots from index "@,
    }
}

/// Names the request for one pool's subtree roots.
pub fn subtree_fetch_operation(
    protocol: ShieldedProtocol,
    start_index: SubtreeRootIndex,
) -> (operation: String)
    ensures
        operation@ == subtree_fetch_prefix(protocol) + decimal(start_index.0 as nat) + ""@,
{
    let prefix = match protocol {
        ShieldedProtocol::Sapling => "fetch Sapling subtree roots from index ",
        ShieldedProtocol::Orchard => "fetch Orchard subtree roots from index ",
        ShieldedProtocol::Ironwood => "fetch Ironwood subtree roots from index ",
    };
    number_in_text(prefix, start_index.0 as u64, "")
}

/// All attempts at a request together may take five times the time of one, and
/// five seconds at least.
pub proof fn law_deadline_covers_every_attempt(request_timeout: int)
    requires
        0 <= request_timeout,
        5 * request_timeout <= longest_nanos(),
    ensures
        deadline_nanos(request_timeout) >= 5 * request_timeout,
        deadline_nanos(request_timeout) >= 5_000_000_000,
        deadline_nanos(request_timeout) == 5 * request_timeout || deadline_nanos(request_timeout)
            == 5_000_000_000,
{
}

/// A deadline never passes what a duration can hold.
pub proof fn law_deadline_fits_a_duration(request_timeout: int)
    ensures
        5 * request_timeout > longest_nanos() ==> deadline_nanos(request_timeout)
            == longest_nanos(),
        longest_nanos() == 0xffff_ffff_ffff_ffff * 1_000_000_000 + 999_999_999,
{
}

/// Each wait is twice the one before, until five seconds are reached; the
/// first one is a quarter of a second.
pub proof fn law_waits_double_up_to_five_seconds(nanos: int, retries: nat)
    ensures
        nanos <= 2_500_000_000 ==> backoff_after(nanos) == 2 * nanos,
        nanos >= 2_500_000_000 ==> backoff_after(nanos) == 5_000_000_000,
        backoff_before_retry(0) == 250_000_000,
        backoff_before_retry(retries + 1) == backoff_after(backoff_before_retry(retries)),
{
}

/// Repeating a request is worth it exactly where the node was silent or a
/// subscription broke off.
pub proof fn law_only_lost_connections_are_retried(error: SourceError)
    ensures
        retryable(error.class()) <==> error is NodeUnavailable || error is StreamDisconnected,
{
}

/// A request is issued again exactly where the failure is one of the
/// connection, it is at most the hundredth of the run, fewer than five attempts
/// were made and the next wait still fits the deadline.
pub proof fn law_request_is_repeated_within_its_bounds(
    retry: SourceRetry,
    error: SourceError,
    failures_before: u32,
    elapsed: int,
)
    requires
        0 <= elapsed,
        elapsed + duration_nanos(retry.next_backoff) <= longest_nanos(),
    ensures
        retry.verdict(error.class(), failures_before, elapsed) is Again <==> {
            &&& error is NodeUnavailable || error is StreamDisconnected
            &&& failures_before < 100
            &&& retry.attempt < 5
            &&& elapsed + duration_nanos(retry.next_backoff) <= duration_nanos(retry.deadline)
        },
        retry.verdict(error.class(), failures_before, elapsed) is Fatal <==> !(
        error is NodeUnavailable || error is StreamDisconnected),
        retry.verdict(error.class(), failures_before, elapsed) is BudgetExceeded <==> (
        error is NodeUnavailable || error is StreamDisconnected) && failures_before >= 100,
        failures_before < 0xffff_ffff ==> (retry.verdict(
            error.class(),
            failures_before,
            elapsed,
        ) matches RetryVerdict::BudgetExceeded { retryable_failures } ==> retryable_failures
            == failures_before + 1),
{
}

/// A retry stands at one of five attempts.
pub proof fn law_attempts_are_counted_from_one_to_five(retry: SourceRetry)
    ensures
        retry.well_formed() <==> 1 <= retry.attempt <= 5,
{
}

/// The subtree request names its pool.
pub proof fn law_subtree_request_names_its_pool()
    ensures
        subtree_fetch_prefix(ShieldedProtocol::Sapling)
            == "fetch Sapling subtree roots from index "@,
        subtree_fetch_prefix(ShieldedProtocol::Orchard)
            == "fetch Orchard subtree roots from index "@,
        subtree_fetch_prefix(ShieldedProtocol::Ironwood)
            == "fetch Ironwood subtree roots from index "@,
{
}

} // verus!
