//! Bookkeeping of node-source outages that a writer lane outlasts.

use crate::bounds::{capped, floored_difference};
use crate::errors::{IngestError, SourceError, SourceFailureClass};
use crate::retry::retryable;
use vstd::prelude::*;

verus! {

/// Whether a failure is the source's and passes: the node is away, a request
/// to it was given up, or it answered from a chain view that no longer holds.
pub open spec fn passes(error: IngestError) -> bool {
    match error {
        IngestError::Source(error) => match error.class() {
            SourceFailureClass::NodeUnreachable => true,
            SourceFailureClass::StreamDisconnected => true,
            SourceFailureClass::UpstreamViewChanged => true,
            SourceFailureClass::CapabilityMissing => false,
            SourceFailureClass::ProtocolMismatch => false,
        },
        IngestError::SourceRetryBudgetExceeded { .. } => true,
        IngestError::SourceRetryDeadlineExceeded { .. } => true,
        _ => false,
    }
}

/// Returns whether waiting and observing the source again can cure a failure.
pub fn is_recoverable(error: &IngestError) -> (recoverable: bool)
    ensures
        recoverable == passes(*error),
{
    match error {
        IngestError::Source(error) => match error.upstream_classification() {
            SourceFailureClass::NodeUnreachable => true,
            SourceFailureClass::StreamDisconnected => true,
            SourceFailureClass::UpstreamViewChanged => true,
            SourceFailureClass::CapabilityMissing => false,
            SourceFailureClass::ProtocolMismatch => false,
        },
        IngestError::SourceRetryBudgetExceeded { .. } => true,
        IngestError::SourceRetryDeadlineExceeded { .. } => true,
        _ => false,
    }
}

/// Whatever a single request is repeated for, a writer lane outlasts too.
pub proof fn law_repeated_failures_are_outlasted(error: SourceError)
    requires
        retryable(error.class()),
    ensures
        passes(IngestError::Source(error)),
{
}

/// How a source failure is reported.
#[derive(Clone, Copy, Debug, PartialEq, Eq, Structural)]
pub enum OutageReport {
    /// The source had answered before.
    New,
    /// The source has failed since an earlier attempt.
    Ongoing { elapsed_seconds: u32 },
}

/// What a writer lane does about one attempt.
#[derive(Debug)]
pub enum RecoveryStep<T> {
    /// The attempt succeeded; `recovered` tells whether it ended an outage.
    Done { outcome: T, recovered: bool },
    /// The attempt failed for want of the source and is made again.
    Retry { report: OutageReport },
    /// The attempt failed for good.
    Fail { error: IngestError },
}

/// Second at which the source began to fail, while it fails.
#[derive(Clone, Copy, Debug, PartialEq, Eq, Structural)]
pub struct SourceOutage {
    pub since: Option<u64>,
}

/// How a failure at a second of a monotonic clock is reported.
pub open spec fn report_of(outage: SourceOutage, now_seconds: u64) -> OutageReport {
    match outage.since {
        None => OutageReport::New,
        Some(since) => OutageReport::Ongoing {
            elapsed_seconds: capped(
                floored_difference(now_seconds as int, since as int),
                u32::MAX as int,
            ) as u32,
        },
    }
}

/// The outage once a failure at a second of a monotonic clock is recorded.
pub open spec fn outage_after(outage: SourceOutage, now_seconds: u64) -> SourceOutage {
    match outage.since {
        None => SourceOutage { since: Some(now_seconds) },
        Some(_) => outage,
    }
}

impl SourceOutage {
    /// A source that has not failed.
    pub fn none() -> (outage: Self)
        ensures
            outage.since is None,
    {
        SourceOutage { since: None }
    }

    /// Records a source failure that is recovered from.
    pub fn record(&mut self, now_seconds: u64) -> (report: OutageReport)
        ensures
            report == report_of(*old(self), now_seconds),
            *final(self) == outage_after(*old(self), now_seconds),
    {
        match self.since {
            None => {
                self.since = Some(now_seconds);
                OutageReport::New
            },
            Some(since) => {
                let elapsed: u64 = now_seconds.saturating_sub(since);
                let elapsed_seconds: u32 = match u32::try_from(elapsed) {
                    Ok(elapsed) => elapsed,
                    Err(_) => u32::MAX,
                };
                OutageReport::Ongoing { elapsed_seconds }
            },
        }
    }

    /// Ends an outage; returns whether there was one.
    pub fn clear(&mut self) -> (ended: bool)
        ensures
            ended == (old(self).since is Some),
            final(self).since is None,
    {
        let ended = self.since.is_some();
        self.since = None;
        ended
    }

    /// Decides what follows one attempt. `recoverable` tells whether the
    /// failure, if there is one, is the source's and passes.
    pub fn after_attempt<T>(
        &mut self,
        attempt: Result<T, IngestError>,
        recoverable: bool,
        now_seconds: u64,
    ) -> (step: RecoveryStep<T>)
        ensures
            match attempt {
                Ok(outcome) => {
                    &&& step == (RecoveryStep::Done { outcome, recovered: old(self).since is Some })
                    &&& final(self).since is None
                },
                Err(error) => if recoverable {
                    &&& step == (RecoveryStep::<T>::Retry {
                        report: report_of(*old(self), now_seconds),
                    })
                    &&& *final(self) == outage_after(*old(self), now_seconds)
                } else {
                    step == (RecoveryStep::<T>::Fail { error }) && *final(self) == *old(self)
                },
            },
    {
        match attempt {
            Ok(outcome) => {
                let recovered = self.clear();
                RecoveryStep::Done { outcome, recovered }
            },
            Err(error) => if recoverable {
                RecoveryStep::Retry { report: self.record(now_seconds) }
            } else {
                RecoveryStep::Fail { error }
            },
        }
    }
}

/// The reported length of an outage never falls from one failure to the next.
pub proof fn law_outage_only_grows_longer(
    outage: SourceOutage,
    earlier_seconds: u64,
    later_seconds: u64,
)
    requires
        outage.since is Some,
        earlier_seconds <= later_seconds,
    ensures
        report_of(outage, earlier_seconds)->elapsed_seconds <= report_of(
            outage_after(outage, earlier_seconds),
            later_seconds,
        )->elapsed_seconds,
{
}

/// A failure is outlasted exactly where waiting can cure it: the source did not
/// answer, broke off or changed its chain view, or the retries of one run or
/// request were used up. A missing capability or an answer out of shape, and
/// any failure of the library's own side, ends the run.
pub proof fn law_only_curable_failures_are_outlasted(error: IngestError)
    ensures
        passes(error) <==> {
            ||| error is SourceRetryBudgetExceeded
            ||| error is SourceRetryDeadlineExceeded
            ||| error matches IngestError::Source(cause) && (cause is NodeUnavailable
                || cause is StreamDisconnected || cause is BlockUnavailable
                || cause is BlockReorgDuringFetch)
        },
{
}

/// An outage is new when it starts, and from then on counts the seconds since
/// its start, which later failures do not move.
pub proof fn law_outage_counts_from_its_first_failure(start_seconds: u64, now_seconds: u64)
    ensures
        ({
            let answering = SourceOutage { since: None };
            let started = outage_after(answering, start_seconds);
            &&& report_of(answering, start_seconds) is New
            &&& started.since == Some(start_seconds)
            &&& outage_after(started, now_seconds) == started
            &&& start_seconds <= now_seconds <= start_seconds + 0xffff_ffff ==> report_of(
                started,
                now_seconds,
            ) == (OutageReport::Ongoing {
                elapsed_seconds: (now_seconds - start_seconds) as u32,
            })
            &&& now_seconds < start_seconds ==> report_of(started, now_seconds) == (
            OutageReport::Ongoing { elapsed_seconds: 0 })
            &&& now_seconds > start_seconds + 0xffff_ffff ==> report_of(started, now_seconds) == (
            OutageReport::Ongoing { elapsed_seconds: 0xffff_ffff })
        }),
{
}

} // verus!
