use std::time::Duration;
use zinder_ingest::errors::{IngestError, SourceError};
use zinder_ingest::ids::{BlockHeight, ShieldedProtocol, SubtreeRootIndex};
use zinder_ingest::retry::{
    block_fetch_operation, fetch_retry_deadline, next_fetch_retry_backoff,
    per_call_retry_permitted, segment_fetch_operation, subtree_fetch_operation, IngestRetryState,
    SourceRetry, FETCH_RETRY_FAILURE_BUDGET,
};

fn unavailable() -> SourceError {
    SourceError::NodeUnavailable { reason: "connection reset".to_owned() }
}

#[test]
fn deadlines_follow_the_request_timeout() {
    assert_eq!(fetch_retry_deadline(Duration::from_secs(30)), Duration::from_secs(150));
    assert_eq!(fetch_retry_deadline(Duration::ZERO), Duration::from_secs(5));
    assert_eq!(fetch_retry_deadline(Duration::MAX), Duration::MAX);
}

#[test]
fn backoff_doubles_up_to_its_ceiling() {
    let mut backoff = Duration::from_millis(250);
    let mut seen = Vec::new();
    for _ in 0..6 {
        backoff = next_fetch_retry_backoff(backoff);
        seen.push(backoff.as_millis());
    }
    assert_eq!(seen, vec![500, 1_000, 2_000, 4_000, 5_000, 5_000]);
}

#[test]
fn only_passing_failures_are_repeated() {
    assert!(per_call_retry_permitted(&unavailable()));
    assert!(per_call_retry_permitted(&SourceError::StreamDisconnected {
        reason: "eof".to_owned()
    }));
    assert!(!per_call_retry_permitted(&SourceError::SourceProtocolMismatch {
        cause: "missing block hash"
    }));
    assert!(!per_call_retry_permitted(&SourceError::NodeCapabilityMissing {
        capability: "subtree roots"
    }));
}

#[test]
fn a_request_is_repeated_until_an_attempt_or_the_deadline_is_the_last() {
    let mut state = IngestRetryState::default();
    let mut retry = SourceRetry::begin("fetch block".to_owned(), Duration::from_secs(30));
    for (attempt, wait) in [250, 500, 1_000, 2_000].into_iter().enumerate() {
        match retry.after_failure(
            &mut state,
            unavailable(),
            "connection reset".to_owned(),
            Duration::from_secs(1),
        ) {
            Ok(backoff) => assert_eq!(backoff, Duration::from_millis(wait)),
            Err(error) => panic!("attempt {attempt} is repeated, got {error:?}"),
        }
    }
    assert!(matches!(
        retry.after_failure(
            &mut state,
            unavailable(),
            "connection reset".to_owned(),
            Duration::from_secs(1)
        ),
        Err(IngestError::SourceRetryDeadlineExceeded { reason, .. })
            if reason == "connection reset"
    ));

    let mut late = SourceRetry::begin("fetch block".to_owned(), Duration::from_secs(30));
    assert!(matches!(
        late.after_failure(
            &mut state,
            unavailable(),
            "connection reset".to_owned(),
            Duration::from_secs(600)
        ),
        Err(IngestError::SourceRetryDeadlineExceeded { operation, .. })
            if operation == "fetch block"
    ));
}

#[test]
fn a_protocol_mismatch_is_never_repeated() {
    let mut state = IngestRetryState::default();
    let mut retry = SourceRetry::begin("fetch block".to_owned(), Duration::from_secs(30));
    assert!(matches!(
        retry.after_failure(
            &mut state,
            SourceError::SourceProtocolMismatch { cause: "missing block hash" },
            "missing block hash".to_owned(),
            Duration::ZERO
        ),
        Err(IngestError::Source(SourceError::SourceProtocolMismatch { .. }))
    ));
    assert_eq!(state.retryable_failures, 0);
}

#[test]
fn a_run_has_one_failure_budget() {
    let mut state = IngestRetryState { retryable_failures: FETCH_RETRY_FAILURE_BUDGET };
    let mut retry = SourceRetry::begin("fetch block".to_owned(), Duration::from_secs(30));
    match retry.after_failure(
        &mut state,
        unavailable(),
        "connection reset".to_owned(),
        Duration::ZERO,
    ) {
        Err(IngestError::SourceRetryBudgetExceeded {
            operation,
            retryable_failures,
            failure_budget,
        }) => {
            assert_eq!(operation, "fetch block");
            assert_eq!(retryable_failures, FETCH_RETRY_FAILURE_BUDGET + 1);
            assert_eq!(failure_budget, FETCH_RETRY_FAILURE_BUDGET);
        }
        other => panic!("the budget is spent, got {other:?}"),
    }
}

#[test]
fn requests_are_named() {
    assert_eq!(block_fetch_operation(BlockHeight::new(12)), "fetch block at height 12");
    assert_eq!(
        segment_fetch_operation(Some(BlockHeight::new(13))),
        "fetch source chain segment from height 13"
    );
    assert_eq!(segment_fetch_operation(None), "fetch source chain segment after cursor");
    assert_eq!(
        subtree_fetch_operation(ShieldedProtocol::Sapling, SubtreeRootIndex::new(4)),
        "fetch Sapling subtree roots from index 4"
    );
}

/// Attempts that a segment fetch takes against a source which fails so many times.
fn attempts(
    failures_before_success: u32,
    failure: fn() -> SourceError,
) -> (u32, Result<(), IngestError>) {
    let mut state = IngestRetryState::default();
    let operation = segment_fetch_operation(Some(BlockHeight::new(1)));
    let mut retry = SourceRetry::begin(operation, Duration::from_secs(30));
    let mut attempts = 0;
    loop {
        attempts += 1;
        if attempts > failures_before_success {
            return (attempts, Ok(()));
        }
        match retry.after_failure(&mut state, failure(), "failed".to_owned(), Duration::ZERO) {
            Ok(_) => {}
            Err(error) => return (attempts, Err(error)),
        }
    }
}

#[test]
fn bulk_catchup_retries_retryable_block_fetch_failures() {
    let (attempts, outcome) = attempts(2, unavailable);
    assert!(outcome.is_ok());
    assert_eq!(attempts, 3);
}

#[test]
fn bulk_catchup_does_not_retry_protocol_mismatch_failures() {
    let (attempts, outcome) = attempts(2, || SourceError::SourceProtocolMismatch {
        cause: "missing block hash",
    });
    assert!(matches!(
        outcome,
        Err(IngestError::Source(SourceError::SourceProtocolMismatch { .. }))
    ));
    assert_eq!(attempts, 1);
}
