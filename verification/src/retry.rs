//! The bounded retry policy of HTTP operations: one try plus three
//! retries, with linear backoff between attempts.

use vstd::prelude::*;
use crate::error::DownloadError;

verus! {

/// How many retries follow the first attempt.
pub const MAX_HTTP_RETRIES: u64 = 3;

/// The backoff base, in milliseconds.
pub const RETRY_BACKOFF_MS: u64 = 200;

/// What one attempt produced, as the caller's success predicate
/// judged it.
#[derive(Debug, Clone)]
pub enum AttemptOutcome {
    /// The response satisfied the success predicate.
    Success,
    /// A response arrived but did not satisfy the predicate.
    HttpFailure { status: u64 },
    /// The request failed in transport.
    TransportError { message: String },
}

/// What the caller must do after an attempt.
#[derive(Debug, Clone)]
pub enum RetryDecision {
    /// The operation succeeded; stop.
    Done,
    /// Sleep this long, then attempt again.
    RetryAfterMs { delay_ms: u64 },
    /// All attempts are spent; surface this error.
    GiveUp { error: DownloadError },
}

/// More attempts remain after the attempt at this index has failed.
pub open spec fn retry_continues(attempt: u64) -> bool {
    attempt < MAX_HTTP_RETRIES
}

/// The backoff after the failed attempt at this index: linear in the
/// one-based attempt number.
pub open spec fn retry_delay_after(attempt: u64) -> int {
    RETRY_BACKOFF_MS * (attempt + 1)
}

/// The retry loop's state: which zero-based attempt is underway, and
/// the operation description failures name.
pub struct RetryState {
    pub description: String,
    pub attempt: u64,
}

impl RetryState {
    /// Ready for the first attempt of an operation.
    pub fn new(description: String) -> (r: Self)
        ensures
            r.description == description,
            r.attempt == 0,
    {
        RetryState { description, attempt: 0 }
    }

    /// Judge one attempt's outcome: success ends the operation, a
    /// failure either schedules a backoff of `200 · (attempt + 1)` ms
    /// or, on the last attempt, gives up with the last status or
    /// error verbatim.
    pub fn next(&mut self, outcome: AttemptOutcome) -> (r: RetryDecision)
        requires
            old(self).attempt <= MAX_HTTP_RETRIES,
        ensures
            final(self).description == old(self).description,
            match outcome {
                AttemptOutcome::Success => r == RetryDecision::Done && final(self).attempt == old(
                    self,
                ).attempt,
                AttemptOutcome::HttpFailure { status } => {
                    if retry_continues(old(self).attempt) {
                        &&& r == (RetryDecision::RetryAfterMs {
                            delay_ms: retry_delay_after(old(self).attempt) as u64,
                        })
                        &&& final(self).attempt == old(self).attempt + 1
                    } else {
                        &&& r == (RetryDecision::GiveUp {
                            error: DownloadError::HttpStatus {
                                description: old(self).description,
                                attempts: (old(self).attempt + 1) as u64,
                                status,
                            },
                        })
                        &&& final(self).attempt == old(self).attempt
                    }
                },
                AttemptOutcome::TransportError { message } => {
                    if retry_continues(old(self).attempt) {
                        &&& r == (RetryDecision::RetryAfterMs {
                            delay_ms: retry_delay_after(old(self).attempt) as u64,
                        })
                        &&& final(self).attempt == old(self).attempt + 1
                    } else {
                        &&& r == (RetryDecision::GiveUp {
                            error: DownloadError::Transport {
                                description: old(self).description,
                                attempts: (old(self).attempt + 1) as u64,
                                message,
                            },
                        })
                        &&& final(self).attempt == old(self).attempt
                    }
                },
            },
    {
        match outcome {
            AttemptOutcome::Success => RetryDecision::Done,
            AttemptOutcome::HttpFailure { status } => {
                if self.attempt < MAX_HTTP_RETRIES {
                    let delay = RETRY_BACKOFF_MS * (self.attempt + 1);
                    self.attempt = self.attempt + 1;
                    RetryDecision::RetryAfterMs { delay_ms: delay }
                } else {
                    RetryDecision::GiveUp {
                        error: DownloadError::HttpStatus {
                            description: self.description.clone(),
                            attempts: self.attempt + 1,
                            status,
                        },
                    }
                }
            },
            AttemptOutcome::TransportError { message } => {
                if self.attempt < MAX_HTTP_RETRIES {
                    let delay = RETRY_BACKOFF_MS * (self.attempt + 1);
                    self.attempt = self.attempt + 1;
                    RetryDecision::RetryAfterMs { delay_ms: delay }
                } else {
                    RetryDecision::GiveUp {
                        error: DownloadError::Transport {
                            description: self.description.clone(),
                            attempts: self.attempt + 1,
                            message,
                        },
                    }
                }
            },
        }
    }
}

/// For an operation whose every attempt fails, attempts run at the
/// zero-based indexes 0 through 3 — four in all — the delays between
/// them are 200, 400 and 600 ms, and the failure of the fourth gives
/// up.
pub proof fn lemma_retry_bound()
    ensures
        MAX_HTTP_RETRIES + 1 == 4,
        retry_delay_after(0) == 200,
        retry_delay_after(1) == 400,
        retry_delay_after(2) == 600,
        forall|k: u64| k < MAX_HTTP_RETRIES ==> retry_continues(k),
        !retry_continues(MAX_HTTP_RETRIES),
{
}

} // verus!
