//! Range-capable HTTP transfer decisions: probe confirmation, status
//! classification, retry budgets and exponential backoff. The requests
//! themselves go over the network outside the library; every response
//! is fed back into these machines, which decide what each status code
//! means and whether, and how long, to wait before trying again.

use vstd::prelude::*;
use crate::model::ResourceType;
use vstd::arithmetic::power2::pow2;

verus! {

/// Errors the transfer driver can end with.
#[derive(Clone, PartialEq, Eq, Debug)]
pub enum HttpDriverError {
    /// The server verifiably refused a byte range.
    RangeNotSupported,
    /// The server ignored the range request and sent the whole body;
    /// the body is kept so a caller may use it as the full file.
    RangeIgnoredFull(Vec<u8>),
    /// Terminal HTTP status.
    Status(u16),
    /// Network failure, carried as its message.
    Network(String),
}

/// What the driver learned from one HTTP exchange: a status with its
/// body and whether a `Content-Range` header came back, or a network
/// failure.
#[derive(Clone, PartialEq, Eq, Debug)]
pub enum HttpExchange {
    Response { status: u16, has_content_range: bool, body: Vec<u8> },
    NetworkError { message: String },
}

/// What the retry machine tells the caller to do next.
#[derive(Clone, PartialEq, Eq, Debug)]
pub enum TransferStep {
    /// The transfer succeeded with this body.
    Done(Vec<u8>),
    /// The transfer failed for good.
    Fail(HttpDriverError),
    /// Wait this many milliseconds, then send the request again.
    RetryAfter(u64),
}

/// Retry budget and backoff base of one transfer.
#[derive(Clone, Copy, PartialEq, Eq, Structural, Debug)]
pub struct RetryPolicy {
    pub retries: u32,
    pub base_backoff_ms: u64,
}

/// A status worth retrying: too many requests, request timeout, or any
/// server error.
pub open spec fn is_transient_status(status: int) -> bool {
    status == 429 || status == 408 || (500 <= status < 600)
}

pub open spec fn is_success_status(status: int) -> bool {
    200 <= status < 300
}

/// The backoff before retry number `attempt + 1`:
/// `min(30000, max(base, 1) * 2^min(attempt, 16))` milliseconds.
pub open spec fn backoff_ms_spec(base_backoff_ms: int, attempt: int) -> int {
    let base = if base_backoff_ms >= 1 {
        base_backoff_ms
    } else {
        1
    };
    let shift = if attempt <= 16 {
        attempt
    } else {
        16
    };
    let raw = base * pow2(shift as nat);
    if raw >= 30000 {
        30000
    } else {
        raw
    }
}

/// The stateless part of the HTTP driver: which resources it accepts
/// and how it reads statuses. The requests are sent outside the
/// library.
pub struct HttpDriver;

impl HttpDriver {
    pub fn new() -> (r: Self) {
        HttpDriver
    }

    /// The HTTP driver serves plain and GitHub-resolved HTTP resources.
    pub fn supports(&self, rtype: ResourceType) -> (r: bool)
        ensures
            r == (rtype == ResourceType::Http || rtype == ResourceType::GitHubResolvedHttp),
    {
        match rtype {
            ResourceType::Http => true,
            ResourceType::GitHubResolvedHttp => true,
            _ => false,
        }
    }

    /// Retry on 429, 408 and every 5xx.
    pub fn should_retry_status(status: u16) -> (r: bool)
        ensures
            r == is_transient_status(status as int),
    {
        status == 429 || status == 408 || (500 <= status && status < 600)
    }

    /// The probe's verdict. The total is whatever `HEAD` advertised;
    /// range support is confirmed only by `206 Partial Content` with a
    /// `Content-Range` header on the one-byte test `GET` — an
    /// `Accept-Ranges` hint alone counts for nothing.
    pub fn probe_outcome(
        head_total: Option<u64>,
        test_status: u16,
        test_has_content_range: bool,
    ) -> (r: (Option<u64>, bool))
        ensures
            r.0 == head_total,
            r.1 == (test_status == 206 && test_has_content_range),
    {
        (head_total, test_status == 206 && test_has_content_range)
    }

    /// Milliseconds to wait before retry number `attempt + 1`.
    pub fn backoff_delay_ms(base_backoff_ms: u64, attempt: u32) -> (r: u64)
        ensures
            r == backoff_ms_spec(base_backoff_ms as int, attempt as int),
    {
        let base: u64 = if base_backoff_ms >= 1 {
            base_backoff_ms
        } else {
            1
        };
        let shift: u32 = if attempt <= 16 {
            attempt
        } else {
            16
        };
        let mul: u64 = 1u64 << (shift as u64);
        proof {
            vstd::arithmetic::power2::lemma2_to64();
            if shift < 16 {
                vstd::arithmetic::power2::lemma_pow2_strictly_increases(
                    shift as nat,
                    16nat,
                );
            }
            vstd::bits::lemma_u64_shl_is_mul(1u64, shift as u64);
            assert(mul <= 65536);
            assert((base as int) * (mul as int) <= u128::MAX) by (nonlinear_arith)
                requires
                    base <= u64::MAX,
                    mul <= 65536,
            ;
        }
        let raw: u128 = (base as u128) * (mul as u128);
        if raw >= 30000 {
            30000
        } else {
            raw as u64
        }
    }
}

/// Retry loop of one transfer: counts the attempts made and hands out
/// either the final verdict or the backoff to sleep before the next
/// attempt.
pub struct Transfer {
    pub policy: RetryPolicy,
    pub attempts: u32,
}

impl Transfer {
    pub fn new(policy: RetryPolicy) -> (r: Self)
        ensures
            r.policy == policy,
            r.attempts == 0,
    {
        Transfer { policy, attempts: 0 }
    }

    /// Book a failed attempt: retry with backoff while the budget of
    /// `retries` extra attempts lasts, else fail with the given error.
    fn book_failure(&mut self, err: HttpDriverError) -> (r: TransferStep)
        requires
            old(self).attempts <= old(self).policy.retries,
        ensures
            final(self).policy == old(self).policy,
            old(self).attempts < old(self).policy.retries ==> (final(self).attempts == old(
                self,
            ).attempts + 1 && r == TransferStep::RetryAfter(
                backoff_ms_spec(
                    old(self).policy.base_backoff_ms as int,
                    old(self).attempts as int,
                ) as u64,
            )),
            old(self).attempts == old(self).policy.retries ==> (*final(self) == *old(self) && r
                == TransferStep::Fail(err)),
    {
        if self.attempts < self.policy.retries {
            let delay = HttpDriver::backoff_delay_ms(self.policy.base_backoff_ms, self.attempts);
            self.attempts = self.attempts + 1;
            TransferStep::RetryAfter(delay)
        } else {
            TransferStep::Fail(err)
        }
    }

    /// Digest one exchange of a ranged `GET`:
    /// `206` succeeds; `200` means the server ignored the range and the
    /// whole body arrived; `416` and any other success code mean ranges
    /// are unsupported; transient statuses and network failures retry
    /// with backoff while the budget lasts; any other status is
    /// terminal.
    pub fn on_range_exchange(&mut self, exchange: HttpExchange) -> (r: TransferStep)
        requires
            old(self).attempts <= old(self).policy.retries,
        ensures
            final(self).attempts <= final(self).policy.retries,
            final(self).policy == old(self).policy,
            r == range_step_spec(*old(self), exchange),
            final(self).attempts == (if range_step_spec(*old(self), exchange) is RetryAfter {
                old(self).attempts + 1
            } else {
                old(self).attempts as int
            }),
    {
        match exchange {
            HttpExchange::Response { status, has_content_range: _, body } => {
                if status == 206 {
                    TransferStep::Done(body)
                } else if status == 200 {
                    TransferStep::Fail(HttpDriverError::RangeIgnoredFull(body))
                } else if status == 416 {
                    TransferStep::Fail(HttpDriverError::RangeNotSupported)
                } else if 200 <= status && status < 300 {
                    TransferStep::Fail(HttpDriverError::RangeNotSupported)
                } else if HttpDriver::should_retry_status(status) {
                    self.book_failure(HttpDriverError::Status(status))
                } else {
                    TransferStep::Fail(HttpDriverError::Status(status))
                }
            },
            HttpExchange::NetworkError { message } => {
                self.book_failure(HttpDriverError::Network(message))
            },
        }
    }

    /// Digest one exchange of a whole-file `GET`: any success code
    /// returns the body; transient statuses and network failures retry
    /// with backoff while the budget lasts; any other status is
    /// terminal.
    pub fn on_full_exchange(&mut self, exchange: HttpExchange) -> (r: TransferStep)
        requires
            old(self).attempts <= old(self).policy.retries,
        ensures
            final(self).attempts <= final(self).policy.retries,
            final(self).policy == old(self).policy,
            r == full_step_spec(*old(self), exchange),
            final(self).attempts == (if full_step_spec(*old(self), exchange) is RetryAfter {
                old(self).attempts + 1
            } else {
                old(self).attempts as int
            }),
    {
        match exchange {
            HttpExchange::Response { status, has_content_range: _, body } => {
                if 200 <= status && status < 300 {
                    TransferStep::Done(body)
                } else if HttpDriver::should_retry_status(status) {
                    self.book_failure(HttpDriverError::Status(status))
                } else {
                    TransferStep::Fail(HttpDriverError::Status(status))
                }
            },
            HttpExchange::NetworkError { message } => {
                self.book_failure(HttpDriverError::Network(message))
            },
        }
    }
}

/// The verdict a range transfer reaches on one exchange.
pub open spec fn range_step_spec(t: Transfer, exchange: HttpExchange) -> TransferStep {
    match exchange {
        HttpExchange::Response { status, body, .. } => {
            if status == 206 {
                TransferStep::Done(body)
            } else if status == 200 {
                TransferStep::Fail(HttpDriverError::RangeIgnoredFull(body))
            } else if status == 416 {
                TransferStep::Fail(HttpDriverError::RangeNotSupported)
            } else if is_success_status(status as int) {
                TransferStep::Fail(HttpDriverError::RangeNotSupported)
            } else if is_transient_status(status as int) {
                retry_or_fail(t, HttpDriverError::Status(status))
            } else {
                TransferStep::Fail(HttpDriverError::Status(status))
            }
        },
        HttpExchange::NetworkError { message } => {
            retry_or_fail(t, HttpDriverError::Network(message))
        },
    }
}

/// The verdict a whole-file transfer reaches on one exchange.
pub open spec fn full_step_spec(t: Transfer, exchange: HttpExchange) -> TransferStep {
    match exchange {
        HttpExchange::Response { status, body, .. } => {
            if is_success_status(status as int) {
                TransferStep::Done(body)
            } else if is_transient_status(status as int) {
                retry_or_fail(t, HttpDriverError::Status(status))
            } else {
                TransferStep::Fail(HttpDriverError::Status(status))
            }
        },
        HttpExchange::NetworkError { message } => {
            retry_or_fail(t, HttpDriverError::Network(message))
        },
    }
}

/// Retry while fewer than `retries` extra attempts were made, with the
/// backoff for the attempt just failed; else the error is final.
pub open spec fn retry_or_fail(t: Transfer, err: HttpDriverError) -> TransferStep {
    if t.attempts < t.policy.retries {
        TransferStep::RetryAfter(
            backoff_ms_spec(t.policy.base_backoff_ms as int, t.attempts as int) as u64,
        )
    } else {
        TransferStep::Fail(err)
    }
}

} // verus!
