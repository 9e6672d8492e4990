use orange_downloader::httpdriver::{
    HttpDriver, HttpDriverError, HttpExchange, RetryPolicy, Transfer, TransferStep,
};
use orange_downloader::model::ResourceType;

fn response(status: u16, body: &[u8]) -> HttpExchange {
    HttpExchange::Response { status, has_content_range: status == 206, body: body.to_vec() }
}

#[test]
fn driver_serves_http_like_resources_only() {
    let d = HttpDriver::new();
    assert!(d.supports(ResourceType::Http));
    assert!(d.supports(ResourceType::GitHubResolvedHttp));
    assert!(!d.supports(ResourceType::Ftp));
    assert!(!d.supports(ResourceType::BitTorrent));
}

#[test]
fn transient_statuses_are_the_retryable_ones() {
    assert!(HttpDriver::should_retry_status(429));
    assert!(HttpDriver::should_retry_status(408));
    assert!(HttpDriver::should_retry_status(500));
    assert!(HttpDriver::should_retry_status(599));
    assert!(!HttpDriver::should_retry_status(200));
    assert!(!HttpDriver::should_retry_status(404));
    assert!(!HttpDriver::should_retry_status(416));
    assert!(!HttpDriver::should_retry_status(600));
}

#[test]
fn backoff_doubles_and_caps() {
    assert_eq!(HttpDriver::backoff_delay_ms(100, 0), 100);
    assert_eq!(HttpDriver::backoff_delay_ms(100, 1), 200);
    assert_eq!(HttpDriver::backoff_delay_ms(100, 2), 400);
    assert_eq!(HttpDriver::backoff_delay_ms(100, 16), 30_000);
    assert_eq!(HttpDriver::backoff_delay_ms(100, 40), 30_000);
    // The base is clamped to at least one millisecond.
    assert_eq!(HttpDriver::backoff_delay_ms(0, 3), 8);
    assert_eq!(HttpDriver::backoff_delay_ms(40_000, 0), 30_000);
}

#[test]
fn probe_trusts_the_test_get_not_the_hint() {
    // A server may advertise ranges on HEAD yet answer the one-byte
    // test with 200: support is denied.
    assert_eq!(HttpDriver::probe_outcome(Some(10 * 1024 * 1024), 200, false), (
        Some(10 * 1024 * 1024),
        false,
    ));
    assert_eq!(HttpDriver::probe_outcome(Some(42), 206, true), (Some(42), true));
    // 206 without a Content-Range header is not confirmation.
    assert_eq!(HttpDriver::probe_outcome(Some(42), 206, false), (Some(42), false));
    assert_eq!(HttpDriver::probe_outcome(None, 206, true), (None, true));
}

#[test]
fn range_transfer_succeeds_after_transient_failures() {
    // Two 500s, then 206: with retries=2 and backoff=100 the waits are
    // 100 ms and 200 ms, and the third attempt returns the body.
    let mut t = Transfer::new(RetryPolicy { retries: 2, base_backoff_ms: 100 });
    assert_eq!(t.on_range_exchange(response(500, b"")), TransferStep::RetryAfter(100));
    assert_eq!(t.on_range_exchange(response(500, b"")), TransferStep::RetryAfter(200));
    assert_eq!(
        t.on_range_exchange(response(206, b"abcd")),
        TransferStep::Done(b"abcd".to_vec())
    );
}

#[test]
fn range_transfer_fails_when_budget_is_exhausted() {
    let mut t = Transfer::new(RetryPolicy { retries: 1, base_backoff_ms: 100 });
    assert_eq!(t.on_range_exchange(response(503, b"")), TransferStep::RetryAfter(100));
    assert_eq!(
        t.on_range_exchange(response(503, b"")),
        TransferStep::Fail(HttpDriverError::Status(503))
    );
}

#[test]
fn two_hundred_on_a_range_request_keeps_the_full_body() {
    let mut t = Transfer::new(RetryPolicy { retries: 2, base_backoff_ms: 100 });
    assert_eq!(
        t.on_range_exchange(response(200, b"whole file")),
        TransferStep::Fail(HttpDriverError::RangeIgnoredFull(b"whole file".to_vec()))
    );
}

#[test]
fn range_refusals_are_terminal() {
    let mut t = Transfer::new(RetryPolicy { retries: 2, base_backoff_ms: 100 });
    assert_eq!(
        t.on_range_exchange(response(416, b"")),
        TransferStep::Fail(HttpDriverError::RangeNotSupported)
    );
    // Other success codes are treated as refusal: safer than a corrupt
    // assembly.
    let mut t = Transfer::new(RetryPolicy { retries: 2, base_backoff_ms: 100 });
    assert_eq!(
        t.on_range_exchange(response(204, b"")),
        TransferStep::Fail(HttpDriverError::RangeNotSupported)
    );
    let mut t = Transfer::new(RetryPolicy { retries: 2, base_backoff_ms: 100 });
    assert_eq!(
        t.on_range_exchange(response(404, b"")),
        TransferStep::Fail(HttpDriverError::Status(404))
    );
}

#[test]
fn network_errors_retry_then_surface() {
    let mut t = Transfer::new(RetryPolicy { retries: 1, base_backoff_ms: 50 });
    let lost = HttpExchange::NetworkError { message: "connection reset".to_string() };
    assert_eq!(t.on_range_exchange(lost.clone()), TransferStep::RetryAfter(50));
    assert_eq!(
        t.on_range_exchange(lost),
        TransferStep::Fail(HttpDriverError::Network("connection reset".to_string()))
    );
}

#[test]
fn full_transfer_accepts_any_success() {
    let mut t = Transfer::new(RetryPolicy { retries: 2, base_backoff_ms: 100 });
    assert_eq!(t.on_full_exchange(response(503, b"")), TransferStep::RetryAfter(100));
    assert_eq!(t.on_full_exchange(response(200, b"xy")), TransferStep::Done(b"xy".to_vec()));
    let mut t = Transfer::new(RetryPolicy { retries: 0, base_backoff_ms: 100 });
    assert_eq!(
        t.on_full_exchange(response(404, b"")),
        TransferStep::Fail(HttpDriverError::Status(404))
    );
}
