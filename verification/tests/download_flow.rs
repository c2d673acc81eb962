//! The per-file download flow, snapshot planning, and the retry
//! policy.

use xet::download::first_error;
use xet::download::snapshot_permits;
use xet::download::FileAction;
use xet::download::FileDownloadTask;
use xet::download::FileEvent;
use xet::download::FileStep;
use xet::error::DownloadError;
use xet::error::XetErrorCode;
use xet::retry::AttemptOutcome;
use xet::retry::RetryDecision;
use xet::retry::RetryState;
use xet::xet_integration::ResponseHeaders;

fn task(enable_dedup: bool) -> FileDownloadTask {
    FileDownloadTask::new(
        "w.bin".to_string(),
        10,
        "/tmp/c/org--model/main/w.bin".to_string(),
        "https://hub.example/org/model/resolve/main/w.bin".to_string(),
        enable_dedup,
    )
}

fn xet_headers() -> ResponseHeaders {
    ResponseHeaders {
        xet_hash: Some("deadbeef".to_string()),
        link: Some(r#"<https://hub/xet-auth>; rel="xet-auth""#.to_string()),
        xet_refresh_route: None,
        cas_url: None,
        access_token: None,
        token_expiration: None,
    }
}

fn plain_headers() -> ResponseHeaders {
    ResponseHeaders {
        xet_hash: None,
        link: None,
        xet_refresh_route: None,
        cas_url: None,
        access_token: None,
        token_expiration: None,
    }
}

#[test]
fn cache_hit_short_circuits_without_network() {
    let mut t = task(true);
    let a = t.step(FileEvent::CancelPolled { cancelled: false });
    assert!(matches!(a, FileAction::ProbeCache));
    // The destination exists with the expected size: done, and no
    // network action was ever returned.
    let a = t.step(FileEvent::CacheProbe { exists: true, size: 10 });
    assert!(matches!(a, FileAction::Finish));
    assert!(matches!(t.step, FileStep::Done));
    assert_eq!(t.destination, "/tmp/c/org--model/main/w.bin");
}

#[test]
fn size_mismatch_goes_to_network() {
    let mut t = task(false);
    t.step(FileEvent::CancelPolled { cancelled: false });
    let a = t.step(FileEvent::CacheProbe { exists: true, size: 9 });
    assert!(matches!(a, FileAction::SendHead));
}

#[test]
fn cancellation_on_entry() {
    let mut t = task(true);
    let a = t.step(FileEvent::CancelPolled { cancelled: true });
    assert!(matches!(a, FileAction::Fail));
    match &t.step {
        FileStep::Failed { error } => assert_eq!(error.code().as_i32(), 7),
        _ => panic!("expected a failed flow"),
    }
}

#[test]
fn cancellation_mid_stream_stops_within_one_chunk() {
    let mut t = task(false);
    t.step(FileEvent::CancelPolled { cancelled: false });
    t.step(FileEvent::CacheProbe { exists: false, size: 0 });
    t.step(FileEvent::HeadDone { result: Ok(plain_headers()) });
    t.step(FileEvent::CancelPolled { cancelled: false });
    t.step(FileEvent::GetDone { result: Ok(Some(1048576)) });
    for _ in 0..4 {
        let a = t.step(FileEvent::Chunk { len: 65536, cancelled: false });
        assert!(matches!(a, FileAction::StoreChunk { len: 65536 }));
    }
    let a = t.step(FileEvent::Chunk { len: 65536, cancelled: true });
    assert!(matches!(a, FileAction::Fail));
    match &t.step {
        FileStep::Failed { error } => {
            assert!(matches!(error, DownloadError::Cancelled));
            assert_eq!(error.code().as_i32(), 7);
        },
        _ => panic!("expected a failed flow"),
    }
}

#[test]
fn dedup_failure_falls_back_to_plain_http() {
    let mut t = task(true);
    t.step(FileEvent::CancelPolled { cancelled: false });
    t.step(FileEvent::CacheProbe { exists: false, size: 0 });
    let a = t.step(FileEvent::HeadDone { result: Ok(xet_headers()) });
    match a {
        FileAction::TryXet { data } => {
            assert_eq!(data.file_hash, "deadbeef");
            assert_eq!(data.refresh_route, "https://hub/xet-auth");
        },
        _ => panic!("expected the dedup attempt"),
    }
    // The dedup path fails; the flow falls back silently.
    let a = t.step(FileEvent::XetDone { ok: false });
    assert!(matches!(a, FileAction::PollCancel));
    let a = t.step(FileEvent::CancelPolled { cancelled: false });
    assert!(matches!(a, FileAction::SendGet));
    let a = t.step(FileEvent::GetDone { result: Ok(Some(5)) });
    assert!(matches!(a, FileAction::ReadChunk));
    t.step(FileEvent::Chunk { len: 5, cancelled: false });
    let a = t.step(FileEvent::BodyEnd);
    assert!(matches!(a, FileAction::Finish));
    assert!(matches!(t.step, FileStep::Done));
}

#[test]
fn dedup_disabled_skips_xet_path() {
    let mut t = task(false);
    t.step(FileEvent::CancelPolled { cancelled: false });
    t.step(FileEvent::CacheProbe { exists: false, size: 0 });
    // Headers advertise dedup, but it is disabled.
    let a = t.step(FileEvent::HeadDone { result: Ok(xet_headers()) });
    assert!(matches!(a, FileAction::PollCancel));
}

#[test]
fn content_length_feeds_expected_total() {
    let mut t = task(false);
    t.step(FileEvent::CancelPolled { cancelled: false });
    t.step(FileEvent::CacheProbe { exists: false, size: 0 });
    t.step(FileEvent::HeadDone { result: Ok(plain_headers()) });
    t.step(FileEvent::CancelPolled { cancelled: false });
    t.step(FileEvent::GetDone { result: Ok(None) });
    match t.step {
        FileStep::Streaming { downloaded, expected_total } => {
            assert_eq!(downloaded, 0);
            // No Content-Length: the listing's size is used.
            assert_eq!(expected_total, 10);
        },
        _ => panic!("expected a streaming flow"),
    }
}

#[test]
fn head_failure_surfaces_as_is() {
    let mut t = task(true);
    t.step(FileEvent::CancelPolled { cancelled: false });
    t.step(FileEvent::CacheProbe { exists: false, size: 0 });
    let a = t.step(FileEvent::HeadDone {
        result: Err(DownloadError::HttpStatus {
            description: "head request".to_string(),
            attempts: 4,
            status: 500,
        }),
    });
    assert!(matches!(a, FileAction::Fail));
    match &t.step {
        FileStep::Failed { error } => {
            assert_eq!(error.code().as_i32(), 3);
            assert_eq!(error.message(), "head request failed after 4 attempts: HTTP 500");
        },
        _ => panic!("expected a failed flow"),
    }
}

#[test]
fn retry_bound_is_four_attempts_with_linear_backoff() {
    let mut retry = RetryState::new("download request".to_string());
    let mut delays = Vec::new();
    let error;
    loop {
        match retry.next(AttemptOutcome::HttpFailure { status: 503 }) {
            RetryDecision::Done => panic!("a failing request never finishes"),
            RetryDecision::RetryAfterMs { delay_ms } => delays.push(delay_ms),
            RetryDecision::GiveUp { error: e } => {
                error = e;
                break;
            },
        }
    }
    // One try plus three retries: four attempts, three delays.
    assert_eq!(delays, vec![200, 400, 600]);
    assert_eq!(error.message(), "download request failed after 4 attempts: HTTP 503");
    assert_eq!(error.code().as_i32(), 3);
}

#[test]
fn retry_stops_on_success() {
    let mut retry = RetryState::new("list files".to_string());
    assert!(matches!(
        retry.next(AttemptOutcome::TransportError { message: "reset".to_string() }),
        RetryDecision::RetryAfterMs { delay_ms: 200 }
    ));
    assert!(matches!(retry.next(AttemptOutcome::Success), RetryDecision::Done));
}

#[test]
fn transport_error_message_is_verbatim() {
    let mut retry = RetryState::new("list files".to_string());
    let mut last = None;
    for _ in 0..4 {
        last = Some(retry.next(AttemptOutcome::TransportError {
            message: "connection refused".to_string(),
        }));
    }
    match last.unwrap() {
        RetryDecision::GiveUp { error } => {
            assert_eq!(
                error.message(),
                "list files failed after 4 attempts: connection refused"
            );
        },
        _ => panic!("expected the operation to give up"),
    }
}

#[test]
fn permits_are_bounded_and_floored() {
    assert_eq!(snapshot_permits(3, 8), 3);
    assert_eq!(snapshot_permits(8, 3), 3);
    assert_eq!(snapshot_permits(0, 0), 1);
    assert_eq!(snapshot_permits(5, 0), 1);
    assert_eq!(snapshot_permits(0, 5), 1);
}

#[test]
fn first_error_returns_the_single_failure() {
    let results: Vec<Result<String, DownloadError>> = vec![
        Ok("a".to_string()),
        Err(DownloadError::Io { message: "disk full".to_string() }),
        Ok("c".to_string()),
    ];
    match first_error(&results) {
        Err(e) => {
            assert_eq!(e.code().as_i32(), 8);
            assert_eq!(e.message(), "disk full");
        },
        Ok(()) => panic!("expected the single failure to surface"),
    }

    let all_ok: Vec<Result<String, DownloadError>> = vec![Ok("a".to_string())];
    assert!(first_error(&all_ok).is_ok());

    let two: Vec<Result<String, DownloadError>> = vec![
        Err(DownloadError::Cancelled),
        Err(DownloadError::Io { message: "disk full".to_string() }),
    ];
    match first_error(&two) {
        Err(e) => assert_eq!(e.code().as_i32(), 7),
        Ok(()) => panic!("expected an error"),
    }
}
