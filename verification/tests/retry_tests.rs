use apk_downloader::{DownloadOutcome, DownloadSource, ErrorClass, RetryState};

#[test]
fn success_on_first_attempt() {
    let mut st = RetryState::new(DownloadSource::GooglePlay);
    assert!(st.should_attempt());
    st.record_attempt(Ok(()));
    assert_eq!(st.outcome(), Some(DownloadOutcome::Success));
    assert_eq!(st.attempts(), 1);
    assert!(!st.should_attempt());
}

#[test]
fn already_exists_skips_without_retry() {
    let mut st = RetryState::new(DownloadSource::GooglePlay);
    st.record_attempt(Err(ErrorClass::AlreadyExists));
    assert_eq!(st.outcome(), Some(DownloadOutcome::SkippedExisting));
    assert_eq!(st.attempts(), 1);
    assert!(!st.should_attempt());
}

#[test]
fn invalid_target_aborts_without_retry() {
    let mut st = RetryState::new(DownloadSource::GooglePlay);
    st.record_attempt(Err(ErrorClass::InvalidTarget));
    assert_eq!(st.outcome(), Some(DownloadOutcome::Aborted(ErrorClass::InvalidTarget)));
    assert_eq!(st.attempts(), 1);
    assert!(!st.should_attempt());
}

#[test]
fn transient_errors_retry_to_ceiling() {
    let mut st = RetryState::new(DownloadSource::GooglePlay);
    st.record_attempt(Err(ErrorClass::Other));
    assert_eq!(st.outcome(), None);
    assert!(st.should_attempt());
    st.record_attempt(Err(ErrorClass::Other));
    assert_eq!(st.outcome(), None);
    assert!(st.should_attempt());
    st.record_attempt(Err(ErrorClass::Other));
    assert_eq!(st.outcome(), Some(DownloadOutcome::Failed));
    assert_eq!(st.attempts(), 3);
    assert!(!st.should_attempt());
}

#[test]
fn success_after_two_transient_errors() {
    let mut st = RetryState::new(DownloadSource::GooglePlay);
    st.record_attempt(Err(ErrorClass::Other));
    st.record_attempt(Err(ErrorClass::Other));
    assert!(st.should_attempt());
    st.record_attempt(Ok(()));
    assert_eq!(st.outcome(), Some(DownloadOutcome::Success));
    assert_eq!(st.attempts(), 3);
}

#[test]
fn browser_backend_retries_every_error_class() {
    let mut st = RetryState::new(DownloadSource::APKPure);
    st.record_attempt(Err(ErrorClass::AlreadyExists));
    assert_eq!(st.outcome(), None);
    assert!(st.should_attempt());
    st.record_attempt(Err(ErrorClass::InvalidTarget));
    assert_eq!(st.outcome(), None);
    assert!(st.should_attempt());
    st.record_attempt(Err(ErrorClass::Other));
    assert_eq!(st.outcome(), Some(DownloadOutcome::Failed));
    assert!(!st.should_attempt());
}

#[test]
fn browser_backend_success_second_attempt() {
    let mut st = RetryState::new(DownloadSource::APKPure);
    st.record_attempt(Err(ErrorClass::Other));
    st.record_attempt(Ok(()));
    assert_eq!(st.outcome(), Some(DownloadOutcome::Success));
    assert_eq!(st.attempts(), 2);
    assert!(!st.should_attempt());
}
