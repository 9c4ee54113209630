use beiwagen::file_manager::build_target_filename;
use beiwagen::file_manager::get_filename_from_headers;
use beiwagen::file_manager::get_filename_from_url;
use beiwagen::file_manager::is_retryable;
use beiwagen::file_manager::FetchErrorKind;
use beiwagen::file_manager::FetchSession;
use beiwagen::file_manager::FetchState;
use beiwagen::file_manager::RetryPolicy;

#[test]
fn filename_comes_from_the_attachment_header() {
    assert_eq!(
        get_filename_from_headers("attachment; filename=\"pessima_awd.zip\""),
        Some("pessima_awd.zip".to_string())
    );
    assert_eq!(get_filename_from_headers("inline"), None);
    assert_eq!(get_filename_from_headers("attachment; filename=\""), None);
}

#[test]
fn filename_comes_from_the_delivery_url() {
    assert_eq!(
        get_filename_from_url(
            "https://cdn2.beamng.com/mods/30000/12345/pessima_awd.zip?md5=abc123&expires=1700000000"
        ),
        Some("pessima_awd.zip".to_string())
    );
    assert_eq!(
        get_filename_from_url("https://example.com/mods/1/2/pessima.zip?md5=a&expires=1"),
        None
    );
    assert_eq!(
        get_filename_from_url("https://cdn.beamng.com/mods/30000/12345/pessima_awd.zip"),
        Some("pessima_awd.zip".to_string())
    );
    assert_eq!(
        get_filename_from_url(
            "https://cdn2.beamng.com/mods/30000/12345/readme.txt?md5=abc&expires=1"
        ),
        None
    );
}

#[test]
fn the_header_wins_over_the_url() {
    let url = "https://cdn2.beamng.com/mods/30000/12345/from_url.zip?md5=abc&expires=1";
    assert_eq!(
        build_target_filename(Some("attachment; filename=\"from_header.zip\""), url),
        Some("from_header.zip".to_string())
    );
    assert_eq!(
        build_target_filename(None, url),
        Some("from_url.zip".to_string())
    );
    assert_eq!(build_target_filename(Some("inline"), url), None);
}

#[test]
fn backoff_grows_exponentially_and_saturates() {
    let policy = RetryPolicy {
        max_attempts: 5,
        base_delay_ms: 100,
        multiplier: 2,
    };
    assert_eq!(policy.delay_for(0), 100);
    assert_eq!(policy.delay_for(1), 200);
    assert_eq!(policy.delay_for(2), 400);
    assert_eq!(policy.delay_for(63), u64::MAX);
}

#[test]
fn only_transient_failures_are_retryable() {
    assert!(is_retryable(FetchErrorKind::Network));
    assert!(is_retryable(FetchErrorKind::Integrity));
    assert!(!is_retryable(FetchErrorKind::CatalogEntry));
    assert!(!is_retryable(FetchErrorKind::Filesystem));
}

#[test]
fn a_complete_transfer_is_verified() {
    let mut session = FetchSession::new();
    assert_eq!(session.state, FetchState::Probed);

    let name = session
        .resolve_filename(Some("attachment; filename=\"mod.zip\""), "")
        .unwrap();
    assert_eq!(name, "mod.zip".to_string());
    assert_eq!(session.state, FetchState::FilenameResolved);

    session.begin_transfer();
    assert_eq!(session.state, FetchState::Downloading);

    assert!(session.verify_transfer(1024, 1024).is_ok());
    assert_eq!(session.state, FetchState::Verified);
}

#[test]
fn a_short_transfer_is_an_integrity_failure_not_a_partial_success() {
    let mut session = FetchSession::new();
    session
        .resolve_filename(Some("attachment; filename=\"mod.zip\""), "")
        .unwrap();
    session.begin_transfer();

    let outcome = session.verify_transfer(1000, 1024);
    assert_eq!(outcome, Err(FetchErrorKind::Integrity));
    assert_eq!(session.state, FetchState::Failed);
}

#[test]
fn an_unresolvable_filename_is_fatal_for_the_resource() {
    let mut session = FetchSession::new();
    let outcome = session.resolve_filename(None, "https://example.com/not-a-cdn-url");
    assert_eq!(outcome, Err(FetchErrorKind::CatalogEntry));
    assert_eq!(session.state, FetchState::Failed);

    let policy = RetryPolicy {
        max_attempts: 3,
        base_delay_ms: 100,
        multiplier: 2,
    };
    assert_eq!(session.next_retry(&policy, FetchErrorKind::CatalogEntry), None);
    assert_eq!(session.state, FetchState::Failed);
}

#[test]
fn transient_failures_are_retried_until_the_attempts_run_out() {
    let policy = RetryPolicy {
        max_attempts: 3,
        base_delay_ms: 100,
        multiplier: 2,
    };
    let mut session = FetchSession::new();
    session.fail();

    assert_eq!(session.next_retry(&policy, FetchErrorKind::Network), Some(100));
    assert_eq!(session.state, FetchState::Probed);
    assert_eq!(session.attempts, 2);

    session.fail();
    assert_eq!(session.next_retry(&policy, FetchErrorKind::Network), Some(200));
    assert_eq!(session.attempts, 3);

    session.fail();
    assert_eq!(session.next_retry(&policy, FetchErrorKind::Network), None);
    assert_eq!(session.state, FetchState::Failed);
}
