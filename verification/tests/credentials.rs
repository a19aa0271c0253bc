use multistorageclient::credentials::{
    get_credentials, resolve_expiry, CacheStep, CachedAwsCredential, Credential,
    CredentialCache, CredentialDescriptor, DEFAULT_REFRESH_CREDENTIALS_THRESHOLD,
};
use multistorageclient::time::{parse_instant, Timestamp};

fn now() -> Timestamp {
    let t = chrono::Utc::now();
    Timestamp { secs: t.timestamp(), nanos: t.timestamp_subsec_nanos() }
}

fn at(secs: i64) -> Timestamp {
    Timestamp { secs, nanos: 0 }
}

fn credential(key: &str) -> Credential {
    Credential { key_id: key.to_string(), secret_key: "secret".to_string(), token: None }
}

fn descriptor(
    access_key: &str,
    secret_key: &str,
    token: Option<&str>,
    expiration: Option<&str>,
) -> CredentialDescriptor {
    CredentialDescriptor {
        access_key: access_key.to_string(),
        secret_key: secret_key.to_string(),
        token: token.map(|s| s.to_string()),
        expiration: expiration.map(|s| s.to_string()),
    }
}

#[test]
fn test_cached_credential_creation() {
    let credential = Credential {
        key_id: "test_key".to_string(),
        secret_key: "test_secret".to_string(),
        token: Some("test_token".to_string()),
    };

    let cached = CachedAwsCredential {
        credential: credential.duplicate(),
        expire_time: now().saturating_add_seconds(3600),
    };

    assert_eq!(cached.credential.key_id, "test_key");
    assert_eq!(cached.credential.secret_key, "test_secret");
    assert_eq!(cached.credential.token, Some("test_token".to_string()));
}

#[test]
fn test_should_refresh_expired() {
    let provider = CredentialCache::new(Some(900));

    let credential = Credential {
        key_id: "test".to_string(),
        secret_key: "test".to_string(),
        token: None,
    };

    // Already expired
    let cached = CachedAwsCredential {
        credential,
        expire_time: now().saturating_add_seconds(-3600),
    };

    assert!(provider.should_refresh(&cached, now()));
}

#[test]
fn test_get_credentials_from_python() {
    let fetched = descriptor(
        "test_access",
        "test_secret",
        Some("test_token"),
        Some("2025-12-31T23:59:59Z"),
    );

    let cached = get_credentials(fetched, now());

    assert_eq!(cached.credential.key_id, "test_access");
    assert_eq!(cached.credential.secret_key, "test_secret");
    assert_eq!(cached.credential.token, Some("test_token".to_string()));
    assert_eq!(cached.expire_time, Timestamp { secs: 1767225599, nanos: 0 });
}

#[test]
fn test_refresh_credentials_succeeds() {
    let mut provider = CredentialCache::new(None);
    let current = at(1_767_225_600 - 10);

    // What the source holds before the refresh is about to expire.
    let stale = get_credentials(
        descriptor("stale_access", "stale_secret", None, Some("2026-01-01T00:00:00Z")),
        current,
    );
    assert!(matches!(provider.accept(stale, current, false), CacheStep::RefreshThenFetch));
    assert!(provider.is_empty());

    // Then get credentials should return fresh credentials
    let refreshed = get_credentials(
        descriptor(
            "refreshed_access",
            "refreshed_secret",
            Some("refreshed_token"),
            Some("2026-01-01T00:00:00Z"),
        ),
        current,
    );
    assert_eq!(refreshed.credential.key_id, "refreshed_access");
    match provider.accept(refreshed, current, true) {
        CacheStep::Serve(c) => {
            assert_eq!(c.key_id, "refreshed_access");
            assert_eq!(c.secret_key, "refreshed_secret");
            assert_eq!(c.token, Some("refreshed_token".to_string()));
        }
        _ => panic!("a credential fetched after a refresh is served"),
    }
    assert!(!provider.is_empty());
}

#[test]
fn the_default_threshold_is_fifteen_minutes() {
    assert_eq!(DEFAULT_REFRESH_CREDENTIALS_THRESHOLD, 900);
    assert_eq!(CredentialCache::new(None).refresh_threshold(), 900);
    assert_eq!(CredentialCache::new(Some(60)).refresh_threshold(), 60);
}

#[test]
fn a_fresh_credential_is_served_without_the_source() {
    // Expires 1000 s from the start, threshold 900 s.
    let start = 5_000i64;
    let mut cache = CredentialCache::new(Some(900));
    assert!(matches!(cache.lookup(at(start)), CacheStep::Fetch));
    let fetched = CachedAwsCredential { credential: credential("k1"), expire_time: at(start + 1000) };
    assert!(matches!(cache.accept(fetched, at(start), false), CacheStep::Serve(_)));

    match cache.lookup(at(start + 50)) {
        CacheStep::Serve(c) => assert_eq!(c.key_id, "k1"),
        _ => panic!("expected the cached credential"),
    }
    // Any number of checks, and the cache stays as it is.
    for _ in 0..5 {
        assert!(matches!(cache.lookup(at(start + 99)), CacheStep::Serve(_)));
    }
}

#[test]
fn a_credential_near_expiry_is_fetched_once_for_all_callers() {
    let start = 5_000i64;
    let mut cache = CredentialCache::new(Some(900));
    let first = CachedAwsCredential { credential: credential("k1"), expire_time: at(start + 1000) };
    assert!(matches!(cache.accept(first, at(start), false), CacheStep::Serve(_)));

    // At start + 950 every caller's first check says that the source has to
    // be asked.
    let callers = 8;
    let mut source_calls = 0;
    for _ in 0..callers {
        assert!(matches!(cache.lookup(at(start + 950)), CacheStep::Fetch));
    }
    // They take turns holding the cache exclusively and check again.
    for _ in 0..callers {
        match cache.lookup(at(start + 950)) {
            CacheStep::Serve(c) => assert_eq!(c.key_id, "k2"),
            CacheStep::Fetch => {
                source_calls += 1;
                let renewed = CachedAwsCredential {
                    credential: credential("k2"),
                    expire_time: at(start + 950 + 3600),
                };
                match cache.accept(renewed, at(start + 950), false) {
                    CacheStep::Serve(c) => assert_eq!(c.key_id, "k2"),
                    _ => panic!("a fresh credential is served"),
                }
            }
            CacheStep::RefreshThenFetch => panic!("a check never asks for a refresh"),
        }
    }
    assert_eq!(source_calls, 1);
}

#[test]
fn freshness_ends_at_the_threshold() {
    let cache = CredentialCache::new(Some(900));
    let cached = CachedAwsCredential { credential: credential("k"), expire_time: at(10_000) };
    assert!(!cache.should_refresh(&cached, at(9_099)));
    assert!(!cache.should_refresh(&cached, Timestamp { secs: 9_099, nanos: 999_999_999 }));
    assert!(cache.should_refresh(&cached, at(9_100)));
    assert!(cache.should_refresh(&cached, at(9_101)));
    let with_nanos =
        CachedAwsCredential { credential: credential("k"), expire_time: Timestamp { secs: 10_000, nanos: 500 } };
    assert!(!cache.should_refresh(&with_nanos, Timestamp { secs: 9_100, nanos: 499 }));
    assert!(cache.should_refresh(&with_nanos, Timestamp { secs: 9_100, nanos: 500 }));
}

#[test]
fn a_huge_threshold_does_not_overflow() {
    let cache = CredentialCache::new(Some(i64::MAX));
    let cached = CachedAwsCredential { credential: credential("k"), expire_time: at(i64::MIN) };
    assert!(cache.should_refresh(&cached, at(i64::MIN)));
    let never = CredentialCache::new(Some(i64::MIN));
    let late = CachedAwsCredential { credential: credential("k"), expire_time: at(i64::MAX) };
    assert!(!never.should_refresh(&late, at(i64::MAX)));
}

#[test]
fn a_stale_fetch_is_refreshed_once_and_then_stored() {
    let mut cache = CredentialCache::new(Some(900));
    let stale = CachedAwsCredential { credential: credential("old"), expire_time: at(1_100) };
    assert!(matches!(cache.accept(stale, at(1_000), false), CacheStep::RefreshThenFetch));
    assert!(cache.is_empty());
    // The second fetch is stored even if it is stale as well.
    let still_stale = CachedAwsCredential { credential: credential("new"), expire_time: at(1_100) };
    match cache.accept(still_stale, at(1_000), true) {
        CacheStep::Serve(c) => assert_eq!(c.key_id, "new"),
        _ => panic!("the credential fetched after a refresh is served"),
    }
    assert!(!cache.is_empty());
    assert!(matches!(cache.lookup(at(1_000)), CacheStep::Fetch));
}

#[test]
fn expiry_defaults() {
    let start = at(1_000);
    assert_eq!(
        resolve_expiry(&Some("2025-12-31T23:59:59Z".to_string()), start),
        Timestamp { secs: 1767225599, nanos: 0 }
    );
    assert_eq!(
        resolve_expiry(&Some("1996-12-19T16:39:57.25-08:00".to_string()), start),
        Timestamp { secs: 851042397, nanos: 250_000_000 }
    );
    // An expiration that cannot be read: one hour.
    assert_eq!(resolve_expiry(&Some("tomorrow".to_string()), start), at(1_000 + 3600));
    assert_eq!(resolve_expiry(&Some(String::new()), start), at(1_000 + 3600));
    // No expiration: 365 days.
    assert_eq!(resolve_expiry(&None, start), at(1_000 + 365 * 24 * 3600));
    // At the end of time the sum is held at the last second.
    assert_eq!(resolve_expiry(&None, at(i64::MAX - 5)), at(i64::MAX));
}

#[test]
fn parse_instant_reads_rfc3339() {
    assert_eq!(parse_instant("1970-01-01T00:00:00Z"), Some(Timestamp::epoch()));
    assert_eq!(parse_instant("1970-01-01T01:00:00+01:00"), Some(Timestamp::epoch()));
    assert_eq!(parse_instant("2026-01-01T00:00:00Z"), Some(at(1_767_225_600)));
    assert_eq!(parse_instant("2026-01-01"), None);
    assert_eq!(parse_instant("2026-01-01T00:00:00"), None);
}

#[test]
fn timestamps_compare_by_seconds_then_nanoseconds() {
    let a = Timestamp { secs: 5, nanos: 10 };
    assert!(Timestamp { secs: 6, nanos: 0 }.later_than(&a));
    assert!(Timestamp { secs: 5, nanos: 11 }.later_than(&a));
    assert!(!a.later_than(&a));
    assert!(!Timestamp { secs: 4, nanos: 999 }.later_than(&a));
    assert!(Timestamp { secs: 3, nanos: 11 }.later_than_seconds_before(&a, 2));
    assert!(!Timestamp { secs: 3, nanos: 10 }.later_than_seconds_before(&a, 2));
    assert!(Timestamp { secs: 3, nanos: 9 }.earlier_than_seconds_before(&a, 2));
    assert!(!Timestamp { secs: 3, nanos: 10 }.earlier_than_seconds_before(&a, 2));
    assert_eq!(a.saturating_add_seconds(-7), Timestamp { secs: -2, nanos: 10 });
    assert_eq!(
        Timestamp { secs: i64::MIN + 1, nanos: 3 }.saturating_add_seconds(-9),
        Timestamp { secs: i64::MIN, nanos: 3 }
    );
}
