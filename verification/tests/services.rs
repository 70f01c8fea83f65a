//! Rate limits, response routing, snapshots, remote account stores.

use smiths_sip::auth::digest::Algorithm;
use smiths_sip::auth::http_store::{
    algorithm_wire_token, interpret, Breaker, FailureMode, HttpAuthConfig, HttpAuthError,
    HttpAuthStore, LookupStep, WebhookReply,
};
use smiths_sip::auth::sqlite_store::{
    migration_sql, MigrationRunner, SqliteStoreError, CURRENT_SCHEMA_VERSION,
};
use smiths_sip::auth::{Credentials, RegistrationError};
use smiths_sip::rate_limit::{SipRateLimit, SipRateLimiter};
use smiths_sip::record::{DialogRecord, DialogState};
use smiths_sip::snapshot::{SnapshotError, SnapshotFile};
use smiths_sip::uas::server::UasServer;
use smiths_sip::{Error, ResponseRouter};

// -- rate limiter ------------------------------------------------------

#[test]
fn disabled_always_allows() {
    let mut lim = SipRateLimiter::disabled();
    for _ in 0..10_000 {
        assert!(lim.allow("10.0.0.1"));
    }
    assert_eq!(lim.tracked_sources(), 0, "disabled path must not touch map");
}

#[test]
fn burst_then_denies_until_refill() {
    let mut lim = SipRateLimiter::new(SipRateLimit {
        per_sec: 10,
        burst: 5,
    });
    let src = "10.0.0.1";
    for i in 0..5 {
        assert!(lim.allow(src), "burst token {i} must be allowed");
    }
    assert!(!lim.allow(src), "6th attempt must be denied");
}

#[test]
fn different_sources_have_independent_buckets() {
    let mut lim = SipRateLimiter::new(SipRateLimit {
        per_sec: 1,
        burst: 1,
    });
    assert!(lim.allow("10.0.0.1"));
    // Same address exhausted, different address unaffected.
    assert!(!lim.allow("10.0.0.1"));
    assert!(lim.allow("10.0.0.2"));
    assert_eq!(lim.tracked_sources(), 2);
}

#[test]
fn reconfigure_raises_thresholds_live() {
    let mut lim = SipRateLimiter::new(SipRateLimit {
        per_sec: 1,
        burst: 1,
    });
    let src = "10.0.0.1";
    assert!(lim.allow_at(src, 0));
    assert!(!lim.allow_at(src, 0), "bucket exhausted under old cap");
    lim.reconfigure(SipRateLimit {
        per_sec: 1_000,
        burst: 1_000,
    });
    assert_eq!(lim.rate_per_sec(), 1_000);
    assert_eq!(lim.burst(), 1_000);
    assert!(lim.allow_at(src, 10_000_000), "new rate should refill the bucket");
}

#[test]
fn reconfigure_to_zero_disables_limiter() {
    let mut lim = SipRateLimiter::new(SipRateLimit {
        per_sec: 1,
        burst: 1,
    });
    let src = "10.0.0.1";
    assert!(lim.allow(src));
    assert!(!lim.allow(src));
    lim.reconfigure(SipRateLimit::default());
    assert_eq!(lim.rate_per_sec(), 0);
    for _ in 0..1_000 {
        assert!(lim.allow(src), "disabled limiter must allow");
    }
}

#[test]
fn reconfigure_bare_per_sec_sets_burst_to_match() {
    let mut lim = SipRateLimiter::new(SipRateLimit {
        per_sec: 10,
        burst: 0,
    });
    assert_eq!(lim.burst(), 10);
    lim.reconfigure(SipRateLimit {
        per_sec: 25,
        burst: 0,
    });
    assert_eq!(lim.rate_per_sec(), 25);
    assert_eq!(lim.burst(), 25);
}

#[test]
fn bucket_refills_over_time() {
    let mut lim = SipRateLimiter::new(SipRateLimit {
        per_sec: 50,
        burst: 1,
    });
    let src = "10.0.0.1";
    assert!(lim.allow_at(src, 0));
    assert!(!lim.allow_at(src, 0));
    assert!(lim.allow_at(src, 40_000_000), "bucket should have refilled");
}

#[test]
fn a_token_takes_its_full_time_to_come_back() {
    // 50 tokens per second: one takes 20 ms.
    let mut lim = SipRateLimiter::new(SipRateLimit {
        per_sec: 50,
        burst: 1,
    });
    assert!(lim.allow_at("a", 0));
    assert!(!lim.allow_at("a", 19_999_999));
    assert!(lim.allow_at("a", 20_000_000));
}

// -- response router ---------------------------------------------------

#[test]
fn deliver_resolves_subscriber_and_keeps_subscription() {
    let mut r = ResponseRouter::new();
    let (id, replaced) = r.subscribe("br-1");
    assert_eq!(replaced, None);
    assert_eq!(r.route("br-1"), Some(id));
    assert!(r.deliver("br-1", true));
    assert!(r.deliver("br-1", true));
    assert_eq!(r.len(), 1, "delivery must not consume the subscription");
    r.cancel("br-1");
    assert!(r.is_empty());
    assert_eq!(r.route("br-1"), None);
}

#[test]
fn deliver_on_unknown_branch_returns_false() {
    let mut r = ResponseRouter::new();
    assert!(!r.deliver("nope", true));
}

#[test]
fn deliver_to_dropped_receiver_evicts_entry() {
    let mut r = ResponseRouter::new();
    let _ = r.subscribe("br-dead");
    assert!(!r.deliver("br-dead", false));
    assert!(r.is_empty(), "dead subscription must be evicted");
}

#[test]
fn cancel_drops_subscription() {
    let mut r = ResponseRouter::default();
    let _ = r.subscribe("br-2");
    r.cancel("br-2");
    assert!(r.is_empty());
}

#[test]
fn second_subscribe_replaces_first() {
    let mut r = ResponseRouter::new();
    let (first, _) = r.subscribe("br-3");
    let (second, replaced) = r.subscribe("br-3");
    assert_eq!(replaced, Some(first));
    assert_ne!(first, second);
    assert_eq!(r.route("br-3"), Some(second));
}

// -- snapshots ---------------------------------------------------------

fn record(call_id: &str, state: DialogState) -> DialogRecord {
    DialogRecord {
        call_id: call_id.into(),
        local_tag: "lt".into(),
        remote_tag: "rt".into(),
        state,
        peer_signal: "127.0.0.1:5060".into(),
        rendezvous: None,
        media: None,
        remote_media: None,
        pending_2xx: None,
        audio_codec: None,
        video_codec: None,
        ice: None,
        remote_target: None,
        route_set: Vec::new(),
        local_uri: None,
        remote_uri: None,
        local_cseq: 0,
        remote_cseq: None,
        transport: None,
        last_invite_branch: None,
        local_media: None,
        session_expires_secs: None,
    }
}

#[test]
fn write_then_read_round_trips_every_record() {
    let mut server = UasServer::new("127.0.0.1:5060", "UDP", false, 1);
    let n = server.restore_dialogs(vec![
        record("c1@x", DialogState::Early),
        record("c2@x", DialogState::Confirmed),
    ]);
    assert_eq!(n, 2);
    let snapshot = SnapshotFile::of(server.records());
    assert_eq!(snapshot.magic, "smiths-net/dialog-snapshot");
    assert_eq!(snapshot.version, 1);
    let restored = snapshot.accept().unwrap();
    assert_eq!(restored.len(), 2);
    let mut call_ids: Vec<String> = restored.iter().map(|r| r.call_id.clone()).collect();
    call_ids.sort();
    assert_eq!(call_ids, vec!["c1@x".to_string(), "c2@x".to_string()]);
    let mut again = UasServer::new("127.0.0.1:5060", "UDP", false, 1);
    assert_eq!(again.restore_dialogs(restored), 2);
    let key = ("c2@x".to_owned(), "lt".to_owned(), "rt".to_owned());
    assert_eq!(again.dialog(&key).unwrap().state, DialogState::Confirmed);
    assert_eq!(again.dialog_count(), 2);
}

#[test]
fn read_wrong_magic_returns_magic_mismatch() {
    let snapshot = SnapshotFile {
        magic: "other-tool".into(),
        version: 1,
        records: Vec::new(),
    };
    let err = snapshot.accept().unwrap_err();
    assert!(matches!(err, SnapshotError::MagicMismatch { .. }));
    assert_eq!(
        err.message(),
        "snapshot magic mismatch: expected \"smiths-net/dialog-snapshot\", got \"other-tool\""
    );
}

#[test]
fn read_future_version_refuses_loudly() {
    let snapshot = SnapshotFile {
        magic: "smiths-net/dialog-snapshot".into(),
        version: 99,
        records: Vec::new(),
    };
    let err = snapshot.accept().unwrap_err();
    assert!(matches!(err, SnapshotError::UnsupportedVersion(99)));
    assert_eq!(err.message(), "snapshot version 99 exceeds supported 1");
}

#[test]
fn snapshot_errors_become_errors_of_the_subsystem() {
    let e = SnapshotError::Io("disk full".into()).into_error();
    assert!(matches!(&e, Error::Other(m) if m == "snapshot I/O: disk full"));
    assert_eq!(SnapshotError::Serde("eof".into()).message(), "snapshot serde: eof");
}

#[test]
fn error_messages_name_their_kind() {
    assert_eq!(Error::Io("x".into()).message(), "transport I/O: x");
    assert_eq!(Error::Parse("x".into()).message(), "parse: x");
    assert_eq!(Error::Config("x".into()).message(), "config: x");
    assert_eq!(Error::other("x".into()).message(), "x");
}

// -- webhook accounts --------------------------------------------------

#[test]
fn breaker_trips_after_threshold_failures() {
    let mut b = Breaker::new(3, 60_000);
    assert!(b.gate().is_none());
    b.record_failure();
    b.record_failure();
    assert!(b.gate().is_none(), "below threshold stays Closed");
    b.record_failure();
    assert!(b.gate().is_some(), "threshold hit trips Open");
}

#[test]
fn breaker_success_resets_counter() {
    let mut b = Breaker::new(3, 60_000);
    b.record_failure();
    b.record_failure();
    b.record_success();
    b.record_failure();
    b.record_failure();
    assert!(b.gate().is_none(), "counter reset; need 3 more to trip");
    assert_eq!(b.consecutive_failures(), 2);
}

#[test]
fn algorithm_wire_token_roundtrips() {
    assert_eq!(algorithm_wire_token(Algorithm::Md5), "md5");
    assert_eq!(algorithm_wire_token(Algorithm::Sha256), "sha-256");
}

#[test]
fn default_config_is_fail_closed() {
    let cfg = HttpAuthConfig::default();
    assert_eq!(cfg.failure_mode, FailureMode::FailClosed);
    assert_eq!(cfg.timeout, 2_000);
    assert_eq!(cfg.breaker_threshold, 5);
    assert_eq!(cfg.retries, 1);
}

#[test]
fn breaker_closes_after_its_cooldown() {
    let mut b = Breaker::new(1, 60_000);
    b.record_failure_at(1_000);
    assert_eq!(b.gate_at(1_000), Some(60));
    assert_eq!(b.gate_at(1_059), Some(1));
    assert_eq!(b.gate_at(1_060), None);
}

#[test]
fn webhook_replies_are_read() {
    let accept = WebhookReply::Answer {
        code: 200,
        status: "accept".into(),
        ha1: Some("h".into()),
    };
    let c = interpret(accept, "r", "u").unwrap().unwrap();
    assert_eq!(c, Credentials::from_ha1("u", "r", "h"));
    let deny = WebhookReply::Answer {
        code: 200,
        status: "deny".into(),
        ha1: None,
    };
    assert!(interpret(deny, "r", "u").unwrap().is_none());
    let bare = WebhookReply::Answer {
        code: 200,
        status: "accept".into(),
        ha1: None,
    };
    assert_eq!(
        interpret(bare, "r", "u").unwrap_err().message(),
        "malformed response: accept response missing `ha1`"
    );
    let odd = WebhookReply::Answer {
        code: 200,
        status: "maybe".into(),
        ha1: None,
    };
    assert_eq!(
        interpret(odd, "r", "u").unwrap_err().message(),
        "malformed response: unknown status `maybe` (expected accept|deny)"
    );
    let down = WebhookReply::Unreadable {
        code: 503,
        why: "html".into(),
    };
    assert!(matches!(
        interpret(down, "r", "u").unwrap_err(),
        HttpAuthError::HttpStatus { code: 503 }
    ));
    assert!(matches!(
        interpret(WebhookReply::Failed("refused".into()), "r", "u").unwrap_err(),
        HttpAuthError::Transport(_)
    ));
}

#[test]
fn lookups_are_retried_and_counted_once() {
    let config = HttpAuthConfig {
        breaker_threshold: 1,
        ..HttpAuthConfig::default()
    };
    let mut store = HttpAuthStore::new(config);
    assert!(matches!(store.start_at(100), LookupStep::Ask));
    let fail = || Err(HttpAuthError::Transport("down".into()));
    assert!(matches!(store.after_attempt(0, fail(), 100), LookupStep::Ask));
    assert_eq!(store.consecutive_failures(), 0);
    assert!(matches!(
        store.after_attempt(1, fail(), 100),
        LookupStep::Done(Err(_))
    ));
    assert_eq!(store.consecutive_failures(), 1);
    assert!(matches!(
        store.start_at(100),
        LookupStep::Done(Err(HttpAuthError::BreakerOpen { .. }))
    ));
    assert!(matches!(
        store.after_attempt(0, Ok(None), 100),
        LookupStep::Done(Ok(None))
    ));
    assert_eq!(store.consecutive_failures(), 0);
    assert!(!store.is_breaker_open());
}

// -- account database --------------------------------------------------

#[test]
fn fresh_stores_run_every_migration_once() {
    let pending = MigrationRunner::pending(0).unwrap();
    assert_eq!(pending, vec![1]);
    assert_eq!(MigrationRunner::version_after(0, &pending), CURRENT_SCHEMA_VERSION);
    assert!(MigrationRunner::pending(CURRENT_SCHEMA_VERSION).unwrap().is_empty());
    assert!(migration_sql(1).unwrap().contains("CREATE TABLE"));
    assert!(migration_sql(2).is_none());
}

#[test]
fn newer_databases_are_refused() {
    let err = MigrationRunner::pending(CURRENT_SCHEMA_VERSION + 1).unwrap_err();
    let text = err.message();
    assert!(text.contains('2'), "{text}");
    assert!(matches!(err, SqliteStoreError::SchemaTooNew { .. }));
    assert!(matches!(
        err.into_registration_error(),
        RegistrationError::Backend(_)
    ));
}

#[test]
fn every_http_status_but_200_is_a_failure() {
    let created = WebhookReply::Answer {
        code: 201,
        status: "accept".into(),
        ha1: Some("h".into()),
    };
    assert_eq!(
        interpret(created, "r", "u").unwrap_err().message(),
        "unexpected HTTP 201"
    );
}

#[test]
fn foreign_tags_are_escaped_in_the_message() {
    let snapshot = SnapshotFile {
        magic: "a\"b\\c".into(),
        version: 1,
        records: Vec::new(),
    };
    assert_eq!(
        snapshot.accept().unwrap_err().message(),
        "snapshot magic mismatch: expected \"smiths-net/dialog-snapshot\", got \"a\\\"b\\\\c\""
    );
}

#[test]
fn the_breaker_counts_failures_at_any_times() {
    let mut b = Breaker::new(3, 30_000);
    b.record_failure_at(100);
    b.record_failure_at(250);
    assert_eq!(b.gate_at(251), None);
    b.record_failure_at(900);
    assert_eq!(b.gate_at(905), Some(25));
    assert_eq!(b.gate_at(930), None);
    b.record_failure_at(931);
    assert_eq!(b.gate_at(931), Some(30));
}
