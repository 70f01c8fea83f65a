//! Accounts, digests and the registrar.

use smiths_sip::auth::digest::{
    ha1, ha2, parse_authorization, response_no_qop, response_qop_auth, Algorithm, AuthError,
    Registrar,
};
use smiths_sip::auth::{
    Binding, CredentialStore, Credentials, InMemoryCredentialStore, InMemoryRegistrationStore,
    RegistrationError, RegistrationStore,
};

fn creds(u: &str) -> Credentials {
    Credentials::new(u, "smiths.local", "s3cret")
}

/// `name="value"` in a challenge.
fn extract_param(header: &str, name: &str) -> Option<String> {
    let needle = format!("{name}=\"");
    let start = header.find(&needle)? + needle.len();
    let end = header[start..].find('"')? + start;
    Some(header[start..end].to_owned())
}

fn registrar_with(user: &str, pass: &str) -> Registrar<InMemoryCredentialStore> {
    let mut store = InMemoryCredentialStore::new();
    store.insert(Credentials::new(user, "smiths.local", pass));
    Registrar::new("smiths.local", store)
}

fn qop_header(alg: Algorithm, user: &str, pass: &str, nonce: &str, nc: &str) -> String {
    let uri = "sip:smiths.local";
    let h1 = ha1(alg, user, "smiths.local", pass);
    let h2 = ha2(alg, "REGISTER", uri);
    let resp = response_qop_auth(alg, &h1, nonce, nc, "cnonce-1", &h2);
    format!(
        "Digest username=\"{user}\", realm=\"smiths.local\", \
         nonce=\"{nonce}\", uri=\"{uri}\", response=\"{resp}\", \
         algorithm={alg}, qop=auth, nc={nc}, cnonce=\"cnonce-1\"",
        alg = alg.as_str()
    )
}

fn no_qop_header(user: &str, pass: &str, nonce: &str) -> String {
    let uri = "sip:smiths.local";
    let h1 = ha1(Algorithm::Md5, user, "smiths.local", pass);
    let h2 = ha2(Algorithm::Md5, "REGISTER", uri);
    let resp = response_no_qop(Algorithm::Md5, &h1, nonce, &h2);
    format!(
        "Digest username=\"{user}\", realm=\"smiths.local\", \
         nonce=\"{nonce}\", uri=\"{uri}\", response=\"{resp}\", algorithm=MD5"
    )
}

// -- accounts ----------------------------------------------------------

#[test]
fn auth_insert_then_lookup() {
    let mut store = InMemoryCredentialStore::new();
    assert!(store.is_empty());
    store.insert(creds("alice"));
    assert_eq!(store.len(), 1);
    let got = store.lookup("smiths.local", "alice").unwrap();
    assert_eq!(got.password, "s3cret");
}

#[test]
fn auth_miss_returns_none() {
    let store = InMemoryCredentialStore::new();
    assert!(store.lookup("smiths.local", "ghost").is_none());
}

#[test]
fn auth_remove_evicts() {
    let mut store = InMemoryCredentialStore::new();
    store.insert(creds("bob"));
    assert!(store.remove("smiths.local", "bob").is_some());
    assert!(store.lookup("smiths.local", "bob").is_none());
}

#[test]
fn mod_insert_then_lookup() {
    let mut store = InMemoryCredentialStore::new();
    assert!(store.is_empty());
    store.insert(creds("alice"));
    assert_eq!(store.len(), 1);
    let got = store.lookup("smiths.local", "alice").unwrap();
    assert_eq!(got.password, "s3cret");
}

#[test]
fn mod_miss_returns_none() {
    let store = InMemoryCredentialStore::new();
    assert!(store.lookup("smiths.local", "ghost").is_none());
}

#[test]
fn mod_remove_evicts() {
    let mut store = InMemoryCredentialStore::new();
    store.insert(creds("bob"));
    assert!(store.remove("smiths.local", "bob").is_some());
    assert!(store.lookup("smiths.local", "bob").is_none());
}

#[test]
fn default_lookup_for_ignores_algorithm() {
    let mut store = InMemoryCredentialStore::new();
    store.insert(creds("carol"));
    let md5 = store.lookup_for("smiths.local", "carol", Algorithm::Md5).unwrap();
    let sha = store.lookup_for("smiths.local", "carol", Algorithm::Sha256).unwrap();
    assert_eq!(md5, sha);
}

#[test]
fn accounts_are_kept_apart() {
    let mut store = InMemoryCredentialStore::default();
    store.insert(Credentials::new("alice", "a.example", "one"));
    store.insert(Credentials::new("alice", "b.example", "two"));
    store.insert(Credentials::new("alice", "a.example", "three"));
    assert_eq!(store.len(), 2);
    assert_eq!(store.find("a.example", "alice").unwrap().password, "three");
    assert_eq!(store.find("b.example", "alice").unwrap().password, "two");
    assert!(store.remove("a.example", "bob").is_none());
    assert_eq!(store.len(), 2);
}

#[test]
fn credentials_with_a_hash_have_no_password() {
    let c = Credentials::from_ha1("alice", "smiths.local", "abc");
    assert_eq!(c.password, "");
    assert_eq!(c.ha1.as_deref(), Some("abc"));
}

// -- digests -----------------------------------------------------------

#[test]
fn auth_rfc2617_no_qop_vector() {
    let user = "Mufasa";
    let pass = "Circle Of Life";
    let realm = "testrealm@host.com";
    let nonce = "dcd98b7102dd2f0e8b11d0f600bfb0c093";
    let method = "GET";
    let uri = "/dir/index.html";

    let h1 = ha1(Algorithm::Md5, user, realm, pass);
    assert_eq!(h1, "939e7578ed9e3c518a452acee763bce9");
    let h2 = ha2(Algorithm::Md5, method, uri);
    assert_eq!(h2, "39aff3a2bab6126f332b942af96d3366");
    let resp = response_no_qop(Algorithm::Md5, &h1, nonce, &h2);
    assert_eq!(resp, "670fd8c2df070c60b045671b8b24ff02");
}

#[test]
fn auth_rfc2617_qop_auth_vector() {
    let user = "Mufasa";
    let pass = "Circle Of Life";
    let realm = "testrealm@host.com";
    let nonce = "dcd98b7102dd2f0e8b11d0f600bfb0c093";
    let cnonce = "0a4f113b";
    let nc = "00000001";
    let method = "GET";
    let uri = "/dir/index.html";

    let h1 = ha1(Algorithm::Md5, user, realm, pass);
    let h2 = ha2(Algorithm::Md5, method, uri);
    let resp = response_qop_auth(Algorithm::Md5, &h1, nonce, nc, cnonce, &h2);
    assert_eq!(resp, "6629fae49393a05397450978507c4ef1");
}

#[test]
fn mod_rfc2617_no_qop_vector() {
    let user = "Mufasa";
    let pass = "Circle Of Life";
    let realm = "testrealm@host.com";
    let nonce = "dcd98b7102dd2f0e8b11d0f600bfb0c093";
    let method = "GET";
    let uri = "/dir/index.html";

    let h1 = ha1(Algorithm::Md5, user, realm, pass);
    assert_eq!(h1, "939e7578ed9e3c518a452acee763bce9");
    let h2 = ha2(Algorithm::Md5, method, uri);
    assert_eq!(h2, "39aff3a2bab6126f332b942af96d3366");
    let resp = response_no_qop(Algorithm::Md5, &h1, nonce, &h2);
    assert_eq!(resp, "670fd8c2df070c60b045671b8b24ff02");
}

#[test]
fn mod_rfc2617_qop_auth_vector() {
    let user = "Mufasa";
    let pass = "Circle Of Life";
    let realm = "testrealm@host.com";
    let nonce = "dcd98b7102dd2f0e8b11d0f600bfb0c093";
    let cnonce = "0a4f113b";
    let nc = "00000001";
    let method = "GET";
    let uri = "/dir/index.html";

    let h1 = ha1(Algorithm::Md5, user, realm, pass);
    let h2 = ha2(Algorithm::Md5, method, uri);
    let resp = response_qop_auth(Algorithm::Md5, &h1, nonce, nc, cnonce, &h2);
    assert_eq!(resp, "6629fae49393a05397450978507c4ef1");
}

#[test]
fn sha256_digest_of_a_known_account() {
    assert_eq!(
        ha1(Algorithm::Sha256, "a", "b", "c"),
        "b0ee04f880c4ff4261479e2e7822b7410aee4c7159f4185ad5b0d88a312b495e"
    );
}

#[test]
fn auth_parse_authorization_quoted_and_unquoted() {
    let hdr = r#"Digest username="alice", realm="smiths.local", nonce="abc", uri="sip:smiths.local", response="deadbeef", algorithm=MD5, qop=auth, nc=00000001, cnonce="xyz""#;
    let p = parse_authorization(hdr).unwrap();
    assert_eq!(p.username, "alice");
    assert_eq!(p.realm, "smiths.local");
    assert_eq!(p.nonce, "abc");
    assert_eq!(p.uri, "sip:smiths.local");
    assert_eq!(p.response, "deadbeef");
    assert_eq!(p.algorithm.as_deref(), Some("MD5"));
    assert_eq!(p.qop.as_deref(), Some("auth"));
    assert_eq!(p.nc.as_deref(), Some("00000001"));
    assert_eq!(p.cnonce.as_deref(), Some("xyz"));
}

#[test]
fn auth_parse_authorization_rejects_non_digest() {
    assert!(parse_authorization("Basic YWxpY2U6c2VjcmV0").is_none());
}

#[test]
fn mod_parse_authorization_quoted_and_unquoted() {
    let hdr = r#"Digest username="alice", realm="smiths.local", nonce="abc", uri="sip:smiths.local", response="deadbeef", algorithm=MD5, qop=auth, nc=00000001, cnonce="xyz""#;
    let p = parse_authorization(hdr).unwrap();
    assert_eq!(p.username, "alice");
    assert_eq!(p.realm, "smiths.local");
    assert_eq!(p.nonce, "abc");
    assert_eq!(p.uri, "sip:smiths.local");
    assert_eq!(p.response, "deadbeef");
    assert_eq!(p.algorithm.as_deref(), Some("MD5"));
    assert_eq!(p.qop.as_deref(), Some("auth"));
    assert_eq!(p.nc.as_deref(), Some("00000001"));
    assert_eq!(p.cnonce.as_deref(), Some("xyz"));
}

#[test]
fn mod_parse_authorization_rejects_non_digest() {
    assert!(parse_authorization("Basic YWxpY2U6c2VjcmV0").is_none());
}

#[test]
fn algorithm_tokens_round_trip() {
    assert_eq!(Algorithm::parse(Algorithm::Md5.as_str()), Some(Algorithm::Md5));
    assert_eq!(Algorithm::parse(Algorithm::Sha256.as_str()), Some(Algorithm::Sha256));
    assert_eq!(Algorithm::parse(""), Some(Algorithm::Md5));
    assert_eq!(Algorithm::parse("sha-512-256"), None);
}

// -- registrar ---------------------------------------------------------

#[test]
fn auth_registrar_round_trip_md5() {
    let mut store = InMemoryCredentialStore::new();
    store.insert(Credentials::new("alice", "smiths.local", "s3cret"));
    let mut reg = Registrar::new("smiths.local", store);

    let challenge = reg.challenge(Algorithm::Md5, false);
    let nonce = extract_param(&challenge, "nonce").unwrap();

    let method = "REGISTER";
    let uri = "sip:smiths.local";
    let h1 = ha1(Algorithm::Md5, "alice", "smiths.local", "s3cret");
    let h2 = ha2(Algorithm::Md5, method, uri);
    let resp = response_qop_auth(Algorithm::Md5, &h1, &nonce, "00000001", "cnonce-1", &h2);

    let hdr = format!(
        "Digest username=\"alice\", realm=\"smiths.local\", \
         nonce=\"{nonce}\", uri=\"{uri}\", response=\"{resp}\", \
         algorithm=MD5, qop=auth, nc=00000001, cnonce=\"cnonce-1\""
    );
    let user = reg.authenticate(method, uri, &hdr).unwrap();
    assert_eq!(user, "alice");
}

#[test]
fn auth_registrar_round_trip_sha256() {
    let mut store = InMemoryCredentialStore::new();
    store.insert(Credentials::new("bob", "smiths.local", "hunter2"));
    let mut reg = Registrar::new("smiths.local", store);
    let challenge = reg.challenge(Algorithm::Sha256, false);
    let nonce = extract_param(&challenge, "nonce").unwrap();
    let method = "REGISTER";
    let uri = "sip:smiths.local";
    let h1 = ha1(Algorithm::Sha256, "bob", "smiths.local", "hunter2");
    let h2 = ha2(Algorithm::Sha256, method, uri);
    let resp = response_qop_auth(Algorithm::Sha256, &h1, &nonce, "00000001", "c", &h2);
    let hdr = format!(
        "Digest username=\"bob\", realm=\"smiths.local\", \
         nonce=\"{nonce}\", uri=\"{uri}\", response=\"{resp}\", \
         algorithm=SHA-256, qop=auth, nc=00000001, cnonce=\"c\""
    );
    assert_eq!(reg.authenticate(method, uri, &hdr).unwrap(), "bob");
}

#[test]
fn auth_registrar_bad_password_fails() {
    let mut store = InMemoryCredentialStore::new();
    store.insert(Credentials::new("alice", "smiths.local", "right"));
    let mut reg = Registrar::new("smiths.local", store);
    let challenge = reg.challenge(Algorithm::Md5, false);
    let nonce = extract_param(&challenge, "nonce").unwrap();
    let h1 = ha1(Algorithm::Md5, "alice", "smiths.local", "wrong");
    let h2 = ha2(Algorithm::Md5, "REGISTER", "sip:smiths.local");
    let resp = response_qop_auth(Algorithm::Md5, &h1, &nonce, "00000001", "c", &h2);
    let hdr = format!(
        "Digest username=\"alice\", realm=\"smiths.local\", \
         nonce=\"{nonce}\", uri=\"sip:smiths.local\", response=\"{resp}\", \
         algorithm=MD5, qop=auth, nc=00000001, cnonce=\"c\""
    );
    assert_eq!(
        reg.authenticate("REGISTER", "sip:smiths.local", &hdr),
        Err(AuthError::BadResponse)
    );
}

#[test]
fn auth_registrar_unknown_user_fails() {
    let store = InMemoryCredentialStore::new();
    let mut reg = Registrar::new("smiths.local", store);
    let challenge = reg.challenge(Algorithm::Md5, false);
    let nonce = extract_param(&challenge, "nonce").unwrap();
    let hdr = format!(
        "Digest username=\"ghost\", realm=\"smiths.local\", \
         nonce=\"{nonce}\", uri=\"sip:x\", response=\"0\", \
         algorithm=MD5, qop=auth, nc=00000001, cnonce=\"c\""
    );
    assert_eq!(
        reg.authenticate("REGISTER", "sip:x", &hdr),
        Err(AuthError::UnknownUser)
    );
}

#[test]
fn registrar_stale_nonce_fails() {
    let mut store = InMemoryCredentialStore::new();
    store.insert(Credentials::new("alice", "smiths.local", "p"));
    let mut reg = Registrar::new("smiths.local", store);
    // Never issued this nonce.
    let h1 = ha1(Algorithm::Md5, "alice", "smiths.local", "p");
    let h2 = ha2(Algorithm::Md5, "REGISTER", "sip:smiths.local");
    let resp = response_qop_auth(Algorithm::Md5, &h1, "fake", "00000001", "c", &h2);
    let hdr = format!(
        "Digest username=\"alice\", realm=\"smiths.local\", \
         nonce=\"fake\", uri=\"sip:smiths.local\", response=\"{resp}\", \
         algorithm=MD5, qop=auth, nc=00000001, cnonce=\"c\""
    );
    assert_eq!(
        reg.authenticate("REGISTER", "sip:smiths.local", &hdr),
        Err(AuthError::StaleNonce)
    );
}

#[test]
fn mod_registrar_round_trip_md5() {
    let mut reg = registrar_with("alice", "s3cret");
    let challenge = reg.challenge(Algorithm::Md5, false);
    let nonce = extract_param(&challenge, "nonce").unwrap();
    let hdr = qop_header(Algorithm::Md5, "alice", "s3cret", &nonce, "00000001");
    let user = reg.authenticate("REGISTER", "sip:smiths.local", &hdr).unwrap();
    assert_eq!(user, "alice");
}

#[test]
fn mod_registrar_round_trip_sha256() {
    let mut reg = registrar_with("bob", "hunter2");
    let challenge = reg.challenge(Algorithm::Sha256, false);
    let nonce = extract_param(&challenge, "nonce").unwrap();
    let hdr = qop_header(Algorithm::Sha256, "bob", "hunter2", &nonce, "00000001");
    assert_eq!(
        reg.authenticate("REGISTER", "sip:smiths.local", &hdr).unwrap(),
        "bob"
    );
}

#[test]
fn mod_registrar_bad_password_fails() {
    let mut reg = registrar_with("alice", "right");
    let challenge = reg.challenge(Algorithm::Md5, false);
    let nonce = extract_param(&challenge, "nonce").unwrap();
    let hdr = qop_header(Algorithm::Md5, "alice", "wrong", &nonce, "00000001");
    assert_eq!(
        reg.authenticate("REGISTER", "sip:smiths.local", &hdr),
        Err(AuthError::BadResponse)
    );
}

#[test]
fn mod_registrar_unknown_user_fails() {
    let store = InMemoryCredentialStore::new();
    let mut reg = Registrar::new("smiths.local", store);
    let challenge = reg.challenge(Algorithm::Md5, false);
    let nonce = extract_param(&challenge, "nonce").unwrap();
    let hdr = format!(
        "Digest username=\"ghost\", realm=\"smiths.local\", \
         nonce=\"{nonce}\", uri=\"sip:x\", response=\"0\", \
         algorithm=MD5, qop=auth, nc=00000001, cnonce=\"c\""
    );
    assert_eq!(
        reg.authenticate("REGISTER", "sip:x", &hdr),
        Err(AuthError::UnknownUser)
    );
}

#[test]
fn registrar_unknown_nonce_with_valid_digest_is_stale() {
    let mut reg = registrar_with("alice", "p");
    // Never issued this nonce, but the digest is right: the client knows the
    // password.
    let hdr = qop_header(Algorithm::Md5, "alice", "p", "fake", "00000001");
    let err = reg.authenticate("REGISTER", "sip:smiths.local", &hdr).unwrap_err();
    assert_eq!(err, AuthError::StaleNonce);
    assert!(err.wants_stale_challenge());
}

#[test]
fn registrar_unknown_nonce_with_bad_digest_is_bad_response() {
    let mut reg = registrar_with("alice", "p");
    let hdr = qop_header(Algorithm::Md5, "alice", "WRONG", "fake", "00000001");
    let err = reg.authenticate("REGISTER", "sip:smiths.local", &hdr).unwrap_err();
    assert_eq!(err, AuthError::BadResponse);
    assert!(!err.wants_stale_challenge());
}

#[test]
fn expired_nonce_yields_stale_challenge() {
    let mut reg = registrar_with("alice", "p").with_ttl(1);
    let nonce = reg.issue_nonce_at(&[7u8; 16], 0);
    let hdr = qop_header(Algorithm::Md5, "alice", "p", &nonce, "00000001");
    let ten_ms = 10_000_000;
    let (params, alg) = reg.precheck_at("sip:smiths.local", &hdr, ten_ms).unwrap();
    let found = Credentials::new("alice", "smiths.local", "p");
    assert_eq!(
        reg.finish_at(params, alg, "REGISTER", &found, ten_ms),
        Err(AuthError::StaleNonce)
    );
}

#[test]
fn replayed_qop_header_is_rejected() {
    let mut reg = registrar_with("alice", "p");
    let challenge = reg.challenge(Algorithm::Md5, false);
    let nonce = extract_param(&challenge, "nonce").unwrap();
    let hdr = qop_header(Algorithm::Md5, "alice", "p", &nonce, "00000001");
    assert!(reg.authenticate("REGISTER", "sip:smiths.local", &hdr).is_ok());
    let err = reg.authenticate("REGISTER", "sip:smiths.local", &hdr).unwrap_err();
    assert_eq!(err, AuthError::NonceReplayed);
    assert!(err.wants_stale_challenge());
}

#[test]
fn increasing_nonce_count_is_accepted_and_regressions_rejected() {
    let mut reg = registrar_with("alice", "p");
    let challenge = reg.challenge(Algorithm::Md5, false);
    let nonce = extract_param(&challenge, "nonce").unwrap();
    for nc in ["00000001", "00000002", "00000005"] {
        let hdr = qop_header(Algorithm::Md5, "alice", "p", &nonce, nc);
        assert_eq!(
            reg.authenticate("REGISTER", "sip:smiths.local", &hdr),
            Ok("alice".to_owned()),
            "nc={nc} must be accepted"
        );
    }
    // Lower than the last accepted count.
    let hdr = qop_header(Algorithm::Md5, "alice", "p", &nonce, "00000003");
    assert_eq!(
        reg.authenticate("REGISTER", "sip:smiths.local", &hdr),
        Err(AuthError::NonceReplayed)
    );
    // Equal to the last accepted count.
    let hdr = qop_header(Algorithm::Md5, "alice", "p", &nonce, "00000005");
    assert_eq!(
        reg.authenticate("REGISTER", "sip:smiths.local", &hdr),
        Err(AuthError::NonceReplayed)
    );
    // Strictly greater.
    let hdr = qop_header(Algorithm::Md5, "alice", "p", &nonce, "00000006");
    assert!(reg.authenticate("REGISTER", "sip:smiths.local", &hdr).is_ok());
}

#[test]
fn bad_digest_does_not_consume_nonce_count() {
    let mut reg = registrar_with("alice", "p");
    let challenge = reg.challenge(Algorithm::Md5, false);
    let nonce = extract_param(&challenge, "nonce").unwrap();
    let bad = qop_header(Algorithm::Md5, "alice", "wrong", &nonce, "00000001");
    assert_eq!(
        reg.authenticate("REGISTER", "sip:smiths.local", &bad),
        Err(AuthError::BadResponse)
    );
    // The honest client retries with the same count and wins.
    let good = qop_header(Algorithm::Md5, "alice", "p", &nonce, "00000001");
    assert!(reg.authenticate("REGISTER", "sip:smiths.local", &good).is_ok());
}

#[test]
fn no_qop_nonce_is_single_use() {
    let mut reg = registrar_with("alice", "p");
    let challenge = reg.challenge(Algorithm::Md5, false);
    let nonce = extract_param(&challenge, "nonce").unwrap();
    let hdr = no_qop_header("alice", "p", &nonce);
    assert_eq!(
        reg.authenticate("REGISTER", "sip:smiths.local", &hdr),
        Ok("alice".to_owned())
    );
    assert_eq!(
        reg.authenticate("REGISTER", "sip:smiths.local", &hdr),
        Err(AuthError::NonceReplayed)
    );
}

#[test]
fn nonces_are_random_and_distinct() {
    let mut reg = registrar_with("alice", "p");
    let a = reg.issue_nonce();
    let b = reg.issue_nonce();
    assert_eq!(a.len(), 32, "16 bytes hex");
    assert!(a.bytes().all(|c| c.is_ascii_hexdigit()));
    assert_ne!(a, b);
}

#[test]
fn nonce_table_is_bounded() {
    let mut reg = registrar_with("alice", "p").with_max_nonces(20);
    for _ in 0..200 {
        let _ = reg.issue_nonce();
    }
    assert!(
        reg.live_nonces() <= 20,
        "table must stay at or under its cap, got {}",
        reg.live_nonces()
    );
    // The most recent nonce survives the eviction and still works.
    let challenge = reg.challenge(Algorithm::Md5, false);
    let nonce = extract_param(&challenge, "nonce").unwrap();
    let hdr = qop_header(Algorithm::Md5, "alice", "p", &nonce, "00000001");
    assert!(reg.authenticate("REGISTER", "sip:smiths.local", &hdr).is_ok());
}

#[test]
fn expired_nonces_are_swept_on_issue() {
    let mut reg = registrar_with("alice", "p").with_ttl(1);
    for i in 0..10u8 {
        let _ = reg.issue_nonce_at(&[i; 16], 0);
    }
    let _ = reg.issue_nonce_at(&[10u8; 16], 10_000_000);
    assert_eq!(reg.live_nonces(), 1, "only the fresh nonce survives");
}

#[test]
fn a_nonce_is_the_hexadecimal_form_of_its_bytes() {
    let mut reg = registrar_with("alice", "p");
    assert_eq!(reg.issue_nonce_at(&[0x0f, 0xa0, 0xff], 0), "0fa0ff");
}

#[test]
fn challenges_name_realm_algorithm_and_staleness() {
    let mut reg = registrar_with("alice", "p");
    let fresh = reg.challenge(Algorithm::Md5, false);
    assert!(fresh.starts_with("Digest realm=\"smiths.local\", nonce=\""));
    assert!(fresh.ends_with("\", qop=\"auth\", algorithm=MD5"));
    let stale = reg.challenge(Algorithm::Sha256, true);
    assert!(stale.ends_with("algorithm=SHA-256, stale=true"));
}

#[test]
fn requests_are_checked_before_the_account_is_looked_up() {
    let mut reg = registrar_with("alice", "p");
    assert_eq!(
        reg.authenticate("REGISTER", "sip:smiths.local", "Basic abc"),
        Err(AuthError::Missing)
    );
    let elsewhere = qop_header(Algorithm::Md5, "alice", "p", "n", "00000001")
        .replace("realm=\"smiths.local\"", "realm=\"other\"");
    assert_eq!(
        reg.authenticate("REGISTER", "sip:smiths.local", &elsewhere),
        Err(AuthError::WrongRealm)
    );
    let odd = qop_header(Algorithm::Md5, "alice", "p", "n", "00000001")
        .replace("algorithm=MD5", "algorithm=SHA-512");
    assert_eq!(
        reg.authenticate("REGISTER", "sip:smiths.local", &odd),
        Err(AuthError::UnsupportedAlgorithm)
    );
    let hdr = qop_header(Algorithm::Md5, "alice", "p", "n", "00000001");
    assert_eq!(
        reg.authenticate("REGISTER", "sip:elsewhere.example", &hdr),
        Err(AuthError::UriMismatch)
    );
}

#[test]
fn a_known_hash_takes_the_place_of_the_password() {
    let mut store = InMemoryCredentialStore::new();
    let hash = ha1(Algorithm::Md5, "alice", "smiths.local", "p");
    store.insert(Credentials::from_ha1("alice", "smiths.local", &hash));
    let mut reg = Registrar::new("smiths.local", store);
    let nonce = reg.issue_nonce();
    let hdr = qop_header(Algorithm::Md5, "alice", "p", &nonce, "00000001");
    assert_eq!(
        reg.authenticate("REGISTER", "sip:smiths.local", &hdr),
        Ok("alice".to_owned())
    );
}

// -- bindings ----------------------------------------------------------

fn binding(aor: &str, contact: &str, expires: i64) -> Binding {
    Binding {
        aor: aor.to_owned(),
        contact: contact.to_owned(),
        expires_at_unix: expires,
    }
}

#[test]
fn bindings_are_refreshed_listed_and_removed() {
    let mut store = InMemoryRegistrationStore::new();
    let far = 9_000_000_000;
    assert!(store.bind(&binding("sip:a@r", "sip:a@1", far)).is_ok());
    assert!(store.bind(&binding("sip:a@r", "sip:a@1", far + 1)).is_ok());
    assert!(store.bind(&binding("sip:b@r", "sip:b@2", far)).is_ok());
    let of_a = store.lookup_bindings("sip:a@r").unwrap();
    assert_eq!(of_a.len(), 1);
    assert_eq!(of_a[0].expires_at_unix, far + 1);
    assert_eq!(store.snapshot().unwrap().len(), 2);
    assert!(store.unbind("sip:a@r", "sip:a@1").is_ok());
    assert!(store.lookup_bindings("sip:a@r").unwrap().is_empty());
    match store.unbind("sip:a@r", "sip:a@1") {
        Err(RegistrationError::UnknownAor(a)) => assert_eq!(a, "sip:a@r"),
        other => panic!("{other:?}"),
    }
}

#[test]
fn expired_bindings_are_not_listed() {
    let mut store = InMemoryRegistrationStore::new();
    assert!(store.bind(&binding("sip:a@r", "sip:a@1", 100)).is_ok());
    assert!(store.bind(&binding("sip:a@r", "sip:a@2", 200)).is_ok());
    let live = store.live_at(Some("sip:a@r"), 150);
    assert_eq!(live.len(), 1);
    assert_eq!(live[0].contact, "sip:a@2");
    assert!(store.live_at(None, 200).is_empty());
}

#[test]
fn lookups_follow_binds_and_unbinds() {
    let far = 9_000_000_000;
    let bound = |contact: &str, expires_at_unix: i64| Binding {
        aor: "sip:a@r".into(),
        contact: contact.into(),
        expires_at_unix,
    };
    let mut store = InMemoryRegistrationStore::new();
    store.bind(&bound("one", far)).unwrap();
    store.bind(&bound("two", far)).unwrap();
    store.bind(&bound("old", 1)).unwrap();
    store.bind(&bound("one", far + 1)).unwrap();
    store.unbind("sip:a@r", "two").unwrap();
    let live = store.lookup_bindings("sip:a@r").unwrap();
    assert_eq!(live.len(), 1);
    assert_eq!(live[0].contact, "one");
    assert_eq!(live[0].expires_at_unix, far + 1);
    assert!(store.lookup_bindings("sip:b@r").unwrap().is_empty());
}

#[test]
fn the_account_comes_from_the_realm_and_user_of_the_request() {
    let mut store = InMemoryCredentialStore::new();
    store.insert(Credentials::new("alice", "smiths.local", "p"));
    store.insert(Credentials::new("alice", "elsewhere", "q"));
    let mut reg = Registrar::new("smiths.local", store);
    let challenge = reg.challenge(Algorithm::Md5, false);
    let nonce = extract_param(&challenge, "nonce").unwrap();
    let wrong = qop_header(Algorithm::Md5, "alice", "q", &nonce, "00000001");
    assert_eq!(
        reg.authenticate("REGISTER", "sip:smiths.local", &wrong),
        Err(AuthError::BadResponse)
    );
    let right = qop_header(Algorithm::Md5, "alice", "p", &nonce, "00000001");
    assert_eq!(
        reg.authenticate("REGISTER", "sip:smiths.local", &right),
        Ok("alice".to_owned())
    );
}

#[test]
fn algorithm_tokens_are_read_in_any_case() {
    assert_eq!(Algorithm::parse("sHa-256"), Some(Algorithm::Sha256));
    assert_eq!(Algorithm::parse("mD5"), Some(Algorithm::Md5));
}
