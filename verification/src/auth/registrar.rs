//! Issues nonces, tracks their use and verifies digest responses.

use vstd::prelude::*;
use vstd::utf8::encode_utf8_decode_utf8;

use super::digest::{
    algorithm_named, algorithm_token, authorization_of, ha1, ha1_text, ha2, ha2_text, hex_text,
    hex_of, parse_authorization, plain_response_text, qop_response_text, response_no_qop,
    response_qop_auth, Algorithm, AuthParams, AuthView,
};
use super::{credentials_opt, CredentialStore, Credentials, CredentialsView};
use crate::clock::Clock;
use crate::table::{key1, key_view, Table};
use crate::text;
use crate::txn::timers::Millis;
use crate::uas::parse::{strip_prefix, without_prefix};

verus! {

/// Why a request was not authenticated.
#[derive(Debug, PartialEq, Eq)]
#[non_exhaustive]
pub enum AuthError {
    /// No digest credentials.
    Missing,
    /// The credentials are for another realm.
    WrongRealm,
    /// The digest is right but the nonce is unknown or too old.
    StaleNonce,
    /// The nonce count, or a nonce without one, was used before.
    NonceReplayed,
    /// No such account.
    UnknownUser,
    /// The digest is wrong.
    BadResponse,
    /// The algorithm is not supported.
    UnsupportedAlgorithm,
    /// The signed URI is not that of the request.
    UriMismatch,
    /// The credential store failed.
    Backend(String),
}

/// The failure is one of freshness, not of credentials.
pub open spec fn is_freshness_problem(e: AuthError) -> bool {
    e is StaleNonce || e is NonceReplayed
}

impl AuthError {
    /// `true` when the next challenge should carry `stale=true`, so that the
    /// client tries again without asking for a password.
    #[must_use]
    pub fn wants_stale_challenge(&self) -> (r: bool)
        ensures
            r == is_freshness_problem(*self),
    {
        matches!(self, AuthError::StaleNonce | AuthError::NonceReplayed)
    }

    /// The message of the error.
    pub fn message(&self) -> (r: String)
        ensures
            r@ == match *self {
                AuthError::Missing => "no digest credentials"@,
                AuthError::WrongRealm => "wrong realm"@,
                AuthError::StaleNonce => "stale or unknown nonce"@,
                AuthError::NonceReplayed => "replayed nonce"@,
                AuthError::UnknownUser => "unknown user"@,
                AuthError::BadResponse => "bad response"@,
                AuthError::UnsupportedAlgorithm => "unsupported algorithm"@,
                AuthError::UriMismatch => "uri mismatch"@,
                AuthError::Backend(m) => "credential backend: "@ + m@,
            },
    {
        match self {
            AuthError::Missing => "no digest credentials".to_owned(),
            AuthError::WrongRealm => "wrong realm".to_owned(),
            AuthError::StaleNonce => "stale or unknown nonce".to_owned(),
            AuthError::NonceReplayed => "replayed nonce".to_owned(),
            AuthError::UnknownUser => "unknown user".to_owned(),
            AuthError::BadResponse => "bad response".to_owned(),
            AuthError::UnsupportedAlgorithm => "unsupported algorithm".to_owned(),
            AuthError::UriMismatch => "uri mismatch".to_owned(),
            AuthError::Backend(m) => {
                let mut s: String = "credential backend: ".to_owned();
                s.append(m);
                s
            },
        }
    }
}

/// Default cap on live nonces.
pub const DEFAULT_MAX_NONCES: usize = 100_000;

/// Default lifetime of a nonce.
pub const DEFAULT_TTL: Millis = 300_000;

/// One nonce: when it was issued (nanoseconds), the highest count accepted so
/// far, and whether a request without a count was accepted.
pub type NonceState = (u64, u32, bool);

/// The nonces by their text.
pub type Nonces = Map<Seq<Seq<char>>, NonceState>;

/// The nonces, and when they were last swept.
pub type Stock = (Nonces, u64);

/// How old a nonce is at `now`.
pub open spec fn age(now: u64, issued: u64) -> int {
    if now >= issued {
        now - issued
    } else {
        0
    }
}

/// The nonce outlived its lifetime.
pub open spec fn expired(now: u64, issued: u64, ttl: Millis) -> bool {
    age(now, issued) > ttl * 1_000_000
}

fn age_of(now: u64, issued: u64) -> (r: u64)
    ensures
        r == age(now, issued),
{
    if now >= issued {
        now - issued
    } else {
        0
    }
}

fn is_expired(now: u64, issued: u64, ttl: Millis) -> (r: bool)
    ensures
        r == expired(now, issued, ttl),
{
    let a: u128 = age_of(now, issued) as u128;
    a > (ttl as u128) * 1_000_000
}

// ---------------------------------------------------------------------
// What a request says
// ---------------------------------------------------------------------

/// The request uses `qop=auth` with a count and a client nonce.
pub open spec fn counts(p: AuthView) -> bool {
    p.qop == Some("auth"@) && p.nc is Some && p.cnonce is Some
}

/// The nonce count of a request that has one; the largest when it cannot be
/// read.
pub open spec fn count_of(p: AuthView) -> Option<u32> {
    if counts(p) {
        match text::uint_value(text::trimmed(p.nc->0), 16, u32::MAX as nat) {
            Some(n) => Some(n as u32),
            None => Some(u32::MAX),
        }
    } else {
        None
    }
}

fn has_counts(p: &AuthParams) -> (r: bool)
    ensures
        r == counts(p@),
{
    match &p.qop {
        Some(q) => *q == "auth".to_owned() && p.nc.is_some() && p.cnonce.is_some(),
        None => false,
    }
}

/// The nonce count of a request; see [`count_of`].
pub fn nonce_count(params: &AuthParams) -> (r: Option<u32>)
    ensures
        r == count_of(params@),
{
    if has_counts(params) {
        match &params.nc {
            Some(nc) => {
                let chars = text::to_chars(nc);
                match text::parse_uint(text::trim(&chars), 16, u32::MAX as u64) {
                    Some(n) => Some(n as u32),
                    None => Some(u32::MAX),
                }
            },
            None => None,
        }
    } else {
        None
    }
}

/// Host and port of a SIP URI: without scheme, user, parameters and headers.
pub open spec fn authority(uri: Seq<char>) -> Seq<char> {
    let body = if without_prefix(uri, "sips:"@) is Some {
        without_prefix(uri, "sips:"@)->0
    } else if without_prefix(uri, "sip:"@) is Some {
        without_prefix(uri, "sip:"@)->0
    } else {
        uri
    };
    let host = match text::rcut(body, '@') {
        Some(p) => p.1,
        None => body,
    };
    text::before_any(host, seq![';', '?'])
}

/// Host and port of a SIP URI; see [`authority`].
pub fn sip_uri_authority<'a>(uri: &'a [char]) -> (r: &'a [char])
    ensures
        r@ == authority(uri@),
{
    let body = match strip_prefix(uri, "sips:") {
        Some(s) => s,
        None => match strip_prefix(uri, "sip:") {
            Some(s) => s,
            None => uri,
        },
    };
    let host = match text::rsplit_once(body, '@') {
        Some(p) => p.1,
        None => body,
    };
    let ends: [char; 2] = [';', '?'];
    assert(ends@ =~= seq![';', '?']);
    text::cut_before(host, &ends)
}

/// The signed URI is the request's, a part of it, or agrees with it in host and
/// port.
pub open spec fn uri_matches(signed: Seq<char>, request_uri: Seq<char>) -> bool {
    ||| signed == request_uri
    ||| text::find_from(request_uri, signed, 0) is Some
    ||| authority(signed) == authority(request_uri)
}

fn uri_is_right(signed: &str, request_uri: &str) -> (r: bool)
    ensures
        r == uri_matches(signed@, request_uri@),
{
    let s = text::to_chars(signed);
    let q = text::to_chars(request_uri);
    if text::same(&s, &q) {
        return true;
    }
    if text::find(&q, &s, 0).is_some() {
        return true;
    }
    text::same(sip_uri_authority(&s), sip_uri_authority(&q))
}

proof fn lemma_or_xor(d: u8, x: u8, y: u8)
    by (bit_vector)
    ensures
        (d | (x ^ y)) == 0 <==> d == 0 && x == y,
{
}

/// Compares two byte strings in a time that depends on their lengths alone.
pub fn constant_time_eq(a: &[u8], b: &[u8]) -> (r: bool)
    ensures
        r == (a@ == b@),
{
    if a.len() != b.len() {
        return false;
    }
    let mut diff: u8 = 0;
    let mut i: usize = 0;
    while i < a.len()
        invariant
            i <= a@.len(),
            a@.len() == b@.len(),
            diff == 0 <==> forall|j: int| 0 <= j < i ==> a@[j] == b@[j],
        decreases a.len() - i,
    {
        proof {
            lemma_or_xor(diff, a@[i as int], b@[i as int]);
        }
        diff = diff | (a[i] ^ b[i]);
        i = i + 1;
    }
    if diff == 0 {
        assert(a@ =~= b@);
    }
    diff == 0
}

fn same_text(a: &str, b: &str) -> (r: bool)
    ensures
        r == (a@ == b@),
{
    let x = text::to_bytes(a);
    let y = text::to_bytes(b);
    proof {
        encode_utf8_decode_utf8(a@);
        encode_utf8_decode_utf8(b@);
    }
    constant_time_eq(&x, &y)
}

/// The response that a request of `method` must carry.
pub open spec fn expected_response(
    alg: Algorithm,
    c: CredentialsView,
    p: AuthView,
    method: Seq<char>,
) -> Seq<char> {
    let h1 = match c.ha1 {
        Some(h) => h,
        None => ha1_text(alg, c.username, c.realm, c.password),
    };
    let h2 = ha2_text(alg, method, p.uri);
    if counts(p) {
        qop_response_text(alg, h1, p.nonce, p.nc->0, p.cnonce->0, h2)
    } else {
        plain_response_text(alg, h1, p.nonce, h2)
    }
}

/// The response that a request must carry; see [`expected_response`].
pub fn response_for(alg: Algorithm, creds: &Credentials, params: &AuthParams, method: &str) -> (r:
    String)
    ensures
        r@ == expected_response(alg, creds@, params@, method@),
{
    let h1 = match &creds.ha1 {
        Some(h) => h.clone(),
        None => ha1(alg, &creds.username, &creds.realm, &creds.password),
    };
    let h2 = ha2(alg, method, &params.uri);
    if has_counts(params) {
        match (&params.nc, &params.cnonce) {
            (Some(nc), Some(cnonce)) => {
                return response_qop_auth(alg, &h1, &params.nonce, nc, cnonce, &h2);
            },
            _ => {},
        }
    }
    response_no_qop(alg, &h1, &params.nonce, &h2)
}

// ---------------------------------------------------------------------
// What becomes of a request
// ---------------------------------------------------------------------

/// The request repeats one that was accepted.
pub open spec fn replays(s: NonceState, count: Option<u32>) -> bool {
    match count {
        Some(n) => n <= s.1,
        None => s.2,
    }
}

/// The nonce after a request with it was accepted.
pub open spec fn used(s: NonceState, count: Option<u32>) -> NonceState {
    match count {
        Some(n) => (s.0, n, s.2),
        None => (s.0, s.1, true),
    }
}

/// Takes note that `nonce` was used: the nonces afterwards, and why it was
/// refused, if it was.
pub open spec fn claimed(
    nonces: Nonces,
    nonce: Seq<char>,
    count: Option<u32>,
    now: u64,
    ttl: Millis,
) -> (Nonces, Option<AuthError>) {
    let k = seq![nonce];
    if !nonces.contains_key(k) {
        (nonces, Some(AuthError::StaleNonce))
    } else if expired(now, nonces[k].0, ttl) {
        (nonces.remove(k), Some(AuthError::StaleNonce))
    } else if replays(nonces[k], count) {
        (nonces, Some(AuthError::NonceReplayed))
    } else {
        (nonces.insert(k, used(nonces[k], count)), None)
    }
}

/// The algorithm that a request names.
pub open spec fn named_algorithm(p: AuthView) -> Option<Algorithm> {
    algorithm_named(
        match p.algorithm {
            Some(a) => a,
            None => ""@,
        },
    )
}

/// What can be decided before the account is looked up: the parameters and the
/// algorithm, or why the request is refused.
pub open spec fn prechecked(
    nonces: Nonces,
    realm: Seq<char>,
    request_uri: Seq<char>,
    header: Seq<char>,
    now: u64,
    ttl: Millis,
) -> Result<(AuthView, Algorithm), AuthError> {
    match authorization_of(header) {
        None => Err(AuthError::Missing),
        Some(p) => {
            let alg = named_algorithm(p);
            let k = seq![p.nonce];
            if p.realm != realm {
                Err(AuthError::WrongRealm)
            } else if alg is None {
                Err(AuthError::UnsupportedAlgorithm)
            } else if !uri_matches(p.uri, request_uri) {
                Err(AuthError::UriMismatch)
            } else if nonces.contains_key(k) && !expired(now, nonces[k].0, ttl) && replays(
                nonces[k],
                count_of(p),
            ) {
                Err(AuthError::NonceReplayed)
            } else {
                Ok((p, alg->0))
            }
        },
    }
}

/// What becomes of a request whose response should be `expected`: the nonces
/// afterwards, and the user or the reason.
pub open spec fn accepted(
    nonces: Nonces,
    p: AuthView,
    expected: Seq<char>,
    now: u64,
    ttl: Millis,
) -> (Nonces, Result<Seq<char>, AuthError>) {
    if expected != p.response {
        (nonces, Err(AuthError::BadResponse))
    } else {
        let (after, refused) = claimed(nonces, p.nonce, count_of(p), now, ttl);
        match refused {
            Some(e) => (after, Err(e)),
            None => (after, Ok(p.username)),
        }
    }
}

/// What becomes of a request whose account lookup gave `found`: checked at
/// `before`, and accepted at `now`.
pub open spec fn authenticated(
    nonces: Nonces,
    realm: Seq<char>,
    ttl: Millis,
    method: Seq<char>,
    request_uri: Seq<char>,
    header: Seq<char>,
    found: Option<CredentialsView>,
    before: u64,
    now: u64,
) -> (Nonces, Result<Seq<char>, AuthError>) {
    match prechecked(nonces, realm, request_uri, header, before, ttl) {
        Err(e) => (nonces, Err(e)),
        Ok((p, alg)) => match found {
            None => (nonces, Err(AuthError::UnknownUser)),
            Some(c) => accepted(nonces, p, expected_response(alg, c, p, method), now, ttl),
        },
    }
}

/// `found` is an answer of `store` to the question for the account of `user`
/// in `realm`.
pub open spec fn is_found<S: CredentialStore>(
    store: S,
    realm: Seq<char>,
    user: Seq<char>,
    alg: Algorithm,
    found: Option<Credentials>,
) -> bool {
    exists|r: &str, u: &str|
        r@ == realm && u@ == user && #[trigger] call_ensures(
            S::lookup_for,
            (&store, r, u, alg),
            found,
        )
}

/// The registrar decides on a request: the nonces afterwards, and the user or
/// the reason. A request that passes the first checks is held against the
/// account that the store has for its user.
pub open spec fn is_decision<S: CredentialStore>(
    reg: Registrar<S>,
    method: Seq<char>,
    request_uri: Seq<char>,
    header: Seq<char>,
    after: Nonces,
    verdict: Result<Seq<char>, AuthError>,
) -> bool {
    exists|found: Option<Credentials>, before: u64, now: u64|
        (after, verdict) == #[trigger] authenticated(
            reg.nonces(),
            reg.realm_text(),
            reg.lifetime(),
            method,
            request_uri,
            header,
            credentials_opt(found),
            before,
            now,
        ) && (prechecked(
            reg.nonces(),
            reg.realm_text(),
            request_uri,
            header,
            before,
            reg.lifetime(),
        ) matches Ok(p) ==> is_found(
            reg.accounts(),
            reg.realm_text(),
            p.0.username,
            p.1,
            found,
        ))
}

/// The model of an authentication's result.
pub open spec fn result_view(r: Result<String, AuthError>) -> Result<Seq<char>, AuthError> {
    match r {
        Ok(u) => Ok(u@),
        Err(e) => Err(e),
    }
}

// ---------------------------------------------------------------------
// The nonce table
// ---------------------------------------------------------------------

/// The nonces that are within their lifetime.
pub open spec fn swept(nonces: Nonces, now: u64, ttl: Millis) -> Nonces {
    Map::new(
        |k: Seq<Seq<char>>| nonces.contains_key(k) && !expired(now, nonces[k].0, ttl),
        |k: Seq<Seq<char>>| nonces[k],
    )
}

/// `after` is `nonces` without its `n` oldest. Which of several of the same age
/// leave is left open.
pub open spec fn without_oldest(nonces: Nonces, after: Nonces, now: u64, n: nat) -> bool {
    &&& after.dom().finite()
    &&& after.dom().subset_of(nonces.dom())
    &&& forall|k: Seq<Seq<char>>| #[trigger] after.contains_key(k) ==> after[k] == nonces[k]
    &&& after.dom().len() + n == nonces.dom().len()
    &&& forall|gone: Seq<Seq<char>>, kept: Seq<Seq<char>>|
        #![trigger nonces.contains_key(gone), after.contains_key(kept)]
        nonces.contains_key(gone) && !after.contains_key(gone) && after.contains_key(kept) ==> age(
            now,
            nonces[gone].0,
        ) >= age(now, nonces[kept].0)
}

/// How many leave a full table of `len` nonces: a tenth, at least one.
pub open spec fn eviction(len: nat) -> nat {
    if len / 10 > 1 {
        len / 10
    } else {
        1
    }
}

/// The shortest time between two sweeps of a table that is not full.
pub open spec fn sweep_interval(ttl: Millis) -> Millis {
    if ttl < 1_000 {
        ttl
    } else {
        1_000
    }
}

/// A sweep takes place: the table is full, or the last one is long enough ago.
pub open spec fn sweeps(
    nonces: Nonces,
    now: u64,
    ttl: Millis,
    max: nat,
    last_sweep: u64,
) -> bool {
    ||| nonces.dom().len() >= max
    ||| age(now / 1_000_000, last_sweep) >= sweep_interval(ttl)
}

/// What a sweep leaves: the nonces within their lifetime, without the oldest
/// tenth of them if the table is still full.
pub open spec fn is_swept(nonces: Nonces, after: Nonces, now: u64, ttl: Millis, max: nat) -> bool {
    let live = swept(nonces, now, ttl);
    if live.dom().len() < max {
        after == live
    } else {
        without_oldest(live, after, now, eviction(live.dom().len()))
    }
}

/// Issuing `nonce` at `now` leads from `before` to `after`: it is entered as
/// unused, and a sweep may come first.
pub open spec fn is_issued(
    before: Stock,
    after: Stock,
    nonce: Seq<char>,
    now: u64,
    ttl: Millis,
    max: nat,
) -> bool {
    let due = sweeps(before.0, now, ttl, max, before.1);
    &&& after.1 == if due {
        now / 1_000_000
    } else {
        before.1
    }
    &&& exists|clean: Nonces|
        after.0 == #[trigger] clean.insert(seq![nonce], (now, 0u32, false)) && if due {
            is_swept(before.0, clean, now, ttl, max)
        } else {
            clean == before.0
        }
}

/// `challenge` is a fresh challenge, whose random nonce leads from `before` to
/// `after`.
pub open spec fn is_challenge(
    before: Stock,
    after: Stock,
    ttl: Millis,
    max: nat,
    realm: Seq<char>,
    algorithm: Algorithm,
    stale: bool,
    challenge: Seq<char>,
) -> bool {
    exists|random: Seq<u8>, now: u64|
        random.len() == 16 && challenge == challenge_text(
            realm,
            hex_text(random),
            algorithm,
            stale,
        ) && #[trigger] is_issued(before, after, hex_text(random), now, ttl, max)
}

/// How many of `ages` exceed `t`.
spec fn count_above(ages: Seq<u64>, t: int) -> nat
    decreases ages.len(),
{
    if ages.len() == 0 {
        0
    } else {
        count_above(ages.drop_last(), t) + (if ages.last() > t {
            1nat
        } else {
            0nat
        })
    }
}

proof fn lemma_count_above_bounds(ages: Seq<u64>, t: int)
    ensures
        count_above(ages, t) <= ages.len(),
        t < 0 ==> count_above(ages, t) == ages.len(),
        t >= u64::MAX ==> count_above(ages, t) == 0,
    decreases ages.len(),
{
    if ages.len() > 0 {
        lemma_count_above_bounds(ages.drop_last(), t);
    }
}

fn count_older(ages: &Vec<u64>, t: u64) -> (r: usize)
    ensures
        r == count_above(ages@, t as int),
{
    let mut n: usize = 0;
    let mut i: usize = 0;
    while i < ages.len()
        invariant
            i <= ages@.len(),
            n <= i,
            n == count_above(ages@.take(i as int), t as int),
        decreases ages.len() - i,
    {
        assert(ages@.take(i + 1).drop_last() =~= ages@.take(i as int));
        if ages[i] > t {
            n = n + 1;
        }
        i = i + 1;
    }
    assert(ages@.take(ages@.len() as int) =~= ages@);
    n
}

/// The age that separates the `n` oldest: at most `n` are older, and at least
/// `n` are that old or older.
fn cutoff(ages: &Vec<u64>, n: usize) -> (r: u64)
    requires
        n <= ages@.len(),
    ensures
        count_above(ages@, r as int) <= n <= count_above(ages@, r - 1),
{
    let mut lo: u64 = 0;
    let mut hi: u64 = u64::MAX;
    proof {
        lemma_count_above_bounds(ages@, -1);
        lemma_count_above_bounds(ages@, u64::MAX as int);
    }
    while lo < hi
        invariant
            lo <= hi,
            n <= ages@.len(),
            count_above(ages@, hi as int) <= n <= count_above(ages@, lo - 1),
        decreases hi - lo,
    {
        let mid: u64 = lo + (hi - lo) / 2;
        if count_older(ages, mid) <= n {
            hi = mid;
        } else {
            lo = mid + 1;
        }
    }
    lo
}

/// Issues nonces and verifies requests against them.
///
/// A nonce is 16 random bytes in hexadecimal. A request with `qop=auth` must
/// carry a higher count than any accepted before with its nonce; without `qop`
/// a nonce serves once. The table of nonces is bounded and swept as it grows.
pub struct Registrar<S> {
    realm: String,
    store: S,
    nonces: Table<NonceState>,
    clock: Clock,
    last_sweep: u64,
    ttl: Millis,
    max_nonces: usize,
}

impl<S> Registrar<S> {
    /// The live nonces.
    pub closed spec fn nonces(&self) -> Nonces {
        self.nonces@
    }

    /// The realm.
    pub closed spec fn realm_text(&self) -> Seq<char> {
        self.realm@
    }

    /// Lifetime of a nonce.
    pub closed spec fn lifetime(&self) -> Millis {
        self.ttl
    }

    /// Cap on live nonces.
    pub closed spec fn cap(&self) -> nat {
        self.max_nonces as nat
    }

    /// When the last sweep took place, in milliseconds.
    pub closed spec fn last_sweep(&self) -> u64 {
        self.last_sweep
    }

    /// Where accounts are looked up.
    pub closed spec fn accounts(&self) -> S {
        self.store
    }

    /// The live nonces and when they were last swept.
    pub open spec fn stock(&self) -> Stock {
        (self.nonces(), self.last_sweep())
    }

    /// The table is finite and may hold at least one nonce.
    pub closed spec fn wf(&self) -> bool {
        self.nonces@.dom().finite() && self.max_nonces >= 1
    }

    /// Everything but the nonces is as in `other`.
    pub open spec fn same_settings(&self, other: Self) -> bool {
        &&& self.realm_text() == other.realm_text()
        &&& self.lifetime() == other.lifetime()
        &&& self.cap() == other.cap()
        &&& self.accounts() == other.accounts()
    }

    /// A registrar for `realm` over `store`.
    #[must_use]
    pub fn new(realm: &str, store: S) -> (r: Self)
        ensures
            r.wf(),
            r.realm_text() == realm@,
            r.nonces().dom() == Set::<Seq<Seq<char>>>::empty(),
            r.lifetime() == DEFAULT_TTL,
            r.cap() == DEFAULT_MAX_NONCES,
            r.last_sweep() == 0,
            r.accounts() == store,
    {
        Registrar {
            realm: realm.to_owned(),
            store,
            nonces: Table::new(),
            clock: Clock::start(),
            last_sweep: 0,
            ttl: DEFAULT_TTL,
            max_nonces: DEFAULT_MAX_NONCES,
        }
    }

    /// Sets the lifetime of nonces.
    #[must_use]
    pub fn with_ttl(self, ttl: Millis) -> (r: Self)
        requires
            self.wf(),
        ensures
            r.wf(),
            r.nonces() == self.nonces(),
            r.realm_text() == self.realm_text(),
            r.lifetime() == ttl,
            r.cap() == self.cap(),
            r.last_sweep() == self.last_sweep(),
            r.accounts() == self.accounts(),
    {
        let mut r = self;
        r.ttl = ttl;
        r
    }

    /// Sets the cap on live nonces; 0 counts as 1.
    #[must_use]
    pub fn with_max_nonces(self, max_nonces: usize) -> (r: Self)
        requires
            self.wf(),
        ensures
            r.wf(),
            r.nonces() == self.nonces(),
            r.realm_text() == self.realm_text(),
            r.lifetime() == self.lifetime(),
            r.cap() == if max_nonces == 0 {
                1
            } else {
                max_nonces as nat
            },
            r.last_sweep() == self.last_sweep(),
            r.accounts() == self.accounts(),
    {
        let mut r = self;
        r.max_nonces = if max_nonces == 0 {
            1
        } else {
            max_nonces
        };
        r
    }

    /// The realm.
    #[must_use]
    pub fn realm(&self) -> (r: &str)
        ensures
            r@ == self.realm_text(),
    {
        self.realm.as_str()
    }

    /// Number of live nonces.
    #[must_use]
    pub fn live_nonces(&self) -> (r: usize)
        requires
            self.wf(),
        ensures
            self.nonces().dom().finite(),
            r == self.nonces().dom().len(),
    {
        self.nonces.len()
    }

    fn remove_expired(&mut self, now: u64)
        requires
            old(self).wf(),
        ensures
            final(self).wf(),
            final(self).same_settings(*old(self)),
            final(self).last_sweep() == old(self).last_sweep(),
            final(self).nonces() == swept(old(self).nonces(), now, old(self).lifetime()),
    {
        let ghost before = self.nonces@;
        let ghost ttl0 = self.ttl;
        let entries = self.nonces.entries();
        let mut i: usize = 0;
        proof {
            assert forall|j: int| 0 <= j < entries@.len() implies before.contains_key(
                key_view(#[trigger] entries@[j].0),
            ) by {
                let e = entries@[j];
                assert(before.contains_key(key_view(e.0)));
            }
        }
        while i < entries.len()
            invariant
                i <= entries@.len(),
                self.max_nonces == old(self).max_nonces,
                self.realm == old(self).realm,
                self.store == old(self).store,
                self.last_sweep == old(self).last_sweep,
                self.ttl == ttl0,
                self.max_nonces >= 1,
                self.nonces@.dom().finite(),
                forall|k: Seq<Seq<char>>| #[trigger]
                    self.nonces@.contains_key(k) ==> before.contains_key(k) && self.nonces@[k]
                        == before[k],
                forall|j: int|
                    0 <= j < entries@.len() ==> (self.nonces@.contains_key(
                        key_view(#[trigger] entries@[j].0),
                    ) <==> !(j < i && expired(now, entries@[j].1.0, ttl0))),
                forall|a: int, b: int|
                    #![trigger entries@[a], entries@[b]]
                    0 <= a < b < entries@.len() ==> key_view(entries@[a].0) != key_view(
                        entries@[b].0,
                    ),
            decreases entries.len() - i,
        {
            if is_expired(now, entries[i].1.0, self.ttl) {
                self.nonces.remove(&entries[i].0);
                proof {
                    assert forall|j: int| 0 <= j < entries@.len() implies (
                    self.nonces@.contains_key(key_view(#[trigger] entries@[j].0)) <==> !(j < i + 1
                        && expired(now, entries@[j].1.0, ttl0))) by {
                        if j != i {
                            let x = entries@[j];
                            let y = entries@[i as int];
                            assert(key_view(x.0) != key_view(y.0));
                        }
                    }
                }
            }
            i = i + 1;
        }
        proof {
            let target = swept(before, now, ttl0);
            assert forall|k: Seq<Seq<char>>|
                self.nonces@.contains_key(k) <==> target.contains_key(k) by {
                if before.contains_key(k) {
                    let j = choose|j: int|
                        0 <= j < entries@.len() && key_view((#[trigger] entries@[j]).0) == k;
                    let e = entries@[j];
                    assert(before[key_view(e.0)] == e.1);
                    assert(key_view(entries@[j].0) == k);
                }
            }
            assert(self.nonces@ =~= target);
        }
    }

    #[verifier::rlimit(40)]
    #[verifier::spinoff_prover]
    fn evict_oldest(&mut self, now: u64, n: usize)
        requires
            old(self).wf(),
            n <= old(self).nonces().dom().len(),
        ensures
            final(self).wf(),
            final(self).same_settings(*old(self)),
            final(self).last_sweep() == old(self).last_sweep(),
            without_oldest(old(self).nonces(), final(self).nonces(), now, n as nat),
    {
        let ghost before = self.nonces@;
        let entries = self.nonces.entries();
        let mut ages: Vec<u64> = Vec::new();
        let mut i: usize = 0;
        while i < entries.len()
            invariant
                i <= entries@.len(),
                ages@.len() == i,
                forall|j: int|
                    0 <= j < i ==> #[trigger] ages@[j] == age(now, entries@[j].1.0),
            decreases entries.len() - i,
        {
            ages.push(age_of(now, entries[i].1.0));
            i = i + 1;
        }
        let cut = cutoff(&ages, n);
        let older = count_older(&ages, cut);
        let mut extra: usize = n - older;
        let ghost extra0 = extra;
        let mut i: usize = 0;
        assert(ages@.take(0) =~= seq![]);
        proof {
            assert forall|j: int| 0 <= j < entries@.len() implies before.contains_key(
                key_view(#[trigger] entries@[j].0),
            ) by {
                let e = entries@[j];
                assert(before.contains_key(key_view(e.0)));
            }
        }
        while i < entries.len()
            invariant
                i <= entries@.len(),
                ages@.len() == entries@.len(),
                self.max_nonces == old(self).max_nonces,
                self.realm == old(self).realm,
                self.store == old(self).store,
                self.last_sweep == old(self).last_sweep,
                self.ttl == old(self).ttl,
                self.max_nonces >= 1,
                self.nonces@.dom().finite(),
                extra <= extra0,
                extra0 - extra <= count_above(ages@.take(i as int), cut - 1) - count_above(
                    ages@.take(i as int),
                    cut as int,
                ),
                extra > 0 ==> extra0 - extra == count_above(ages@.take(i as int), cut - 1)
                    - count_above(ages@.take(i as int), cut as int),
                self.nonces@.dom().len() + count_above(ages@.take(i as int), cut as int) + (extra0
                    - extra) == before.dom().len(),
                forall|k: Seq<Seq<char>>| #[trigger]
                    self.nonces@.contains_key(k) ==> before.contains_key(k) && self.nonces@[k]
                        == before[k],
                forall|j: int|
                    i <= j < entries@.len() ==> self.nonces@.contains_key(
                        key_view(#[trigger] entries@[j].0),
                    ),
                forall|j: int|
                    0 <= j < i ==> (self.nonces@.contains_key(key_view(#[trigger] entries@[j].0))
                        ==> ages@[j] <= cut),
                forall|j: int|
                    0 <= j < i ==> (!self.nonces@.contains_key(key_view(#[trigger] entries@[j].0))
                        ==> ages@[j] >= cut),
                forall|a: int, b: int|
                    #![trigger entries@[a], entries@[b]]
                    0 <= a < b < entries@.len() ==> key_view(entries@[a].0) != key_view(
                        entries@[b].0,
                    ),
            decreases entries.len() - i,
        {
            let ghost now_map = self.nonces@;
            let a: u64 = ages[i];
            proof {
                assert(ages@.take(i + 1).drop_last() =~= ages@.take(i as int));
                assert(ages@.take(i + 1).last() == a);
                assert(now_map.contains_key(key_view(entries@[i as int].0)));
            }
            let leaves = a > cut || (a == cut && extra > 0);
            if leaves {
                if a == cut {
                    extra = extra - 1;
                }
                self.nonces.remove(&entries[i].0);
            }
            proof {
                assert forall|j: int| 0 <= j < entries@.len() && j != i implies (
                self.nonces@.contains_key(key_view(#[trigger] entries@[j].0))
                    <==> now_map.contains_key(key_view(entries@[j].0))) by {
                    let x = entries@[j];
                    let y = entries@[i as int];
                    assert(key_view(x.0) != key_view(y.0));
                }
            }
            i = i + 1;
        }
        proof {
            assert(ages@.take(ages@.len() as int) =~= ages@);
            let after = self.nonces@;
            assert forall|gone: Seq<Seq<char>>, kept: Seq<Seq<char>>|
                #![trigger before.contains_key(gone), after.contains_key(kept)]
                before.contains_key(gone) && !after.contains_key(gone) && after.contains_key(
                    kept,
                ) implies age(now, before[gone].0) >= age(now, before[kept].0) by {
                let g = choose|j: int|
                    0 <= j < entries@.len() && key_view((#[trigger] entries@[j]).0) == gone;
                assert(before.contains_key(kept));
                let k = choose|j: int|
                    0 <= j < entries@.len() && key_view((#[trigger] entries@[j]).0) == kept;
                let eg = entries@[g];
                let ek = entries@[k];
                assert(before[key_view(eg.0)] == eg.1);
                assert(before[key_view(ek.0)] == ek.1);
                assert(key_view(entries@[g].0) == gone);
                assert(key_view(entries@[k].0) == kept);
                assert(ages@[g] >= cut);
                assert(ages@[k] <= cut);
            }
        }
    }

    /// Sweeps the table at `now` if that is due or the table is full.
    pub fn maybe_gc(&mut self, now: u64)
        requires
            old(self).wf(),
        ensures
            final(self).wf(),
            final(self).same_settings(*old(self)),
            if sweeps(
                old(self).nonces(),
                now,
                old(self).lifetime(),
                old(self).cap(),
                old(self).last_sweep(),
            ) {
                &&& final(self).last_sweep() == now / 1_000_000
                &&& is_swept(
                    old(self).nonces(),
                    final(self).nonces(),
                    now,
                    old(self).lifetime(),
                    old(self).cap(),
                )
            } else {
                &&& final(self).last_sweep() == old(self).last_sweep()
                &&& final(self).nonces() == old(self).nonces()
            },
    {
        let now_ms: u64 = now / 1_000_000;
        let interval: u64 = if self.ttl < 1_000 {
            self.ttl
        } else {
            1_000
        };
        let full = self.nonces.len() >= self.max_nonces;
        let due = age_of(now_ms, self.last_sweep) >= interval;
        if !full && !due {
            return;
        }
        self.last_sweep = now_ms;
        self.remove_expired(now);
        let len: usize = self.nonces.len();
        if len < self.max_nonces {
            return;
        }
        let tenth: usize = len / 10;
        let n: usize = if tenth > 1 {
            tenth
        } else {
            1
        };
        self.evict_oldest(now, n);
    }

    /// Registers the nonce made of `random` at `now`.
    pub fn issue_nonce_at(&mut self, random: &[u8], now: u64) -> (r: String)
        requires
            old(self).wf(),
        ensures
            final(self).wf(),
            final(self).same_settings(*old(self)),
            r@ == hex_text(random@),
            is_issued(
                old(self).stock(),
                final(self).stock(),
                r@,
                now,
                old(self).lifetime(),
                old(self).cap(),
            ),
            old(self).nonces().dom().len() <= old(self).cap() ==> final(self).nonces().dom().len()
                <= old(self).cap(),
    {
        let nonce = hex_of(random);
        self.maybe_gc(now);
        let ghost clean = self.nonces@;
        proof {
            let live = swept(old(self).nonces(), now, old(self).lifetime());
            assert(live.dom().subset_of(old(self).nonces().dom()));
            vstd::set_lib::lemma_len_subset(live.dom(), old(self).nonces().dom());
        }
        self.nonces.insert(key1(&nonce), (now, 0, false));
        assert(self.nonces@ == clean.insert(seq![nonce@], (now, 0u32, false)));
        nonce
    }

    /// Checks a request before its account is looked up.
    pub fn precheck_at(&self, request_uri: &str, auth_header: &str, now: u64) -> (r: Result<
        (AuthParams, Algorithm),
        AuthError,
    >)
        ensures
            (match r {
                Ok(p) => Ok::<(AuthView, Algorithm), AuthError>((p.0@, p.1)),
                Err(e) => Err(e),
            }) == prechecked(
                self.nonces(),
                self.realm_text(),
                request_uri@,
                auth_header@,
                now,
                self.lifetime(),
            ),
    {
        let params = match parse_authorization(auth_header) {
            Some(p) => p,
            None => {
                return Err(AuthError::Missing);
            },
        };
        if params.realm != self.realm {
            return Err(AuthError::WrongRealm);
        }
        let token: &str = match &params.algorithm {
            Some(a) => a.as_str(),
            None => "",
        };
        let alg = match Algorithm::parse(token) {
            Some(a) => a,
            None => {
                return Err(AuthError::UnsupportedAlgorithm);
            },
        };
        if !uri_is_right(&params.uri, request_uri) {
            return Err(AuthError::UriMismatch);
        }
        let count = nonce_count(&params);
        match self.nonces.get(&key1(&params.nonce)) {
            Some(state) => {
                if !is_expired(now, state.0, self.ttl) {
                    let again = match count {
                        Some(n) => n <= state.1,
                        None => state.2,
                    };
                    if again {
                        return Err(AuthError::NonceReplayed);
                    }
                }
            },
            None => {},
        }
        Ok((params, alg))
    }

    /// Takes note that `nonce` was used with `count`.
    fn claim_nonce(&mut self, nonce: &str, count: Option<u32>, now: u64) -> (r: Result<
        (),
        AuthError,
    >)
        requires
            old(self).wf(),
        ensures
            final(self).wf(),
            final(self).same_settings(*old(self)),
            final(self).last_sweep() == old(self).last_sweep(),
            (final(self).nonces(), match r {
                Ok(()) => None,
                Err(e) => Some(e),
            }) == claimed(old(self).nonces(), nonce@, count, now, old(self).lifetime()),
    {
        let k = key1(nonce);
        match self.nonces.get(&k) {
            Some(state) => {
                if is_expired(now, state.0, self.ttl) {
                    self.nonces.remove(&k);
                    return Err(AuthError::StaleNonce);
                }
                match count {
                    Some(n) => {
                        if n <= state.1 {
                            return Err(AuthError::NonceReplayed);
                        }
                        self.nonces.insert(k, (state.0, n, state.2));
                    },
                    None => {
                        if state.2 {
                            return Err(AuthError::NonceReplayed);
                        }
                        self.nonces.insert(k, (state.0, state.1, true));
                    },
                }
                Ok(())
            },
            None => Err(AuthError::StaleNonce),
        }
    }

    /// Accepts or refuses a request whose response should be `expected`.
    pub fn accept_at(&mut self, params: AuthParams, expected: &str, now: u64) -> (r: Result<
        String,
        AuthError,
    >)
        requires
            old(self).wf(),
        ensures
            final(self).wf(),
            final(self).same_settings(*old(self)),
            final(self).last_sweep() == old(self).last_sweep(),
            (final(self).nonces(), result_view(r)) == accepted(
                old(self).nonces(),
                params@,
                expected@,
                now,
                old(self).lifetime(),
            ),
    {
        let count = nonce_count(&params);
        if !same_text(expected, &params.response) {
            return Err(AuthError::BadResponse);
        }
        match self.claim_nonce(&params.nonce, count, now) {
            Ok(()) => Ok(params.username),
            Err(e) => Err(e),
        }
    }

    /// Accepts or refuses a request of the account `creds`.
    pub fn finish_at(
        &mut self,
        params: AuthParams,
        alg: Algorithm,
        method: &str,
        creds: &Credentials,
        now: u64,
    ) -> (r: Result<String, AuthError>)
        requires
            old(self).wf(),
        ensures
            final(self).wf(),
            final(self).same_settings(*old(self)),
            final(self).last_sweep() == old(self).last_sweep(),
            (final(self).nonces(), result_view(r)) == accepted(
                old(self).nonces(),
                params@,
                expected_response(alg, creds@, params@, method@),
                now,
                old(self).lifetime(),
            ),
    {
        let expected = response_for(alg, creds, &params, method);
        self.accept_at(params, &expected, now)
    }

    /// Nanoseconds since the registrar was made.
    pub fn now(&self) -> (r: u64) {
        self.clock.elapsed_nanos()
    }

    /// A fresh random nonce.
    #[must_use]
    pub fn issue_nonce(&mut self) -> (r: String)
        requires
            old(self).wf(),
        ensures
            final(self).wf(),
            final(self).same_settings(*old(self)),
            exists|random: Seq<u8>, now: u64|
                random.len() == 16 && r@ == hex_text(random) && #[trigger] is_issued(
                    old(self).stock(),
                    final(self).stock(),
                    hex_text(random),
                    now,
                    old(self).lifetime(),
                    old(self).cap(),
                ),
            old(self).nonces().dom().len() <= old(self).cap() ==> final(self).nonces().dom().len()
                <= old(self).cap(),
    {
        let random = random_bytes();
        let now = self.now();
        self.issue_nonce_at(&random, now)
    }

    /// A `WWW-Authenticate` value with a fresh nonce.
    #[must_use]
    pub fn challenge(&mut self, algorithm: Algorithm, stale: bool) -> (r: String)
        requires
            old(self).wf(),
        ensures
            final(self).wf(),
            final(self).same_settings(*old(self)),
            is_challenge(
                old(self).stock(),
                final(self).stock(),
                old(self).lifetime(),
                old(self).cap(),
                old(self).realm_text(),
                algorithm,
                stale,
                r@,
            ),
            old(self).nonces().dom().len() <= old(self).cap() ==> final(self).nonces().dom().len()
                <= old(self).cap(),
    {
        let nonce = self.issue_nonce();
        challenge_value(&self.realm, &nonce, algorithm, stale)
    }
}

impl<S: CredentialStore> Registrar<S> {
    /// Verifies the `Authorization` value of a request and returns the user.
    pub fn authenticate(&mut self, method: &str, request_uri: &str, auth_header: &str) -> (r:
        Result<String, AuthError>)
        requires
            old(self).wf(),
        ensures
            final(self).wf(),
            final(self).same_settings(*old(self)),
            final(self).last_sweep() == old(self).last_sweep(),
            is_decision(
                *old(self),
                method@,
                request_uri@,
                auth_header@,
                final(self).nonces(),
                result_view(r),
            ),
    {
        let before = self.now();
        match self.precheck_at(request_uri, auth_header, before) {
            Err(e) => {
                let ghost none: Option<Credentials> = None;
                assert((self.nonces(), Err::<Seq<char>, AuthError>(e)) == authenticated(
                    old(self).nonces(),
                    old(self).realm_text(),
                    old(self).lifetime(),
                    method@,
                    request_uri@,
                    auth_header@,
                    credentials_opt(none),
                    before,
                    before,
                ));
                Err(e)
            },
            Ok((params, alg)) => {
                let ghost p = params@;
                let found = self.store.lookup_for(&self.realm, &params.username, alg);
                let ghost given = found;
                let now = self.now();
                assert(is_found(
                    old(self).accounts(),
                    old(self).realm_text(),
                    p.username,
                    alg,
                    given,
                ));
                let r = match found {
                    None => Err(AuthError::UnknownUser),
                    Some(creds) => self.finish_at(params, alg, method, &creds, now),
                };
                assert((self.nonces(), result_view(r)) == authenticated(
                    old(self).nonces(),
                    old(self).realm_text(),
                    old(self).lifetime(),
                    method@,
                    request_uri@,
                    auth_header@,
                    credentials_opt(given),
                    before,
                    now,
                ));
                r
            },
        }
    }
}

/// `rand::rng` and `fill_bytes`: 16 bytes from the generator of this thread.
/// Nothing is claimed of their values.
#[verifier::external_body]
fn random_bytes() -> (r: Vec<u8>)
    ensures
        r@.len() == 16,
{
    let mut buf: Vec<u8> = vec![0u8; 16];
    rand::Rng::fill_bytes(&mut rand::rng(), &mut buf);
    buf
}

/// A `WWW-Authenticate` value.
pub open spec fn challenge_text(
    realm: Seq<char>,
    nonce: Seq<char>,
    algorithm: Algorithm,
    stale: bool,
) -> Seq<char> {
    let head = "Digest realm=\""@ + realm + "\", nonce=\""@ + nonce
        + "\", qop=\"auth\", algorithm="@ + algorithm_token(algorithm);
    if stale {
        head + ", stale=true"@
    } else {
        head
    }
}

/// A `WWW-Authenticate` value for a nonce.
pub fn challenge_value(realm: &str, nonce: &str, algorithm: Algorithm, stale: bool) -> (r: String)
    ensures
        r@ == challenge_text(realm@, nonce@, algorithm, stale),
{
    let mut s: String = "Digest realm=\"".to_owned();
    s.append(realm);
    s.append("\", nonce=\"");
    s.append(nonce);
    s.append("\", qop=\"auth\", algorithm=");
    s.append(algorithm.as_str());
    if stale {
        s.append(", stale=true");
    }
    s
}

// ---------------------------------------------------------------------
// Laws
// ---------------------------------------------------------------------

/// A request that was accepted is refused when it comes again, at any later
/// time within the lifetime of its nonce: as a replay, before the account is
/// even looked up.
pub proof fn accepted_requests_cannot_be_replayed(
    nonces: Nonces,
    realm: Seq<char>,
    ttl: Millis,
    method: Seq<char>,
    request_uri: Seq<char>,
    header: Seq<char>,
    found: Option<CredentialsView>,
    before: u64,
    now: u64,
    method_again: Seq<char>,
    found_again: Option<CredentialsView>,
    before_again: u64,
    later: u64,
)
    requires
        authenticated(nonces, realm, ttl, method, request_uri, header, found, before, now).1 is Ok,
        !expired(before_again, nonces[seq![authorization_of(header)->0.nonce]].0, ttl),
    ensures
        ({
            let after = authenticated(
                nonces,
                realm,
                ttl,
                method,
                request_uri,
                header,
                found,
                before,
                now,
            ).0;
            authenticated(
                after,
                realm,
                ttl,
                method_again,
                request_uri,
                header,
                found_again,
                before_again,
                later,
            ) == (after, Err::<Seq<char>, AuthError>(AuthError::NonceReplayed))
        }),
{
}

/// The right answer to a live challenge is accepted: a request that passes the
/// first checks, of a known account, with the response that its credentials
/// call for and a nonce that is neither too old nor used up.
pub proof fn right_answers_are_accepted(
    nonces: Nonces,
    realm: Seq<char>,
    ttl: Millis,
    method: Seq<char>,
    request_uri: Seq<char>,
    header: Seq<char>,
    c: CredentialsView,
    before: u64,
    now: u64,
)
    requires
        prechecked(nonces, realm, request_uri, header, before, ttl) is Ok,
        ({
            let (p, alg) = prechecked(nonces, realm, request_uri, header, before, ttl)->Ok_0;
            &&& p.response == expected_response(alg, c, p, method)
            &&& nonces.contains_key(seq![p.nonce])
            &&& !expired(now, nonces[seq![p.nonce]].0, ttl)
            &&& !replays(nonces[seq![p.nonce]], count_of(p))
        }),
    ensures
        authenticated(nonces, realm, ttl, method, request_uri, header, Some(c), before, now).1
            == Ok::<Seq<char>, AuthError>(authorization_of(header)->0.username),
{
}

/// A wrong digest changes nothing: the honest client may still use its nonce
/// and its count.
pub proof fn wrong_digests_consume_nothing(
    nonces: Nonces,
    p: AuthView,
    expected: Seq<char>,
    now: u64,
    ttl: Millis,
)
    requires
        expected != p.response,
    ensures
        accepted(nonces, p, expected, now, ttl) == (nonces, Err::<Seq<char>, AuthError>(
            AuthError::BadResponse,
        )),
{
}

/// With a right digest and a nonce within its lifetime, a higher count than
/// any before is accepted, and no other.
pub proof fn counts_must_grow(
    nonces: Nonces,
    p: AuthView,
    now: u64,
    ttl: Millis,
)
    requires
        counts(p),
        nonces.contains_key(seq![p.nonce]),
        !expired(now, nonces[seq![p.nonce]].0, ttl),
    ensures
        accepted(nonces, p, p.response, now, ttl).1 is Ok <==> count_of(p)->0
            > nonces[seq![p.nonce]].1,
        accepted(nonces, p, p.response, now, ttl).1 is Ok ==> accepted(
            nonces,
            p,
            p.response,
            now,
            ttl,
        ).0[seq![p.nonce]].1 == count_of(p)->0,
{
}

/// A right digest with a nonce that is unknown or too old calls for a fresh
/// challenge, not for a password: the failure is `StaleNonce`.
pub proof fn right_digest_with_stale_nonce(
    nonces: Nonces,
    p: AuthView,
    now: u64,
    ttl: Millis,
)
    requires
        !nonces.contains_key(seq![p.nonce]) || expired(now, nonces[seq![p.nonce]].0, ttl),
    ensures
        accepted(nonces, p, p.response, now, ttl).1 == Err::<Seq<char>, AuthError>(
            AuthError::StaleNonce,
        ),
        is_freshness_problem(AuthError::StaleNonce),
{
}

/// Whoever is let in has an account: the store has credentials for the user in
/// this realm, the response is the one that these credentials call for, and
/// the nonce is one of the registrar's, and now used.
pub proof fn accepted_users_have_an_account<S: CredentialStore>(
    reg: Registrar<S>,
    method: Seq<char>,
    request_uri: Seq<char>,
    header: Seq<char>,
    after: Nonces,
    user: Seq<char>,
)
    requires
        is_decision(reg, method, request_uri, header, after, Ok(user)),
    ensures
        authorization_of(header) is Some,
        ({
            let p = authorization_of(header)->0;
            let alg = named_algorithm(p);
            &&& p.username == user
            &&& p.realm == reg.realm_text()
            &&& alg is Some
            &&& reg.nonces().contains_key(seq![p.nonce])
            &&& after == reg.nonces().insert(
                seq![p.nonce],
                used(reg.nonces()[seq![p.nonce]], count_of(p)),
            )
            &&& exists|c: Credentials|
                p.response == #[trigger] expected_response(alg->0, c@, p, method) && is_found(
                    reg.accounts(),
                    reg.realm_text(),
                    user,
                    alg->0,
                    Some(c),
                )
        }),
{
    let (found, before, now) = choose|found: Option<Credentials>, before: u64, now: u64|
        (after, Ok::<Seq<char>, AuthError>(user)) == #[trigger] authenticated(
            reg.nonces(),
            reg.realm_text(),
            reg.lifetime(),
            method,
            request_uri,
            header,
            credentials_opt(found),
            before,
            now,
        ) && (prechecked(
            reg.nonces(),
            reg.realm_text(),
            request_uri,
            header,
            before,
            reg.lifetime(),
        ) matches Ok(p) ==> is_found(
            reg.accounts(),
            reg.realm_text(),
            p.0.username,
            p.1,
            found,
        ));
    let p = authorization_of(header)->0;
    assert(p.response == expected_response(named_algorithm(p)->0, (found->0)@, p, method));
}

/// One of several requests: what it says, which account was found for it, and
/// when it was checked and decided.
pub struct Attempt {
    pub method: Seq<char>,
    pub request_uri: Seq<char>,
    pub header: Seq<char>,
    pub found: Option<CredentialsView>,
    pub before: u64,
    pub now: u64,
}

/// The credentials that an attempt states.
pub open spec fn stated(a: Attempt) -> AuthView {
    authorization_of(a.header)->0
}

/// The attempt carries the response that its account calls for.
pub open spec fn is_right(a: Attempt) -> bool {
    stated(a).response == expected_response(
        named_algorithm(stated(a))->0,
        a.found->0,
        stated(a),
        a.method,
    )
}

/// The nonces after the first `n` of `attempts`.
pub open spec fn nonces_after(
    nonces: Nonces,
    realm: Seq<char>,
    ttl: Millis,
    attempts: Seq<Attempt>,
    n: int,
) -> Nonces
    decreases n, 0int,
{
    if n <= 0 {
        nonces
    } else {
        attempted(nonces, realm, ttl, attempts, n - 1).0
    }
}

/// What becomes of attempt `i`, after those before it.
pub open spec fn attempted(
    nonces: Nonces,
    realm: Seq<char>,
    ttl: Millis,
    attempts: Seq<Attempt>,
    i: int,
) -> (Nonces, Result<Seq<char>, AuthError>)
    decreases i, 1int,
    when i >= 0
{
    let a = attempts[i];
    authenticated(
        nonces_after(nonces, realm, ttl, attempts, i),
        realm,
        ttl,
        a.method,
        a.request_uri,
        a.header,
        a.found,
        a.before,
        a.now,
    )
}

/// Every attempt counts with the nonce `nonce`, within its lifetime, and is in
/// order but perhaps for its count and its response.
pub open spec fn share_a_nonce(
    nonces: Nonces,
    realm: Seq<char>,
    ttl: Millis,
    attempts: Seq<Attempt>,
    nonce: Seq<char>,
) -> bool {
    &&& nonces.contains_key(seq![nonce])
    &&& forall|i: int|
        0 <= i < attempts.len() ==> counts_with(
            #[trigger] attempts[i],
            realm,
            ttl,
            nonce,
            nonces[seq![nonce]].0,
        )
}

/// The attempt counts with the nonce `nonce`, issued at `issued`.
pub open spec fn counts_with(
    a: Attempt,
    realm: Seq<char>,
    ttl: Millis,
    nonce: Seq<char>,
    issued: u64,
) -> bool {
    &&& authorization_of(a.header) is Some
    &&& stated(a).nonce == nonce
    &&& counts(stated(a))
    &&& stated(a).realm == realm
    &&& named_algorithm(stated(a)) is Some
    &&& uri_matches(stated(a).uri, a.request_uri)
    &&& a.found is Some
    &&& !expired(a.before, issued, ttl)
    &&& !expired(a.now, issued, ttl)
}

/// Attempt `i` is accepted.
pub open spec fn is_accepted(
    nonces: Nonces,
    realm: Seq<char>,
    ttl: Millis,
    attempts: Seq<Attempt>,
    i: int,
) -> bool {
    attempted(nonces, realm, ttl, attempts, i).1 is Ok
}

/// The count of attempt `i` exceeds the one that the nonce came with, and every
/// count accepted since.
pub open spec fn rises(
    nonces: Nonces,
    realm: Seq<char>,
    ttl: Millis,
    attempts: Seq<Attempt>,
    nonce: Seq<char>,
    i: int,
) -> bool {
    &&& count_of(stated(attempts[i]))->0 > nonces[seq![nonce]].1
    &&& forall|j: int|
        0 <= j < i && #[trigger] is_accepted(nonces, realm, ttl, attempts, j) ==> count_of(
            stated(attempts[i]),
        )->0 > count_of(stated(attempts[j]))->0
}

proof fn lemma_highest_count(
    nonces: Nonces,
    realm: Seq<char>,
    ttl: Millis,
    attempts: Seq<Attempt>,
    nonce: Seq<char>,
    n: int,
)
    requires
        share_a_nonce(nonces, realm, ttl, attempts, nonce),
        0 <= n <= attempts.len(),
    ensures
        ({
            let after = nonces_after(nonces, realm, ttl, attempts, n);
            let k = seq![nonce];
            &&& after.contains_key(k)
            &&& after[k].0 == nonces[k].0
            &&& after[k].1 >= nonces[k].1
            &&& forall|j: int|
                0 <= j < n && #[trigger] is_accepted(nonces, realm, ttl, attempts, j) ==> count_of(
                    stated(attempts[j]),
                )->0 <= after[k].1
            &&& after[k].1 == nonces[k].1 || exists|j: int|
                0 <= j < n && #[trigger] is_accepted(nonces, realm, ttl, attempts, j) && count_of(
                    stated(attempts[j]),
                )->0 == after[k].1
        }),
    decreases n,
{
    if n > 0 {
        lemma_highest_count(nonces, realm, ttl, attempts, nonce, n - 1);
        assert(counts_with(attempts[n - 1], realm, ttl, nonce, nonces[seq![nonce]].0));
        let earlier = nonces_after(nonces, realm, ttl, attempts, n - 1);
        let after = nonces_after(nonces, realm, ttl, attempts, n);
        let k = seq![nonce];
        if is_accepted(nonces, realm, ttl, attempts, n - 1) {
            assert(after[k].1 == count_of(stated(attempts[n - 1]))->0);
            assert(count_of(stated(attempts[n - 1]))->0 > earlier[k].1);
        } else {
            assert(after == earlier);
            if after[k].1 != nonces[k].1 {
                let j = choose|j: int|
                    0 <= j < n - 1 && #[trigger] is_accepted(nonces, realm, ttl, attempts, j)
                        && count_of(stated(attempts[j]))->0 == earlier[k].1;
                assert(is_accepted(nonces, realm, ttl, attempts, j));
            }
        }
    }
}

/// Of several requests with one nonce, exactly those with a right response and
/// a count above all that were accepted before are let in. A right response
/// with another count is a replay. A wrong response is never let in, and makes
/// no difference to those that follow.
pub proof fn rising_counts_are_accepted(
    nonces: Nonces,
    realm: Seq<char>,
    ttl: Millis,
    attempts: Seq<Attempt>,
    nonce: Seq<char>,
    i: int,
)
    requires
        share_a_nonce(nonces, realm, ttl, attempts, nonce),
        0 <= i < attempts.len(),
    ensures
        is_right(attempts[i]) && rises(nonces, realm, ttl, attempts, nonce, i) ==> attempted(
            nonces,
            realm,
            ttl,
            attempts,
            i,
        ).1 == Ok::<Seq<char>, AuthError>(stated(attempts[i]).username),
        is_right(attempts[i]) && !rises(nonces, realm, ttl, attempts, nonce, i) ==> attempted(
            nonces,
            realm,
            ttl,
            attempts,
            i,
        ).1 == Err::<Seq<char>, AuthError>(AuthError::NonceReplayed),
        !is_right(attempts[i]) ==> attempted(nonces, realm, ttl, attempts, i).1 is Err
            && nonces_after(nonces, realm, ttl, attempts, i + 1) == nonces_after(
            nonces,
            realm,
            ttl,
            attempts,
            i,
        ),
{
    lemma_highest_count(nonces, realm, ttl, attempts, nonce, i);
    let k = seq![nonce];
    let here = nonces_after(nonces, realm, ttl, attempts, i);
    assert(counts_with(attempts[i], realm, ttl, nonce, nonces[k].0));
    let count = count_of(stated(attempts[i]))->0;
    if count > here[k].1 {
        assert(rises(nonces, realm, ttl, attempts, nonce, i));
    } else if here[k].1 != nonces[k].1 {
        let j = choose|j: int|
            0 <= j < i && #[trigger] is_accepted(nonces, realm, ttl, attempts, j) && count_of(
                stated(attempts[j]),
            )->0 == here[k].1;
        assert(is_accepted(nonces, realm, ttl, attempts, j));
        assert(!rises(nonces, realm, ttl, attempts, nonce, i));
    }
}

} // verus!
