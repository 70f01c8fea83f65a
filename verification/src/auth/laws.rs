//! What digest authentication amounts to: how credentials are read, what a
//! response is made of, and when a nonce serves.

use vstd::prelude::*;
use vstd::utf8::encode_utf8;

use super::digest::{
    algorithm_named, all_named, authorization_of, ha1_text, ha2_text, hex_text, md5_hash,
    param_name, param_of, param_text, params_from, params_view, plain_response_text,
    qop_response_text, sha256_hash, Algorithm, AuthView,
};
use super::http_store::{
    begin, gate_of, meaning, proceed, wire_token, BreakerView, FailureMode, LookupView, StepView,
    WebhookReply,
};
use super::registrar::{
    age, authority, challenge_text, claimed, count_of, eviction, expected_response, expired,
    is_issued, is_swept, named_algorithm, prechecked, replays, sweep_interval, sweeps, swept,
    uri_matches, used, AuthError, NonceState, Nonces, Stock,
};
use super::CredentialsView;
use crate::text;
use crate::text::laws::{
    cuts_divide_at_the_first, cuts_from_the_end_divide_at_the_last, lemma_clear_of_char,
    prefixes_end_at_the_first_stop, tight, tight_texts_stay,
};
use crate::txn::timers::Millis;

verus! {

// ---------------------------------------------------------------------
// Hashes
// ---------------------------------------------------------------------

/// Each byte is written as its two hexadecimal digits, the higher one first, in
/// lower case.
pub proof fn hex_is_two_digits_a_byte(bytes: Seq<u8>, i: int)
    requires
        0 <= i < bytes.len(),
    ensures
        hex_text(bytes).len() == 2 * bytes.len(),
        ({
            let high = hex_text(bytes)[2 * i];
            let low = hex_text(bytes)[2 * i + 1];
            &&& text::digit_value(high, 16) is Some && text::digit_value(low, 16) is Some
            &&& text::digit_value(high, 16)->0 * 16 + text::digit_value(low, 16)->0 == bytes[i]
            &&& !('A' <= high <= 'Z') && !('A' <= low <= 'Z')
        }),
{
    let h = hex_text(bytes);
    assert((2 * i) / 2 == i && (2 * i) % 2 == 0);
    assert((2 * i + 1) / 2 == i && (2 * i + 1) % 2 == 1);
    assert(h[2 * i] == text::digit_char((bytes[i] / 16) as nat));
    assert(h[2 * i + 1] == text::digit_char((bytes[i] % 16) as nat));
}

/// The hashes that authentication rests on: of user, realm and password; of
/// method and URI; of both with the nonce; and, where requests are counted, with
/// the count, the client's nonce and `auth` too.
pub proof fn responses_are_made_of(
    user: Seq<char>,
    realm: Seq<char>,
    password: Seq<char>,
    method: Seq<char>,
    uri: Seq<char>,
    nonce: Seq<char>,
    nc: Seq<char>,
    cnonce: Seq<char>,
    a: Seq<char>,
    b: Seq<char>,
)
    ensures
        ha1_text(Algorithm::Md5, user, realm, password) == hex_text(
            md5_hash(encode_utf8(user + ":"@ + realm + ":"@ + password)),
        ),
        ha1_text(Algorithm::Sha256, user, realm, password) == hex_text(
            sha256_hash(encode_utf8(user + ":"@ + realm + ":"@ + password)),
        ),
        ha2_text(Algorithm::Md5, method, uri) == hex_text(
            md5_hash(encode_utf8(method + ":"@ + uri)),
        ),
        ha2_text(Algorithm::Sha256, method, uri) == hex_text(
            sha256_hash(encode_utf8(method + ":"@ + uri)),
        ),
        plain_response_text(Algorithm::Md5, a, nonce, b) == hex_text(
            md5_hash(encode_utf8(a + ":"@ + nonce + ":"@ + b)),
        ),
        plain_response_text(Algorithm::Sha256, a, nonce, b) == hex_text(
            sha256_hash(encode_utf8(a + ":"@ + nonce + ":"@ + b)),
        ),
        qop_response_text(Algorithm::Md5, a, nonce, nc, cnonce, b) == hex_text(
            md5_hash(
                encode_utf8(a + ":"@ + nonce + ":"@ + nc + ":"@ + cnonce + ":auth:"@ + b),
            ),
        ),
        qop_response_text(Algorithm::Sha256, a, nonce, nc, cnonce, b) == hex_text(
            sha256_hash(
                encode_utf8(a + ":"@ + nonce + ":"@ + nc + ":"@ + cnonce + ":auth:"@ + b),
            ),
        ),
{
}

/// The response that an account calls for rests on its stored hash where it has
/// one, else on its name, realm and password; on the method of the request and
/// the URI that was signed; and on the nonce, with the count where the request
/// counts.
pub proof fn responses_rest_on_the_account(
    alg: Algorithm,
    c: CredentialsView,
    p: AuthView,
    method: Seq<char>,
    h1: Seq<char>,
)
    requires
        c.ha1 == Some(h1) || c.ha1 is None && h1 == ha1_text(
            alg,
            c.username,
            c.realm,
            c.password,
        ),
    ensures
        p.qop == Some("auth"@) && p.nc is Some && p.cnonce is Some ==> expected_response(
            alg,
            c,
            p,
            method,
        ) == qop_response_text(
            alg,
            h1,
            p.nonce,
            p.nc->0,
            p.cnonce->0,
            ha2_text(alg, method, p.uri),
        ),
        p.qop != Some("auth"@) || p.nc is None || p.cnonce is None ==> expected_response(
            alg,
            c,
            p,
            method,
        ) == plain_response_text(alg, h1, p.nonce, ha2_text(alg, method, p.uri)),
{
}

// ---------------------------------------------------------------------
// Credentials
// ---------------------------------------------------------------------

/// `s` holds neither a comma nor a quotation mark.
pub open spec fn unmarked(s: Seq<char>) -> bool {
    !s.contains(',') && !s.contains('"')
}

proof fn lemma_params_run(s: Seq<char>, i: int, k: int, start: int, quoted: bool)
    requires
        0 <= i <= k <= s.len(),
        forall|j: int| i <= j < k ==> #[trigger] s[j] != '"' && (s[j] != ',' || quoted),
    ensures
        params_from(s, i, start, quoted) == params_from(s, k, start, quoted),
    decreases k - i,
{
    if i < k {
        lemma_params_run(s, i + 1, k, start, quoted);
    }
}

proof fn lemma_params_shift(s: Seq<char>, i: int, start: int, quoted: bool, k: int)
    requires
        0 <= k <= start <= i <= s.len(),
    ensures
        params_from(s, i, start, quoted) == params_from(
            s.subrange(k, s.len() as int),
            i - k,
            start - k,
            quoted,
        ),
    decreases s.len() - i,
{
    let t = s.subrange(k, s.len() as int);
    if i < s.len() {
        assert(t[i - k] == s[i]);
        lemma_params_shift(s, i + 1, start, !quoted, k);
        lemma_params_shift(s, i + 1, start, quoted, k);
        lemma_params_shift(s, i + 1, i + 1, false, k);
        assert(s.subrange(start, i) =~= t.subrange(start - k, i - k));
        assert(i + 1 - k == (i - k) + 1);
    } else {
        assert(s.subrange(start, s.len() as int) =~= t.subrange(start - k, t.len() as int));
    }
}

/// A comma ends a parameter, unless it stands within quotation marks, and the
/// parameters behind it follow.
pub proof fn parameters_peel_off(p: Seq<char>, q: Seq<char>, r: Seq<char>, b: Seq<char>)
    requires
        unmarked(p),
        unmarked(r),
        !q.contains('"'),
    ensures
        params_from(p + seq![','] + b, 0, 0, false) == seq![text::trimmed(p)] + params_from(
            b,
            0,
            0,
            false,
        ),
        params_from(p + seq!['"'] + q + seq!['"'] + r + seq![','] + b, 0, 0, false) == seq![
            text::trimmed(p + seq!['"'] + q + seq!['"'] + r),
        ] + params_from(b, 0, 0, false),
        text::trimmed(p).len() > 0 ==> params_from(p, 0, 0, false) == seq![text::trimmed(p)],
        text::trimmed(p + seq!['"'] + q + seq!['"'] + r).len() > 0 ==> params_from(
            p + seq!['"'] + q + seq!['"'] + r,
            0,
            0,
            false,
        ) == seq![text::trimmed(p + seq!['"'] + q + seq!['"'] + r)],
{
    let n = p.len() as int;
    let x = p + seq![','] + b;
    assert forall|j: int| 0 <= j < n implies #[trigger] x[j] != '"' && x[j] != ',' by {
        assert(x[j] == p[j]);
        assert(p.contains(p[j]));
    }
    lemma_params_run(x, 0, n, 0, false);
    assert(x[n] == ',');
    assert(x.subrange(0, n) =~= p);
    lemma_params_shift(x, n + 1, n + 1, false, n + 1);
    assert(x.subrange(n + 1, x.len() as int) =~= b);
    assert forall|j: int| 0 <= j < n implies #[trigger] p[j] != '"' && p[j] != ',' by {
        assert(p.contains(p[j]));
    }
    lemma_params_run(p, 0, n, 0, false);
    assert(p.subrange(0, n) =~= p);
    let e = p + seq!['"'] + q + seq!['"'] + r;
    let y = e + seq![','] + b;
    let m = e.len() as int;
    assert(y.subrange(0, m) =~= e);
    lemma_quoted_part(p, q, r, y);
    assert(y[m] == ',');
    lemma_params_shift(y, m + 1, m + 1, false, m + 1);
    assert(y.subrange(m + 1, y.len() as int) =~= b);
    assert(e.subrange(0, m) =~= e);
    lemma_quoted_part(p, q, r, e);
}

proof fn lemma_quoted_part(p: Seq<char>, q: Seq<char>, r: Seq<char>, y: Seq<char>)
    requires
        unmarked(p),
        unmarked(r),
        !q.contains('"'),
        ({
            let e = p + seq!['"'] + q + seq!['"'] + r;
            y.len() >= e.len() && y.subrange(0, e.len() as int) == e
        }),
    ensures
        ({
            let e = p + seq!['"'] + q + seq!['"'] + r;
            params_from(y, 0, 0, false) == params_from(y, e.len() as int, 0, false)
        }),
{
    let e = p + seq!['"'] + q + seq!['"'] + r;
    let n = p.len() as int;
    let k = n + 1 + q.len();
    assert forall|j: int| 0 <= j < e.len() implies y[j] == e[j] by {
        assert(y.subrange(0, e.len() as int)[j] == y[j]);
    }
    assert forall|j: int| 0 <= j < n implies #[trigger] y[j] != '"' && y[j] != ',' by {
        assert(y[j] == p[j]);
        assert(p.contains(p[j]));
    }
    lemma_params_run(y, 0, n, 0, false);
    assert(y[n] == '"');
    assert forall|j: int| n + 1 <= j < k implies #[trigger] y[j] != '"' by {
        assert(y[j] == q[j - n - 1]);
        assert(q.contains(q[j - n - 1]));
    }
    lemma_params_run(y, n + 1, k, 0, true);
    assert(y[k] == '"');
    assert forall|j: int| k + 1 <= j < e.len() implies #[trigger] y[j] != '"' && y[j] != ',' by {
        assert(y[j] == r[j - k - 1]);
        assert(r.contains(r[j - k - 1]));
    }
    lemma_params_run(y, k + 1, e.len() as int, 0, false);
}

/// A parameter is its name, in any case, and its value behind the first equals
/// sign; quotation marks around the value do not belong to it.
pub proof fn parameters_have_name_and_value(name: Seq<char>, value: Seq<char>)
    requires
        !name.contains('='),
        tight(name),
        tight(value),
    ensures
        param_name(name + "="@ + value) == text::lowered(name),
        param_text(name + "="@ + ("\""@ + value + "\""@)) == value,
        value.len() > 0 && value[0] != '"' ==> param_text(name + "="@ + value) == value,
{
    reveal_strlit("=");
    reveal_strlit("\"");
    assert("="@ =~= seq!['=']);
    lemma_clear_of_char(name, '=');
    cuts_divide_at_the_first(name, seq!['='], value);
    tight_texts_stay(name);
    tight_texts_stay(value);
    let quoted = "\""@ + value + "\""@;
    cuts_divide_at_the_first(name, seq!['='], quoted);
    assert(quoted[0] == '"' && quoted.last() == '"');
    tight_texts_stay(quoted);
    assert(quoted.subrange(1, quoted.len() - 1) =~= value);
}

proof fn lemma_param_of(parts: Seq<Seq<char>>, name: Seq<char>, n: int, k: int)
    requires
        0 <= k < n <= parts.len(),
        param_name(parts[k]) == name,
        forall|j: int| k < j < n ==> param_name(#[trigger] parts[j]) != name,
    ensures
        param_of(parts, name, n) == Some(param_text(parts[k])),
    decreases n,
{
    if n - 1 > k {
        assert(param_name(parts[n - 1]) != name);
        lemma_param_of(parts, name, n - 1, k);
    }
}

proof fn lemma_param_absent(parts: Seq<Seq<char>>, name: Seq<char>, n: int)
    requires
        0 <= n <= parts.len(),
        forall|j: int| 0 <= j < n ==> param_name(#[trigger] parts[j]) != name,
    ensures
        param_of(parts, name, n) is None,
    decreases n,
{
    if n > 0 {
        assert(param_name(parts[n - 1]) != name);
        lemma_param_absent(parts, name, n - 1);
    }
}

/// Parameter `k` is the last of that name.
pub open spec fn is_last(parts: Seq<Seq<char>>, name: Seq<char>, k: int) -> bool {
    &&& 0 <= k < parts.len()
    &&& param_name(parts[k]) == name
    &&& forall|j: int| k < j < parts.len() ==> param_name(#[trigger] parts[j]) != name
}

/// Each credential is the value of the last parameter of its name.
pub proof fn credentials_are_their_parameters(parts: Seq<Seq<char>>, k: int)
    ensures
        ({
            let p = params_view(parts, parts.len() as int);
            let v = param_text(parts[k]);
            &&& is_last(parts, "username"@, k) ==> p.username == v
            &&& is_last(parts, "realm"@, k) ==> p.realm == v
            &&& is_last(parts, "nonce"@, k) ==> p.nonce == v
            &&& is_last(parts, "uri"@, k) ==> p.uri == v
            &&& is_last(parts, "response"@, k) ==> p.response == v
            &&& is_last(parts, "algorithm"@, k) ==> p.algorithm == Some(v)
            &&& is_last(parts, "qop"@, k) ==> p.qop == Some(v)
            &&& is_last(parts, "nc"@, k) ==> p.nc == Some(v)
            &&& is_last(parts, "cnonce"@, k) ==> p.cnonce == Some(v)
        }),
{
    let n = parts.len() as int;
    if is_last(parts, "username"@, k) {
        lemma_param_of(parts, "username"@, n, k);
    }
    if is_last(parts, "realm"@, k) {
        lemma_param_of(parts, "realm"@, n, k);
    }
    if is_last(parts, "nonce"@, k) {
        lemma_param_of(parts, "nonce"@, n, k);
    }
    if is_last(parts, "uri"@, k) {
        lemma_param_of(parts, "uri"@, n, k);
    }
    if is_last(parts, "response"@, k) {
        lemma_param_of(parts, "response"@, n, k);
    }
    if is_last(parts, "algorithm"@, k) {
        lemma_param_of(parts, "algorithm"@, n, k);
    }
    if is_last(parts, "qop"@, k) {
        lemma_param_of(parts, "qop"@, n, k);
    }
    if is_last(parts, "nc"@, k) {
        lemma_param_of(parts, "nc"@, n, k);
    }
    if is_last(parts, "cnonce"@, k) {
        lemma_param_of(parts, "cnonce"@, n, k);
    }
}

/// Where no parameter has its name, an optional credential is missing and a
/// required one empty.
pub proof fn credentials_need_their_parameters(parts: Seq<Seq<char>>, name: Seq<char>)
    requires
        forall|j: int| 0 <= j < parts.len() ==> param_name(#[trigger] parts[j]) != name,
    ensures
        ({
            let p = params_view(parts, parts.len() as int);
            &&& name == "username"@ ==> p.username.len() == 0
            &&& name == "realm"@ ==> p.realm.len() == 0
            &&& name == "nonce"@ ==> p.nonce.len() == 0
            &&& name == "uri"@ ==> p.uri.len() == 0
            &&& name == "response"@ ==> p.response.len() == 0
            &&& name == "algorithm"@ ==> p.algorithm is None
            &&& name == "qop"@ ==> p.qop is None
            &&& name == "nc"@ ==> p.nc is None
            &&& name == "cnonce"@ ==> p.cnonce is None
        }),
{
    lemma_param_absent(parts, name, parts.len() as int);
}

/// Digest credentials are read from what follows their scheme. They are there
/// exactly when each part has a name, and user, realm, nonce, URI and response
/// are all given.
pub proof fn credentials_are_complete(rest: Seq<char>)
    requires
        rest.len() > 0,
        !text::is_space(rest.last()),
    ensures
        ({
            let parts = params_from(rest, 0, 0, false);
            let p = params_view(parts, parts.len() as int);
            let read = authorization_of("Digest "@ + rest);
            &&& read is Some <==> {
                &&& forall|i: int|
                    0 <= i < parts.len() ==> (#[trigger] parts[i]).contains('=')
                &&& p.username.len() > 0
                &&& p.realm.len() > 0
                &&& p.nonce.len() > 0
                &&& p.uri.len() > 0
                &&& p.response.len() > 0
            }
            &&& read is Some ==> read == Some(p)
        }),
{
    reveal_strlit("Digest ");
    let v = "Digest "@ + rest;
    assert("Digest "@.len() == 7);
    assert(v[0] == 'D');
    assert(v.last() == rest.last());
    tight_texts_stay(v);
    assert(v.subrange(0, 7) =~= "Digest "@);
    assert(v.subrange(7, v.len() as int) =~= rest);
    let parts = params_from(rest, 0, 0, false);
    assert forall|i: int| 0 <= i < parts.len() implies (text::cut(
        #[trigger] parts[i],
        seq!['='],
    ) is Some) == parts[i].contains('=') by {
        lemma_has_equals(parts[i]);
    }
    if all_named(parts) {
        assert forall|i: int| 0 <= i < parts.len() implies (#[trigger] parts[i]).contains('=') by {
            assert(text::cut(parts[i], seq!['=']) is Some);
        }
    }
}

proof fn lemma_has_equals(part: Seq<char>)
    ensures
        (text::cut(part, seq!['=']) is Some) == part.contains('='),
{
    text::laws::cuts_need_the_separator(part, seq!['=']);
    if part.contains('=') {
        let j = choose|j: int| 0 <= j < part.len() && part[j] == '=';
        text::laws::characters_occur(part, '=', j);
    } else {
        assert forall|i: int| 0 <= i implies !#[trigger] text::occurs_at(part, seq!['='], i) by {
            text::laws::characters_occur(part, '=', i);
            if i < part.len() {
                assert(part.contains(part[i]));
            }
        }
    }
}

// ---------------------------------------------------------------------
// Nonces
// ---------------------------------------------------------------------

/// A nonce is too old once more than its lifetime has passed since it was
/// issued; times are in nanoseconds and the lifetime in milliseconds.
pub proof fn nonces_live_for_their_lifetime(now: u64, issued: u64, ttl: Millis)
    ensures
        expired(now, issued, ttl) <==> now > issued + ttl * 1_000_000,
{
}

/// A request counts when it uses `qop=auth` with a count and a client nonce;
/// then its count is the hexadecimal number that it states.
pub proof fn counts_are_hexadecimal(p: AuthView, n: nat, width: nat)
    requires
        n <= u32::MAX,
        p.qop == Some("auth"@),
        p.cnonce is Some,
        p.nc == Some(text::padded_hex(n, width)),
    ensures
        count_of(p) == Some(n as u32),
{
    text::laws::padded_hex_reads_back(n, width, u32::MAX as nat);
    let h = text::padded_hex(n, width);
    lemma_hex_tight(n, width);
    tight_texts_stay(h);
}

proof fn lemma_hex_tight(n: nat, width: nat)
    ensures
        tight(text::padded_hex(n, width)),
{
    text::lemma_padded_hex_value(n, width);
    let h = text::padded_hex(n, width);
    if h.len() > 0 {
        lemma_digits_tight(h);
    }
}

proof fn lemma_digits_tight(s: Seq<char>)
    requires
        text::digits_value(s, 16) is Some,
        s.len() > 0,
    ensures
        !text::is_space(s[0]),
        !text::is_space(s.last()),
    decreases s.len(),
{
    if s.len() > 1 {
        lemma_digits_tight(s.drop_last());
        assert(s.drop_last()[0] == s[0]);
    }
}

/// A request without a count uses its nonce up: it is refused where one such
/// was accepted, and so is every one after it. One with a count is refused where
/// the count is not above the last.
pub proof fn nonces_are_used_up(s: NonceState, n: u32)
    ensures
        replays(s, None) == s.2,
        replays(used(s, None), None),
        replays(used(s, None), Some(n)) == replays(s, Some(n)),
        replays(s, Some(n)) <==> n <= s.1,
        replays(used(s, Some(n)), None) == replays(s, None),
        forall|m: u32| #[trigger] replays(used(s, Some(n)), Some(m)) <==> m <= n,
        used(s, Some(n)).0 == s.0 && used(s, None).0 == s.0,
{
}

/// Why a request is refused before its account is looked up: it has no digest
/// credentials, they are for another realm, of an unknown algorithm, for
/// another URI, or their live nonce was used; in this order.
pub proof fn requests_are_refused_early(
    nonces: Nonces,
    realm: Seq<char>,
    request_uri: Seq<char>,
    header: Seq<char>,
    now: u64,
    ttl: Millis,
)
    ensures
        ({
            let r = prechecked(nonces, realm, request_uri, header, now, ttl);
            let p = authorization_of(header)->0;
            let known = nonces.contains_key(seq![p.nonce]);
            let nonce = nonces[seq![p.nonce]];
            &&& authorization_of(header) is None ==> r == Err::<(AuthView, Algorithm), AuthError>(
                AuthError::Missing,
            )
            &&& authorization_of(header) is Some ==> {
                &&& p.realm != realm ==> r == Err::<(AuthView, Algorithm), AuthError>(
                    AuthError::WrongRealm,
                )
                &&& p.realm == realm && named_algorithm(p) is None ==> r == Err::<
                    (AuthView, Algorithm),
                    AuthError,
                >(AuthError::UnsupportedAlgorithm)
                &&& p.realm == realm && named_algorithm(p) is Some && !uri_matches(
                    p.uri,
                    request_uri,
                ) ==> r == Err::<(AuthView, Algorithm), AuthError>(AuthError::UriMismatch)
                &&& p.realm == realm && named_algorithm(p) is Some && uri_matches(
                    p.uri,
                    request_uri,
                ) ==> {
                    let spent = known && now <= nonce.0 + ttl * 1_000_000 && replays(
                        nonce,
                        count_of(p),
                    );
                    &&& spent ==> r == Err::<(AuthView, Algorithm), AuthError>(
                        AuthError::NonceReplayed,
                    )
                    &&& !spent ==> r == Ok::<(AuthView, Algorithm), AuthError>(
                        (p, named_algorithm(p)->0),
                    )
                }
            }
        }),
{
}

/// A signed URI fits a request when it is its URI, a part of it, or names the
/// same host and port; scheme, user, parameters and headers make no difference
/// to those.
pub proof fn hosts_are_read(user: Seq<char>, host: Seq<char>, tail: Seq<char>)
    requires
        !host.contains('@') && !host.contains(';') && !host.contains('?'),
        !tail.contains('@'),
        tail.len() > 0 ==> tail[0] == ';' || tail[0] == '?',
    ensures
        authority("sip:"@ + user + "@"@ + host + tail) == host,
        authority("sips:"@ + user + "@"@ + host + tail) == host,
{
    reveal_strlit("sip:");
    reveal_strlit("sips:");
    reveal_strlit("@");
    assert("@"@ =~= seq!['@']);
    assert("sip:"@.len() == 4 && "sips:"@.len() == 5);
    let end = host + tail;
    let body = user + "@"@ + end;
    let plain = "sip:"@ + user + "@"@ + host + tail;
    let secure = "sips:"@ + user + "@"@ + host + tail;
    assert(plain.subrange(4, plain.len() as int) =~= body);
    assert(secure.subrange(5, secure.len() as int) =~= body);
    assert(plain.subrange(0, 4) =~= "sip:"@);
    assert(secure.subrange(0, 5) =~= "sips:"@);
    assert("sips:"@[3] == 's' && plain[3] == ':');
    if text::begins_with(plain, "sips:"@) {
        assert(plain.subrange(0, 5)[3] == "sips:"@[3]);
    }
    assert(!end.contains('@')) by {
        if end.contains('@') {
            let j = choose|j: int| 0 <= j < end.len() && end[j] == '@';
            if j < host.len() {
                assert(host.contains(host[j]));
            } else {
                assert(end[j] == tail[j - host.len()]);
                assert(tail.contains(tail[j - host.len()]));
            }
        }
    }
    cuts_from_the_end_divide_at_the_last(user, '@', end);
    let stops = seq![';', '?'];
    assert(stops[0] == ';' && stops[1] == '?');
    assert(stops.contains(stops[0]) && stops.contains(stops[1]));
    assert forall|i: int| 0 <= i < host.len() implies !stops.contains(#[trigger] host[i]) by {
        assert(host.contains(host[i]));
    }
    prefixes_end_at_the_first_stop(host, tail, stops);
}

/// Which URIs fit: the same one, one that holds the signed one, and one of the
/// same host and port; no other.
pub proof fn uris_fit(signed: Seq<char>, request_uri: Seq<char>)
    ensures
        uri_matches(signed, request_uri) <==> {
            ||| signed == request_uri
            ||| exists|i: int| #[trigger] text::occurs_at(request_uri, signed, i)
            ||| authority(signed) == authority(request_uri)
        },
{
    text::lemma_find_from(request_uri, signed, 0);
    if text::find_from(request_uri, signed, 0) is Some {
        assert(text::occurs_at(request_uri, signed, text::find_from(request_uri, signed, 0)->0));
    }
}

/// A nonce that is issued is there, unused, and the table never grows beyond
/// its cap.
pub proof fn tables_of_nonces_stay_bounded(
    before: Stock,
    after: Stock,
    nonce: Seq<char>,
    now: u64,
    ttl: Millis,
    max: nat,
)
    requires
        is_issued(before, after, nonce, now, ttl, max),
        before.0.dom().finite(),
        max >= 1,
    ensures
        after.0.contains_key(seq![nonce]),
        after.0[seq![nonce]] == (now, 0u32, false),
        before.0.dom().len() <= max ==> after.0.dom().len() <= max,
{
    let due = sweeps(before.0, now, ttl, max, before.1);
    let clean = choose|clean: Nonces|
        after.0 == #[trigger] clean.insert(seq![nonce], (now, 0u32, false)) && if due {
            is_swept(before.0, clean, now, ttl, max)
        } else {
            clean == before.0
        };
    let live = swept(before.0, now, ttl);
    assert(live.dom().subset_of(before.0.dom()));
    vstd::set_lib::lemma_len_subset(live.dom(), before.0.dom());
    assert(after.0.dom() =~= clean.dom().insert(seq![nonce]));
}

/// A sweep of a table that does not overflow takes out the nonces that are too
/// old and no others. A table that overflows loses a tenth, at least one, and
/// no nonce leaves while an older one stays.
pub proof fn sweeps_take_the_old(
    nonces: Nonces,
    after: Nonces,
    now: u64,
    ttl: Millis,
    max: nat,
    k: Seq<Seq<char>>,
    other: Seq<Seq<char>>,
)
    requires
        is_swept(nonces, after, now, ttl, max),
    ensures
        after.contains_key(k) ==> nonces.contains_key(k) && after[k] == nonces[k] && now
            <= nonces[k].0 + ttl * 1_000_000,
        swept(nonces, now, ttl).dom().len() < max ==> (after.contains_key(k)
            <==> nonces.contains_key(k) && now <= nonces[k].0 + ttl * 1_000_000),
        nonces.contains_key(k) && now <= nonces[k].0 + ttl * 1_000_000 && !after.contains_key(k)
            && after.contains_key(other) && nonces[k].0 <= now && nonces[other].0 <= now
            ==> nonces[k].0 <= nonces[other].0,
{
    let live = swept(nonces, now, ttl);
    if live.dom().len() >= max {
        if after.contains_key(k) {
            assert(after.dom().contains(k));
            assert(live.dom().contains(k));
        }
        if after.contains_key(other) {
            assert(after.dom().contains(other));
            assert(live.dom().contains(other));
        }
        if nonces.contains_key(k) && now <= nonces[k].0 + ttl * 1_000_000 && !after.contains_key(k)
            && after.contains_key(other) {
            assert(live.contains_key(k));
            assert(age(now, live[k].0) >= age(now, live[other].0));
        }
    }
}

/// A full table loses a tenth of its nonces, but at least one; sweeps of others
/// lie a second apart, or the lifetime of a nonce where that is shorter.
pub proof fn sweeps_are_measured(len: nat, ttl: Millis)
    ensures
        len >= 20 ==> 10 * eviction(len) <= len < 10 * (eviction(len) + 1),
        len < 20 ==> eviction(len) == 1,
        ttl >= 1_000 ==> sweep_interval(ttl) == 1_000,
        ttl < 1_000 ==> sweep_interval(ttl) == ttl,
{
}

/// A challenge names the realm and the nonce in quotation marks, offers
/// `qop=auth`, and says its algorithm, and that the nonce was stale where only
/// that was wrong.
pub proof fn challenges_name_realm_and_nonce(
    realm: Seq<char>,
    nonce: Seq<char>,
    algorithm: Algorithm,
    stale: bool,
)
    ensures
        ({
            let c = challenge_text(realm, nonce, algorithm, stale);
            let front = "Digest realm=\""@ + realm + "\", nonce=\""@ + nonce
                + "\", qop=\"auth\", algorithm="@;
            let rest = c.subrange(front.len() as int, c.len() as int);
            &&& text::begins_with(c, front)
            &&& algorithm is Md5 && !stale ==> rest == "MD5"@
            &&& algorithm is Sha256 && !stale ==> rest == "SHA-256"@
            &&& algorithm is Md5 && stale ==> rest == "MD5"@ + ", stale=true"@
            &&& algorithm is Sha256 && stale ==> rest == "SHA-256"@ + ", stale=true"@
        }),
{
    let c = challenge_text(realm, nonce, algorithm, stale);
    let front = "Digest realm=\""@ + realm + "\", nonce=\""@ + nonce
        + "\", qop=\"auth\", algorithm="@;
    let token = super::digest::algorithm_token(algorithm);
    assert(c.subrange(0, front.len() as int) =~= front);
    if stale {
        assert(c.subrange(front.len() as int, c.len() as int) =~= token + ", stale=true"@);
    } else {
        assert(c.subrange(front.len() as int, c.len() as int) =~= token);
    }
}

// ---------------------------------------------------------------------
// Webhook
// ---------------------------------------------------------------------

/// What the webhook's answer means: `accept` with a hash is the account with
/// that hash, `deny` that there is none; every other answer, and every status
/// but 200, is a failure.
pub proof fn webhook_answers_have_their_meaning(
    reply: WebhookReply,
    realm: Seq<char>,
    username: Seq<char>,
)
    ensures
        ({
            let m = meaning(reply, realm, username);
            &&& reply is Failed || reply is Unreadable ==> m is Failed
            &&& reply matches WebhookReply::Answer { code, status, ha1 } ==> {
                &&& code == 200 && status@ == "accept"@ && ha1 is Some ==> m == LookupView::Found(
                    Some(
                        CredentialsView {
                            username,
                            realm,
                            password: Seq::empty(),
                            ha1: Some((ha1->0)@),
                        },
                    ),
                )
                &&& code == 200 && status@ == "deny"@ ==> m == LookupView::Found(None)
                &&& code != 200 || (status@ == "accept"@ && ha1 is None) || (status@ != "accept"@
                    && status@ != "deny"@) ==> m is Failed
            }
        }),
{
    reveal_strlit("accept");
    reveal_strlit("deny");
    assert("accept"@.len() == 6 && "deny"@.len() == 4);
}

/// A lookup asks unless the breaker is open; then it fails, or finds nothing
/// where failures are to be passed over. An answer ends it and closes the
/// breaker; a failure is tried again as often as there are retries.
pub proof fn lookups_go_on(
    b: BreakerView,
    mode: FailureMode,
    retries: u8,
    attempt: u8,
    outcome: LookupView,
    now: u64,
)
    ensures
        gate_of(b, now) is None ==> begin(b, mode, now) is Ask,
        gate_of(b, now) is Some && mode is FailOpen ==> begin(b, mode, now) == StepView::Done(
            LookupView::Found(None),
        ),
        gate_of(b, now) is Some && mode is FailClosed ==> (begin(b, mode, now) matches
            StepView::Done(LookupView::Failed(_))),
        outcome is Found ==> proceed(b, retries, attempt, outcome, now).1 == StepView::Done(outcome)
            && proceed(b, retries, attempt, outcome, now).0.failures == 0 && proceed(
            b,
            retries,
            attempt,
            outcome,
            now,
        ).0.tripped_at == 0,
        outcome is Failed && attempt < retries ==> proceed(b, retries, attempt, outcome, now) == (
            b,
            StepView::Ask,
        ),
        outcome is Failed && attempt >= retries ==> {
            let (after, step) = proceed(b, retries, attempt, outcome, now);
            &&& step == StepView::Done(outcome)
            &&& b.failures < u32::MAX ==> after.failures == b.failures + 1
            &&& after.failures >= b.threshold ==> after.tripped_at == now
            &&& after.failures < b.threshold ==> after.tripped_at == b.tripped_at
        },
        wire_token(Algorithm::Md5) == "md5"@,
        wire_token(Algorithm::Sha256) == "sha-256"@,
{
}

/// The scheme is `Digest`, with a capital or without; another is none.
pub proof fn the_scheme_is_digest(rest: Seq<char>)
    requires
        rest.len() > 0,
        !text::is_space(rest.last()),
    ensures
        authorization_of("digest "@ + rest) == authorization_of("Digest "@ + rest),
        authorization_of("Basic "@ + rest) is None,
{
    reveal_strlit("Digest ");
    reveal_strlit("digest ");
    reveal_strlit("Basic ");
    let up = "Digest "@ + rest;
    let low = "digest "@ + rest;
    let basic = "Basic "@ + rest;
    assert("Digest "@.len() == 7 && "digest "@.len() == 7 && "Basic "@.len() == 6);
    assert("Digest "@[0] == 'D' && "digest "@[0] == 'd' && "Basic "@[0] == 'B');
    assert(up[0] == 'D' && low[0] == 'd' && basic[0] == 'B');
    assert(up.last() == rest.last() && low.last() == rest.last() && basic.last() == rest.last());
    tight_texts_stay(up);
    tight_texts_stay(low);
    tight_texts_stay(basic);
    assert(up.subrange(0, 7) =~= "Digest "@);
    assert(low.subrange(0, 7) =~= "digest "@);
    assert(up.subrange(7, up.len() as int) =~= rest);
    assert(low.subrange(7, low.len() as int) =~= rest);
    assert(!text::begins_with(low, "Digest "@)) by {
        if text::begins_with(low, "Digest "@) {
            assert(low.subrange(0, 7)[0] == "Digest "@[0]);
        }
    }
    assert(!text::begins_with(basic, "Digest "@)) by {
        if text::begins_with(basic, "Digest "@) {
            assert(basic.subrange(0, 7)[0] == "Digest "@[0]);
        }
    }
    assert(!text::begins_with(basic, "digest "@)) by {
        if text::begins_with(basic, "digest "@) {
            assert(basic.subrange(0, 7)[0] == "digest "@[0]);
        }
    }
}

/// SHA-256 is also known without its hyphen; an algorithm that is not named is
/// MD5; a count that cannot be read is the largest, so that nothing follows it.
pub proof fn loose_ends_are_tied(p: AuthView)
    ensures
        algorithm_named("SHA256"@) == Some(Algorithm::Sha256),
        algorithm_named("SHA-256"@) == Some(Algorithm::Sha256),
        algorithm_named("MD5"@) == Some(Algorithm::Md5),
        p.algorithm is None ==> named_algorithm(p) == Some(Algorithm::Md5),
        p.algorithm matches Some(a) ==> named_algorithm(p) == algorithm_named(a),
        p.qop == Some("auth"@) && p.nc is Some && p.cnonce is Some && text::uint_value(
            text::trimmed(p.nc->0),
            16,
            u32::MAX as nat,
        ) is None ==> count_of(p) == Some(u32::MAX),
        p.qop != Some("auth"@) || p.nc is None || p.cnonce is None ==> count_of(p) is None,
{
    reveal_strlit("SHA256");
    reveal_strlit("SHA-256");
    reveal_strlit("MD5");
    reveal_strlit("");
    assert("SHA256"@.len() == 6 && "SHA-256"@.len() == 7 && "MD5"@.len() == 3 && ""@.len() == 0);
    assert(text::uppered("SHA256"@) =~= "SHA256"@);
    assert(text::uppered("SHA-256"@) =~= "SHA-256"@);
    assert(text::uppered("MD5"@) =~= "MD5"@);
    assert(text::uppered(""@) =~= ""@);
}

/// A nonce that is too old is taken out when it is used; one that is not known,
/// or was used, changes nothing; one that serves is marked as used, and no other
/// is touched.
pub proof fn used_nonces_are_marked(
    nonces: Nonces,
    nonce: Seq<char>,
    count: Option<u32>,
    now: u64,
    ttl: Millis,
    other: Seq<Seq<char>>,
)
    requires
        other != seq![nonce],
    ensures
        ({
            let (after, refused) = claimed(nonces, nonce, count, now, ttl);
            let k = seq![nonce];
            let known = nonces.contains_key(k);
            let old = known && now > nonces[k].0 + ttl * 1_000_000;
            &&& !known ==> refused == Some(AuthError::StaleNonce) && after == nonces
            &&& old ==> refused == Some(AuthError::StaleNonce) && !after.contains_key(k)
            &&& known && !old && replays(nonces[k], count) ==> refused == Some(
                AuthError::NonceReplayed,
            ) && after == nonces
            &&& known && !old && !replays(nonces[k], count) ==> {
                &&& refused is None
                &&& after.contains_key(k)
                &&& after[k].0 == nonces[k].0
                &&& count matches Some(n) ==> after[k].1 == n && after[k].2 == nonces[k].2
                &&& count is None ==> after[k].2 && after[k].1 == nonces[k].1
            }
            &&& after.contains_key(other) == nonces.contains_key(other)
            &&& nonces.contains_key(other) ==> after[other] == nonces[other]
        }),
{
}

} // verus!
