//! Digest authentication (RFC 2617, RFC 7616, RFC 8760).

use vstd::prelude::*;
use vstd::utf8::encode_utf8;

pub use super::registrar::{AuthError, Registrar, DEFAULT_MAX_NONCES};
use crate::text;
use crate::uas::parse::{strip_prefix, without_prefix};

verus! {

// ---------------------------------------------------------------------
// Hashes
// ---------------------------------------------------------------------

/// Supported digest algorithms.
#[derive(Clone, Copy, Debug, PartialEq, Eq, Hash, Structural)]
pub enum Algorithm {
    /// MD5 (RFC 2617).
    Md5,
    /// SHA-256 (RFC 8760).
    Sha256,
}

/// The MD5 hash of `input`.
pub uninterp spec fn md5_hash(input: Seq<u8>) -> Seq<u8>;

/// The SHA-256 hash of `input`.
pub uninterp spec fn sha256_hash(input: Seq<u8>) -> Seq<u8>;

/// `md5::Md5::digest`: the 16 bytes of the MD5 hash. Which bytes these are has
/// a name but is not spelled out.
#[verifier::external_body]
fn md5_of(input: &[u8]) -> (r: Vec<u8>)
    ensures
        r@ == md5_hash(input@),
        r@.len() == 16,
{
    <md5::Md5 as md5::Digest>::digest(input).to_vec()
}

/// `sha2::Sha256::digest`: the 32 bytes of the SHA-256 hash. Which bytes these
/// are has a name but is not spelled out.
#[verifier::external_body]
fn sha256_of(input: &[u8]) -> (r: Vec<u8>)
    ensures
        r@ == sha256_hash(input@),
        r@.len() == 32,
{
    <sha2::Sha256 as sha2::Digest>::digest(input).to_vec()
}

/// `bytes` in lower-case hexadecimal, two digits each.
pub open spec fn hex_text(bytes: Seq<u8>) -> Seq<char> {
    Seq::new(
        2 * bytes.len(),
        |i: int|
            text::digit_char(
                if i % 2 == 0 {
                    (bytes[i / 2] / 16) as nat
                } else {
                    (bytes[i / 2] % 16) as nat
                },
            ),
    )
}

/// `hex::encode`: lower-case hexadecimal, two digits for each byte.
#[verifier::external_body]
pub(crate) fn hex_of(bytes: &[u8]) -> (r: String)
    ensures
        r@ == hex_text(bytes@),
{
    hex::encode(bytes)
}

/// The hash of `input` in hexadecimal.
pub open spec fn hash_text(alg: Algorithm, input: Seq<u8>) -> Seq<char> {
    match alg {
        Algorithm::Md5 => hex_text(md5_hash(input)),
        Algorithm::Sha256 => hex_text(sha256_hash(input)),
    }
}

/// The algorithm that a token names, in any case; nothing names MD5.
pub open spec fn algorithm_named(token: Seq<char>) -> Option<Algorithm> {
    let t = text::uppered(token);
    if t == "MD5"@ || t == ""@ {
        Some(Algorithm::Md5)
    } else if t == "SHA-256"@ || t == "SHA256"@ {
        Some(Algorithm::Sha256)
    } else {
        None
    }
}

/// The token of an algorithm.
pub open spec fn algorithm_token(alg: Algorithm) -> Seq<char> {
    match alg {
        Algorithm::Md5 => "MD5"@,
        Algorithm::Sha256 => "SHA-256"@,
    }
}

impl Algorithm {
    /// The token of the algorithm.
    #[must_use]
    pub fn as_str(self) -> (r: &'static str)
        ensures
            r@ == algorithm_token(self),
    {
        match self {
            Algorithm::Md5 => "MD5",
            Algorithm::Sha256 => "SHA-256",
        }
    }

    /// Reads a token, in any case. An absent one means MD5.
    #[must_use]
    pub fn parse(token: &str) -> (r: Option<Self>)
        ensures
            r == algorithm_named(token@),
    {
        let upper = text::to_upper(&text::to_chars(token));
        let t = text::to_string(&upper);
        if t == "MD5".to_owned() || t == "".to_owned() {
            Some(Algorithm::Md5)
        } else if t == "SHA-256".to_owned() || t == "SHA256".to_owned() {
            Some(Algorithm::Sha256)
        } else {
            None
        }
    }

    /// The hash of `input` in hexadecimal.
    #[must_use]
    pub fn hash_hex(self, input: &[u8]) -> (r: String)
        ensures
            r@ == hash_text(self, input@),
    {
        match self {
            Algorithm::Md5 => hex_of(&md5_of(input)),
            Algorithm::Sha256 => hex_of(&sha256_of(input)),
        }
    }
}

/// Reading back the token of an algorithm, in any letter case, gives the
/// algorithm.
pub proof fn algorithm_token_round_trips(alg: Algorithm, token: Seq<char>)
    requires
        text::same_ignoring_case(token, algorithm_token(alg)),
    ensures
        algorithm_named(token) == Some(alg),
{
    reveal_strlit("MD5");
    reveal_strlit("SHA-256");
    reveal_strlit("SHA256");
    reveal_strlit("");
    text::lemma_same_uppered(token, algorithm_token(alg));
    assert(text::uppered("MD5"@) =~= "MD5"@);
    assert(text::uppered("SHA-256"@) =~= "SHA-256"@);
}

/// `a:b:c`.
pub open spec fn joined3(a: Seq<char>, b: Seq<char>, c: Seq<char>) -> Seq<char> {
    a + ":"@ + b + ":"@ + c
}

/// Hash of user name, realm and password.
pub open spec fn ha1_text(
    alg: Algorithm,
    username: Seq<char>,
    realm: Seq<char>,
    password: Seq<char>,
) -> Seq<char> {
    hash_text(alg, encode_utf8(joined3(username, realm, password)))
}

/// Hash of method and URI.
pub open spec fn ha2_text(alg: Algorithm, method: Seq<char>, uri: Seq<char>) -> Seq<char> {
    hash_text(alg, encode_utf8(method + ":"@ + uri))
}

/// The response that `qop=auth` calls for.
pub open spec fn qop_response_text(
    alg: Algorithm,
    ha1: Seq<char>,
    nonce: Seq<char>,
    nc: Seq<char>,
    cnonce: Seq<char>,
    ha2: Seq<char>,
) -> Seq<char> {
    hash_text(
        alg,
        encode_utf8(
            ha1 + ":"@ + nonce + ":"@ + nc + ":"@ + cnonce + ":auth:"@ + ha2,
        ),
    )
}

/// The response without `qop`.
pub open spec fn plain_response_text(
    alg: Algorithm,
    ha1: Seq<char>,
    nonce: Seq<char>,
    ha2: Seq<char>,
) -> Seq<char> {
    hash_text(alg, encode_utf8(joined3(ha1, nonce, ha2)))
}

fn join3(a: &str, b: &str, c: &str) -> (r: String)
    ensures
        r@ == joined3(a@, b@, c@),
{
    let mut s: String = a.to_owned();
    s.append(":");
    s.append(b);
    s.append(":");
    s.append(c);
    s
}

/// `H(username:realm:password)`.
#[must_use]
pub fn ha1(alg: Algorithm, username: &str, realm: &str, password: &str) -> (r: String)
    ensures
        r@ == ha1_text(alg, username@, realm@, password@),
{
    alg.hash_hex(&text::to_bytes(&join3(username, realm, password)))
}

/// `H(method:uri)`.
#[must_use]
pub fn ha2(alg: Algorithm, method: &str, uri: &str) -> (r: String)
    ensures
        r@ == ha2_text(alg, method@, uri@),
{
    let mut s: String = method.to_owned();
    s.append(":");
    s.append(uri);
    alg.hash_hex(&text::to_bytes(&s))
}

/// `H(HA1:nonce:nc:cnonce:auth:HA2)`.
#[must_use]
pub fn response_qop_auth(
    alg: Algorithm,
    ha1: &str,
    nonce: &str,
    nc: &str,
    cnonce: &str,
    ha2: &str,
) -> (r: String)
    ensures
        r@ == qop_response_text(alg, ha1@, nonce@, nc@, cnonce@, ha2@),
{
    let mut s: String = ha1.to_owned();
    s.append(":");
    s.append(nonce);
    s.append(":");
    s.append(nc);
    s.append(":");
    s.append(cnonce);
    s.append(":auth:");
    s.append(ha2);
    alg.hash_hex(&text::to_bytes(&s))
}

/// `H(HA1:nonce:HA2)`.
#[must_use]
pub fn response_no_qop(alg: Algorithm, ha1: &str, nonce: &str, ha2: &str) -> (r: String)
    ensures
        r@ == plain_response_text(alg, ha1@, nonce@, ha2@),
{
    alg.hash_hex(&text::to_bytes(&join3(ha1, nonce, ha2)))
}

// ---------------------------------------------------------------------
// The Authorization header
// ---------------------------------------------------------------------

/// The parameters of an `Authorization` header.
#[derive(Clone, Debug)]
pub struct AuthParams {
    pub username: String,
    pub realm: String,
    pub nonce: String,
    pub uri: String,
    pub response: String,
    pub algorithm: Option<String>,
    pub qop: Option<String>,
    pub nc: Option<String>,
    pub cnonce: Option<String>,
}

/// Model of [`AuthParams`].
#[verifier::ext_equal]
pub struct AuthView {
    pub username: Seq<char>,
    pub realm: Seq<char>,
    pub nonce: Seq<char>,
    pub uri: Seq<char>,
    pub response: Seq<char>,
    pub algorithm: Option<Seq<char>>,
    pub qop: Option<Seq<char>>,
    pub nc: Option<Seq<char>>,
    pub cnonce: Option<Seq<char>>,
}

impl View for AuthParams {
    type V = AuthView;

    open spec fn view(&self) -> AuthView {
        AuthView {
            username: self.username@,
            realm: self.realm@,
            nonce: self.nonce@,
            uri: self.uri@,
            response: self.response@,
            algorithm: text::text_opt(self.algorithm),
            qop: text::text_opt(self.qop),
            nc: text::text_opt(self.nc),
            cnonce: text::text_opt(self.cnonce),
        }
    }
}

/// The parts of a comma-separated parameter list, from `i` on: `start` is where
/// the current part began, and a comma inside double quotes separates nothing.
/// An empty part counts, except at the end.
pub open spec fn params_from(s: Seq<char>, i: int, start: int, quoted: bool) -> Seq<Seq<char>>
    decreases s.len() - i,
{
    if i < 0 || i >= s.len() {
        let tail = text::trimmed(s.subrange(start, s.len() as int));
        if tail.len() > 0 {
            seq![tail]
        } else {
            seq![]
        }
    } else if s[i] == '"' {
        params_from(s, i + 1, start, !quoted)
    } else if s[i] == ',' && !quoted {
        seq![text::trimmed(s.subrange(start, i))] + params_from(s, i + 1, i + 1, false)
    } else {
        params_from(s, i + 1, start, quoted)
    }
}

/// `s` without the double quotes around it.
pub open spec fn unquoted(s: Seq<char>) -> Seq<char> {
    if s.len() >= 2 && s[0] == '"' && s.last() == '"' {
        s.subrange(1, s.len() - 1)
    } else {
        s
    }
}

/// The name of a parameter, in lower case.
pub open spec fn param_name(part: Seq<char>) -> Seq<char> {
    text::lowered(text::trimmed((text::cut(part, seq!['='])->0).0))
}

/// The value of a parameter.
pub open spec fn param_text(part: Seq<char>) -> Seq<char> {
    unquoted(text::trimmed((text::cut(part, seq!['='])->0).1))
}

/// The value of the last of the first `n` parts that is named `name`.
pub open spec fn param_of(parts: Seq<Seq<char>>, name: Seq<char>, n: int) -> Option<Seq<char>>
    decreases n,
{
    if n <= 0 || n > parts.len() {
        None
    } else if param_name(parts[n - 1]) == name {
        Some(param_text(parts[n - 1]))
    } else {
        param_of(parts, name, n - 1)
    }
}

/// `o`, or nothing.
pub open spec fn or_empty(o: Option<Seq<char>>) -> Seq<char> {
    match o {
        Some(s) => s,
        None => seq![],
    }
}

/// What the first `n` parts say.
pub open spec fn params_view(parts: Seq<Seq<char>>, n: int) -> AuthView {
    AuthView {
        username: or_empty(param_of(parts, "username"@, n)),
        realm: or_empty(param_of(parts, "realm"@, n)),
        nonce: or_empty(param_of(parts, "nonce"@, n)),
        uri: or_empty(param_of(parts, "uri"@, n)),
        response: or_empty(param_of(parts, "response"@, n)),
        algorithm: param_of(parts, "algorithm"@, n),
        qop: param_of(parts, "qop"@, n),
        nc: param_of(parts, "nc"@, n),
        cnonce: param_of(parts, "cnonce"@, n),
    }
}

/// What follows the scheme `Digest`.
pub open spec fn after_digest(value: Seq<char>) -> Option<Seq<char>> {
    let t = text::trimmed(value);
    if without_prefix(t, "Digest "@) is Some {
        without_prefix(t, "Digest "@)
    } else {
        without_prefix(t, "digest "@)
    }
}

/// Each part has a name and a value.
pub open spec fn all_named(parts: Seq<Seq<char>>) -> bool {
    forall|i: int| 0 <= i < parts.len() ==> text::cut(#[trigger] parts[i], seq!['=']) is Some
}

/// The parameters in an `Authorization` value; `None` when the scheme is not
/// `Digest`, a part has no `=`, or a required parameter is missing or empty.
pub open spec fn authorization_of(value: Seq<char>) -> Option<AuthView> {
    match after_digest(value) {
        Some(rest) => {
            let parts = params_from(rest, 0, 0, false);
            let p = params_view(parts, parts.len() as int);
            if all_named(parts) && p.username.len() > 0 && p.realm.len() > 0 && p.nonce.len() > 0
                && p.uri.len() > 0 && p.response.len() > 0 {
                Some(p)
            } else {
                None
            }
        },
        None => None,
    }
}

/// Splits a parameter list at the commas outside of double quotes.
pub fn split_params<'a>(input: &'a [char]) -> (r: Vec<&'a [char]>)
    ensures
        text::views(r@) == params_from(input@, 0, 0, false),
{
    let mut out: Vec<&'a [char]> = Vec::new();
    assert(text::views(out@) =~= seq![]);
    let mut start: usize = 0;
    let mut in_quote: bool = false;
    let mut i: usize = 0;
    while i < input.len()
        invariant
            start <= i <= input@.len(),
            text::views(out@) + params_from(input@, i as int, start as int, in_quote)
                =~= params_from(input@, 0, 0, false),
        decreases input.len() - i,
    {
        let c = input[i];
        if c == '"' {
            in_quote = !in_quote;
        } else if c == ',' && !in_quote {
            let ghost before = out@;
            out.push(text::trim(text::part(input, start, i)));
            assert(text::views(out@) =~= text::views(before).push(
                text::trimmed(input@.subrange(start as int, i as int)),
            ));
            start = i + 1;
        }
        i = i + 1;
    }
    let tail = text::trim(text::part(input, start, input.len()));
    if tail.len() > 0 {
        let ghost before = out@;
        out.push(tail);
        assert(text::views(out@) =~= text::views(before).push(tail@));
    }
    out
}

/// Removes the double quotes around `s`.
pub fn unquote(s: &[char]) -> (r: String)
    ensures
        r@ == unquoted(s@),
{
    let n: usize = s.len();
    if n >= 2 && s[0] == '"' && s[n - 1] == '"' {
        text::to_string(text::part(s, 1, n - 1))
    } else {
        text::to_string(s)
    }
}

/// Reads an `Authorization` value; see [`authorization_of`].
#[must_use]
pub fn parse_authorization(header_value: &str) -> (r: Option<AuthParams>)
    ensures
        match r {
            Some(p) => authorization_of(header_value@) == Some(p@),
            None => authorization_of(header_value@) is None,
        },
{
    let chars = text::to_chars(header_value);
    let trimmed = text::trim(&chars);
    let rest = match strip_prefix(trimmed, "Digest ") {
        Some(s) => s,
        None => match strip_prefix(trimmed, "digest ") {
            Some(s) => s,
            None => {
                return None;
            },
        },
    };
    let eq: [char; 1] = ['='];
    assert(eq@ =~= seq!['=']);
    let raw = split_params(rest);
    let ghost parts = text::views(raw@);
    let mut p = AuthParams {
        username: String::new(),
        realm: String::new(),
        nonce: String::new(),
        uri: String::new(),
        response: String::new(),
        algorithm: None,
        qop: None,
        nc: None,
        cnonce: None,
    };
    assert(p@ =~= params_view(parts, 0));
    let mut i: usize = 0;
    while i < raw.len()
        invariant
            i <= raw@.len(),
            eq@ == seq!['='],
            parts == text::views(raw@),
            after_digest(header_value@) == Some(rest@),
            parts == params_from(rest@, 0, 0, false),
            p@ == params_view(parts, i as int),
            forall|j: int| 0 <= j < i ==> text::cut(#[trigger] parts[j], seq!['=']) is Some,
        decreases raw.len() - i,
    {
        let ghost before = p@;
        assert(parts[i as int] == raw@[i as int]@);
        match text::split_once(raw[i], &eq) {
            Some(kv) => {
                let lower = text::to_lower(text::trim(kv.0));
                let key = text::to_string(&lower);
                let val = unquote(text::trim(kv.1));
                if key == "username".to_owned() {
                    p.username = val.clone();
                }
                if key == "realm".to_owned() {
                    p.realm = val.clone();
                }
                if key == "nonce".to_owned() {
                    p.nonce = val.clone();
                }
                if key == "uri".to_owned() {
                    p.uri = val.clone();
                }
                if key == "response".to_owned() {
                    p.response = val.clone();
                }
                if key == "algorithm".to_owned() {
                    p.algorithm = Some(val.clone());
                }
                if key == "qop".to_owned() {
                    p.qop = Some(val.clone());
                }
                if key == "nc".to_owned() {
                    p.nc = Some(val.clone());
                }
                if key == "cnonce".to_owned() {
                    p.cnonce = Some(val.clone());
                }
                assert(p@ =~= params_view(parts, i + 1));
            },
            None => {
                return None;
            },
        }
        i = i + 1;
    }
    if p.username.as_str().is_empty() || p.realm.as_str().is_empty() || p.nonce.as_str().is_empty() || p.uri.as_str().is_empty()
        || p.response.as_str().is_empty() {
        return None;
    }
    Some(p)
}

} // verus!
