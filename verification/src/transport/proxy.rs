//! Outbound proxies: the bytes of a SOCKS5 handshake (RFC 1928, RFC 1929) and
//! of an HTTP `CONNECT` (RFC 9110 section 9.3.6).
//!
//! Both run as machines: bytes that arrived go in, and out comes what to send,
//! how many bytes to read next, success or failure.

use base64::Engine;
use vstd::prelude::*;
use vstd::utf8::encode_utf8;

use crate::text;

verus! {

/// User name and password.
pub type ProxyCredentials = (String, String);

/// An address to connect to.
#[derive(Clone, Copy, Debug)]
pub enum PeerAddr {
    /// IPv4.
    V4 {
        /// Address.
        octets: [u8; 4],
        /// Port.
        port: u16,
    },
    /// IPv6.
    V6 {
        /// Address.
        octets: [u8; 16],
        /// Port.
        port: u16,
    },
}

// ---------------------------------------------------------------------
// SOCKS5
// ---------------------------------------------------------------------

/// What the proxy must send next.
#[derive(Clone, Copy, Debug, PartialEq, Eq, Structural)]
pub enum Socks5Stage {
    /// The method it chose: 2 bytes.
    Method,
    /// Its verdict on the credentials: 2 bytes.
    Verdict,
    /// The head of its reply: 4 bytes.
    Reply,
    /// The length of a host name: 1 byte.
    NameLength,
    /// The bound address and port.
    Bound,
    /// Nothing: the tunnel is open or the handshake failed.
    Over,
}

/// What to do next.
#[derive(Debug)]
pub enum HandshakeStep {
    /// Write `bytes`, then read `want` bytes.
    Send {
        /// Bytes to write.
        bytes: Vec<u8>,
        /// How many to read.
        want: usize,
    },
    /// Read `want` bytes.
    Read {
        /// How many to read.
        want: usize,
    },
    /// The tunnel is open.
    Open,
    /// The handshake failed.
    Failed(String),
}

/// Model of a [`HandshakeStep`].
#[verifier::ext_equal]
pub enum HandshakeView {
    Send { bytes: Seq<u8>, want: nat },
    Read { want: nat },
    Open,
    Failed(Seq<char>),
}

impl View for HandshakeStep {
    type V = HandshakeView;

    open spec fn view(&self) -> HandshakeView {
        match *self {
            HandshakeStep::Send { bytes, want } => HandshakeView::Send {
                bytes: bytes@,
                want: want as nat,
            },
            HandshakeStep::Read { want } => HandshakeView::Read { want: want as nat },
            HandshakeStep::Open => HandshakeView::Open,
            HandshakeStep::Failed(m) => HandshakeView::Failed(m@),
        }
    }
}

/// The methods that the engine offers: none, and with credentials also user
/// name and password.
pub open spec fn greeting(with_credentials: bool) -> Seq<u8> {
    if with_credentials {
        seq![5u8, 2, 0, 2]
    } else {
        seq![5u8, 1, 0]
    }
}

/// High and low byte of a port.
pub open spec fn port_bytes(port: u16) -> Seq<u8> {
    seq![(port / 256) as u8, (port % 256) as u8]
}

/// The request to connect to `peer`.
pub open spec fn connect_request(peer: PeerAddr) -> Seq<u8> {
    match peer {
        PeerAddr::V4 { octets, port } => seq![5u8, 1, 0, 1] + octets@ + port_bytes(port),
        PeerAddr::V6 { octets, port } => seq![5u8, 1, 0, 4] + octets@ + port_bytes(port),
    }
}

/// User name and password, each after its length.
pub open spec fn auth_frame(user: Seq<u8>, pass: Seq<u8>) -> Seq<u8> {
    seq![1u8, user.len() as u8] + user + seq![pass.len() as u8] + pass
}

/// A byte as `0x` and two hexadecimal digits.
pub open spec fn hex_byte(b: u8) -> Seq<char> {
    "0x"@ + text::padded_hex(b as nat, 2)
}

/// What a reply code means.
pub open spec fn rep_label(code: u8) -> Seq<char> {
    if code == 1 {
        "general failure"@
    } else if code == 2 {
        "connection not allowed by ruleset"@
    } else if code == 3 {
        "network unreachable"@
    } else if code == 4 {
        "host unreachable"@
    } else if code == 5 {
        "connection refused"@
    } else if code == 6 {
        "TTL expired"@
    } else if code == 7 {
        "command not supported"@
    } else if code == 8 {
        "address type not supported"@
    } else {
        "unknown"@
    }
}

/// The bytes of optional credentials.
pub open spec fn credential_bytes(c: Option<ProxyCredentials>) -> Option<(Seq<u8>, Seq<u8>)> {
    match c {
        Some(p) => Some((encode_utf8(p.0@), encode_utf8(p.1@))),
        None => None,
    }
}

/// After the proxy chose a method.
pub open spec fn on_method(
    credentials: Option<(Seq<u8>, Seq<u8>)>,
    peer: PeerAddr,
    b: Seq<u8>,
) -> (Socks5Stage, HandshakeView) {
    if b[0] != 5 {
        failed("socks5: bad server version in method selection"@)
    } else if b[1] == 0 {
        (Socks5Stage::Reply, HandshakeView::Send { bytes: connect_request(peer), want: 4 })
    } else if b[1] == 2 {
        match credentials {
            None => failed("socks5: server chose user/pass but no credentials configured"@),
            Some((user, pass)) => if user.len() > 255 || pass.len() > 255 {
                failed("socks5 auth: username/password exceed 255 bytes"@)
            } else {
                (Socks5Stage::Verdict, HandshakeView::Send { bytes: auth_frame(user, pass), want: 2 })
            },
        }
    } else if b[1] == 0xff {
        failed("socks5: proxy refused every offered method"@)
    } else {
        failed("socks5: proxy chose unsupported method "@ + hex_byte(b[1]))
    }
}

/// After the proxy judged the credentials.
pub open spec fn on_verdict(peer: PeerAddr, b: Seq<u8>) -> (Socks5Stage, HandshakeView) {
    if b[0] != 1 {
        failed("socks5 auth: bad sub-negotiation version"@)
    } else if b[1] != 0 {
        failed("socks5 auth: credentials rejected"@)
    } else {
        (Socks5Stage::Reply, HandshakeView::Send { bytes: connect_request(peer), want: 4 })
    }
}

/// After the head of the proxy's reply.
pub open spec fn on_reply(b: Seq<u8>) -> (Socks5Stage, HandshakeView) {
    if b[0] != 5 {
        failed("socks5: bad server version in reply"@)
    } else if b[1] != 0 {
        failed(
            "socks5: connect rejected (REP="@ + hex_byte(b[1]) + " \u{2014} "@ + rep_label(b[1])
                + ")"@,
        )
    } else if b[3] == 1 {
        (Socks5Stage::Bound, HandshakeView::Read { want: 6 })
    } else if b[3] == 3 {
        (Socks5Stage::NameLength, HandshakeView::Read { want: 1 })
    } else if b[3] == 4 {
        (Socks5Stage::Bound, HandshakeView::Read { want: 18 })
    } else {
        failed("socks5: unsupported bind ATYP "@ + hex_byte(b[3]))
    }
}

/// A failure.
pub open spec fn failed(message: Seq<char>) -> (Socks5Stage, HandshakeView) {
    (Socks5Stage::Over, HandshakeView::Failed(message))
}

/// How many bytes the proxy owes in a stage; the bound address is as long as
/// was asked for.
pub open spec fn owed(stage: Socks5Stage) -> nat {
    match stage {
        Socks5Stage::Method => 2,
        Socks5Stage::Verdict => 2,
        Socks5Stage::Reply => 4,
        Socks5Stage::NameLength => 1,
        Socks5Stage::Bound => 0,
        Socks5Stage::Over => 0,
    }
}

/// What follows when the bytes that were asked for arrived.
pub open spec fn socks5_step(
    stage: Socks5Stage,
    credentials: Option<(Seq<u8>, Seq<u8>)>,
    peer: PeerAddr,
    b: Seq<u8>,
) -> (Socks5Stage, HandshakeView) {
    match stage {
        Socks5Stage::Method => on_method(credentials, peer, b),
        Socks5Stage::Verdict => on_verdict(peer, b),
        Socks5Stage::Reply => on_reply(b),
        Socks5Stage::NameLength => (
            Socks5Stage::Bound,
            HandshakeView::Read { want: (b[0] + 2) as nat },
        ),
        Socks5Stage::Bound => (Socks5Stage::Over, HandshakeView::Open),
        Socks5Stage::Over => failed("socks5: handshake is over"@),
    }
}

/// What a reply code means.
pub fn socks5_rep_label(code: u8) -> (r: &'static str)
    ensures
        r@ == rep_label(code),
{
    match code {
        1 => "general failure",
        2 => "connection not allowed by ruleset",
        3 => "network unreachable",
        4 => "host unreachable",
        5 => "connection refused",
        6 => "TTL expired",
        7 => "command not supported",
        8 => "address type not supported",
        _ => "unknown",
    }
}

fn push_hex_byte(out: &mut String, b: u8)
    ensures
        final(out)@ == old(out)@ + hex_byte(b),
{
    let mut s: String = "0x".to_owned();
    s.append(&text::hex_string(b as u64, 2));
    out.append(&s);
}

fn connect_bytes(peer: PeerAddr) -> (r: Vec<u8>)
    ensures
        r@ == connect_request(peer),
{
    let mut out: Vec<u8> = vec![5u8, 1, 0];
    let port: u16 = match peer {
        PeerAddr::V4 { octets, port } => {
            out.push(1);
            out.extend_from_slice(&octets);
            port
        },
        PeerAddr::V6 { octets, port } => {
            out.push(4);
            out.extend_from_slice(&octets);
            port
        },
    };
    out.push((port / 256) as u8);
    out.push((port % 256) as u8);
    assert(out@ =~= connect_request(peer));
    out
}

fn fail(message: &str) -> (r: HandshakeStep)
    ensures
        r@ == HandshakeView::Failed(message@),
{
    HandshakeStep::Failed(message.to_owned())
}

/// A SOCKS5 handshake under way.
#[derive(Debug)]
pub struct Socks5Handshake {
    stage: Socks5Stage,
    credentials: Option<ProxyCredentials>,
    peer: PeerAddr,
}

impl Socks5Handshake {
    /// What the proxy must send next.
    pub closed spec fn stage(&self) -> Socks5Stage {
        self.stage
    }

    /// The credentials to offer.
    pub closed spec fn credentials(&self) -> Option<(Seq<u8>, Seq<u8>)> {
        credential_bytes(self.credentials)
    }

    /// Where to connect to.
    pub closed spec fn peer(&self) -> PeerAddr {
        self.peer
    }

    /// Begins a handshake: returns the bytes of the greeting.
    pub fn start(credentials: Option<ProxyCredentials>, peer: PeerAddr) -> (r: (
        Self,
        HandshakeStep,
    ))
        ensures
            r.0.stage() == Socks5Stage::Method,
            r.0.credentials() == credential_bytes(credentials),
            r.0.peer() == peer,
            r.1@ == (HandshakeView::Send { bytes: greeting(credentials is Some), want: 2 }),
    {
        let bytes: Vec<u8> = if credentials.is_some() {
            vec![5u8, 2, 0, 2]
        } else {
            vec![5u8, 1, 0]
        };
        assert(bytes@ =~= greeting(credentials is Some));
        (
            Socks5Handshake { stage: Socks5Stage::Method, credentials, peer },
            HandshakeStep::Send { bytes, want: 2 },
        )
    }

    /// Takes the bytes that were asked for.
    pub fn on_bytes(&mut self, b: &[u8]) -> (r: HandshakeStep)
        requires
            b@.len() >= owed(old(self).stage()),
        ensures
            (final(self).stage(), r@) == socks5_step(
                old(self).stage(),
                old(self).credentials(),
                old(self).peer(),
                b@,
            ),
            final(self).credentials() == old(self).credentials(),
            final(self).peer() == old(self).peer(),
    {
        let stage = self.stage;
        self.stage = Socks5Stage::Over;
        match stage {
            Socks5Stage::Method => {
                if b[0] != 5 {
                    return fail("socks5: bad server version in method selection");
                }
                if b[1] == 0 {
                    self.stage = Socks5Stage::Reply;
                    return HandshakeStep::Send { bytes: connect_bytes(self.peer), want: 4 };
                }
                if b[1] == 2 {
                    return match &self.credentials {
                        None => fail(
                            "socks5: server chose user/pass but no credentials configured",
                        ),
                        Some(c) => {
                            let user = text::to_bytes(&c.0);
                            let pass = text::to_bytes(&c.1);
                            if user.len() > 255 || pass.len() > 255 {
                                fail("socks5 auth: username/password exceed 255 bytes")
                            } else {
                                let mut out: Vec<u8> = vec![1u8, user.len() as u8];
                                out.extend_from_slice(&user);
                                out.push(pass.len() as u8);
                                out.extend_from_slice(&pass);
                                assert(out@ =~= auth_frame(user@, pass@));
                                self.stage = Socks5Stage::Verdict;
                                HandshakeStep::Send { bytes: out, want: 2 }
                            }
                        },
                    };
                }
                if b[1] == 0xff {
                    return fail("socks5: proxy refused every offered method");
                }
                let mut m: String = "socks5: proxy chose unsupported method ".to_owned();
                push_hex_byte(&mut m, b[1]);
                HandshakeStep::Failed(m)
            },
            Socks5Stage::Verdict => {
                if b[0] != 1 {
                    return fail("socks5 auth: bad sub-negotiation version");
                }
                if b[1] != 0 {
                    return fail("socks5 auth: credentials rejected");
                }
                self.stage = Socks5Stage::Reply;
                HandshakeStep::Send { bytes: connect_bytes(self.peer), want: 4 }
            },
            Socks5Stage::Reply => {
                if b[0] != 5 {
                    return fail("socks5: bad server version in reply");
                }
                if b[1] != 0 {
                    let mut m: String = "socks5: connect rejected (REP=".to_owned();
                    push_hex_byte(&mut m, b[1]);
                    m.append(" \u{2014} ");
                    m.append(socks5_rep_label(b[1]));
                    m.append(")");
                    return HandshakeStep::Failed(m);
                }
                if b[3] == 1 {
                    self.stage = Socks5Stage::Bound;
                    return HandshakeStep::Read { want: 6 };
                }
                if b[3] == 3 {
                    self.stage = Socks5Stage::NameLength;
                    return HandshakeStep::Read { want: 1 };
                }
                if b[3] == 4 {
                    self.stage = Socks5Stage::Bound;
                    return HandshakeStep::Read { want: 18 };
                }
                let mut m: String = "socks5: unsupported bind ATYP ".to_owned();
                push_hex_byte(&mut m, b[3]);
                HandshakeStep::Failed(m)
            },
            Socks5Stage::NameLength => {
                self.stage = Socks5Stage::Bound;
                HandshakeStep::Read { want: (b[0] as usize) + 2 }
            },
            Socks5Stage::Bound => HandshakeStep::Open,
            Socks5Stage::Over => fail("socks5: handshake is over"),
        }
    }
}

/// The tunnel opens only after the proxy accepted the connection and its bound
/// address was read to the end, so that the next byte belongs to the peer.
pub proof fn tunnel_opens_at_application_data(
    stage: Socks5Stage,
    credentials: Option<(Seq<u8>, Seq<u8>)>,
    peer: PeerAddr,
    b: Seq<u8>,
)
    ensures
        socks5_step(stage, credentials, peer, b).1 == HandshakeView::Open ==> stage
            == Socks5Stage::Bound,
        socks5_step(stage, credentials, peer, b).0 == Socks5Stage::Bound ==> stage
            == Socks5Stage::Reply && b[1] == 0 || stage == Socks5Stage::NameLength,
        socks5_step(stage, credentials, peer, b).0 == Socks5Stage::NameLength ==> stage
            == Socks5Stage::Reply && b[1] == 0,
{
}

// ---------------------------------------------------------------------
// HTTP CONNECT
// ---------------------------------------------------------------------

/// The base64 digit for a value below 64.
pub open spec fn base64_char(v: int) -> char {
    if v < 26 {
        ('A' as u32 + v) as char
    } else if v < 52 {
        ('a' as u32 + (v - 26)) as char
    } else if v < 62 {
        ('0' as u32 + (v - 52)) as char
    } else if v == 62 {
        '+'
    } else {
        '/'
    }
}

/// `b` from `i` on in base64: four digits for each three bytes, padded with
/// `=`.
pub open spec fn base64_from(b: Seq<u8>, i: int) -> Seq<char>
    decreases b.len() - i,
{
    if i < 0 || i >= b.len() {
        seq![]
    } else if i + 1 == b.len() {
        seq![base64_char(b[i] as int / 4), base64_char((b[i] as int % 4) * 16), '=', '=']
    } else if i + 2 == b.len() {
        seq![
            base64_char(b[i] as int / 4),
            base64_char((b[i] as int % 4) * 16 + b[i + 1] as int / 16),
            base64_char((b[i + 1] as int % 16) * 4),
            '=',
        ]
    } else {
        seq![
            base64_char(b[i] as int / 4),
            base64_char((b[i] as int % 4) * 16 + b[i + 1] as int / 16),
            base64_char((b[i + 1] as int % 16) * 4 + b[i + 2] as int / 64),
            base64_char(b[i + 2] as int % 64),
        ] + base64_from(b, i + 3)
    }
}

/// `base64::engine::general_purpose::STANDARD.encode`: base64 with the standard
/// alphabet and padding.
#[verifier::external_body]
fn base64_of(bytes: &[u8]) -> (r: String)
    ensures
        r@ == base64_from(bytes@, 0),
{
    base64::engine::general_purpose::STANDARD.encode(bytes)
}

/// The `CONNECT` request for `host_port`.
pub open spec fn http_connect_text(
    host_port: Seq<char>,
    credentials: Option<(Seq<char>, Seq<char>)>,
) -> Seq<char> {
    let head = "CONNECT "@ + host_port + " HTTP/1.1\r\nHost: "@ + host_port + "\r\n"@;
    match credentials {
        Some((user, pass)) => head + "Proxy-Authorization: Basic "@ + base64_from(
            encode_utf8(user + ":"@ + pass),
            0,
        ) + "\r\n"@ + "\r\n"@,
        None => head + "\r\n"@,
    }
}

/// The texts of optional credentials.
pub open spec fn credential_texts(c: Option<ProxyCredentials>) -> Option<(Seq<char>, Seq<char>)> {
    match c {
        Some(p) => Some((p.0@, p.1@)),
        None => None,
    }
}

/// Builds the `CONNECT` request for `host_port`.
pub fn http_connect_request(host_port: &str, credentials: &Option<ProxyCredentials>) -> (r: Vec<u8>)
    ensures
        r@ == encode_utf8(http_connect_text(host_port@, credential_texts(*credentials))),
{
    let mut out: String = "CONNECT ".to_owned();
    out.append(host_port);
    out.append(" HTTP/1.1\r\nHost: ");
    out.append(host_port);
    out.append("\r\n");
    match credentials {
        Some(c) => {
            let mut pair: String = c.0.clone();
            pair.append(":");
            pair.append(&c.1);
            out.append("Proxy-Authorization: Basic ");
            out.append(&base64_of(&text::to_bytes(&pair)));
            out.append("\r\n");
        },
        None => {},
    }
    out.append("\r\n");
    text::to_bytes(&out)
}

/// Cap on the head of a proxy's answer.
pub const MAX_HTTP_HEAD: usize = 8192;

/// `b` ends in an empty line.
pub open spec fn ends_blank(b: Seq<u8>) -> bool {
    super::framing::blank_at(b, b.len() - 4)
}

/// `code` is a status of the class 2xx: a 2 and two more digits.
pub open spec fn is_2xx(code: Seq<char>) -> bool {
    code.len() == 3 && code[0] == '2' && '0' <= code[1] <= '9' && '0' <= code[2] <= '9'
}

/// The verdict on a complete answer: `None` when the tunnel is open.
pub open spec fn http_verdict(head: Seq<u8>) -> Option<Seq<char>> {
    match text::utf8_text(head) {
        None => Some("http-connect: non-UTF-8 proxy response"@),
        Some(t) => {
            let line = text::first_line(t);
            match text::word(line, 1) {
                Some(code) => if is_2xx(code) {
                    None
                } else {
                    Some("http-connect: proxy refused: `"@ + line + "`"@)
                },
                None => Some("http-connect: proxy refused: `"@ + line + "`"@),
            }
        },
    }
}

/// What follows when one more byte arrived after `before`.
pub open spec fn http_step(before: Seq<u8>, b: u8) -> HandshakeView {
    let now = before.push(b);
    if now.len() > MAX_HTTP_HEAD {
        HandshakeView::Failed("http-connect: response header exceeds 8 KiB"@)
    } else if ends_blank(now) {
        match http_verdict(now) {
            None => HandshakeView::Open,
            Some(m) => HandshakeView::Failed(m),
        }
    } else {
        HandshakeView::Read { want: 1 }
    }
}

fn judge(head: &Vec<u8>) -> (r: HandshakeStep)
    ensures
        r@ == match http_verdict(head@) {
            None => HandshakeView::Open,
            Some(m) => HandshakeView::Failed(m),
        },
{
    match text::decode(head) {
        None => fail("http-connect: non-UTF-8 proxy response"),
        Some(t) => {
            let line = text::line_one(&t);
            let w = text::split_words(line);
            if w.len() > 1 {
                let code: &[char] = w[1];
                if code.len() == 3 && code[0] == '2' && '0' <= code[1] && code[1] <= '9' && '0'
                    <= code[2] && code[2] <= '9' {
                    return HandshakeStep::Open;
                }
            }
            let mut m: String = "http-connect: proxy refused: `".to_owned();
            text::push_chars(&mut m, line);
            m.append("`");
            HandshakeStep::Failed(m)
        },
    }
}

/// The answer of an HTTP proxy, as far as it arrived.
#[derive(Debug)]
pub struct HttpConnectReply {
    head: Vec<u8>,
}

impl View for HttpConnectReply {
    type V = Seq<u8>;

    closed spec fn view(&self) -> Seq<u8> {
        self.head@
    }
}

impl HttpConnectReply {
    /// Nothing arrived yet.
    pub fn new() -> (r: Self)
        ensures
            r@ == Seq::<u8>::empty(),
    {
        HttpConnectReply { head: Vec::new() }
    }

    /// One more byte arrived.
    pub fn on_byte(&mut self, b: u8) -> (r: HandshakeStep)
        ensures
            r@ == http_step(old(self)@, b),
            final(self)@ == old(self)@.push(b),
    {
        self.head.push(b);
        let n: usize = self.head.len();
        if n > MAX_HTTP_HEAD {
            return fail("http-connect: response header exceeds 8 KiB");
        }
        if n >= 4 && self.head[n - 4] == 13 && self.head[n - 3] == 10 && self.head[n - 2] == 13
            && self.head[n - 1] == 10 {
            return judge(&self.head);
        }
        HandshakeStep::Read { want: 1 }
    }

    /// The proxy closed the connection.
    pub fn on_close(&self) -> (r: HandshakeStep)
        ensures
            r@ == HandshakeView::Failed("http-connect: proxy closed before response"@),
    {
        fail("http-connect: proxy closed before response")
    }
}

/// The answer of a proxy is never read past its empty line: once that arrived
/// the tunnel is open or refused, so that the next byte belongs to the peer.
pub proof fn answer_ends_at_its_empty_line(before: Seq<u8>, b: u8)
    ensures
        (http_step(before, b) is Read) ==> !ends_blank(before.push(b)) && before.len()
            < MAX_HTTP_HEAD,
        http_step(before, b) == HandshakeView::Open ==> ends_blank(before.push(b)),
{
}

// ---------------------------------------------------------------------
// Choice of connector
// ---------------------------------------------------------------------

/// Which kind of proxy is configured.
#[derive(Clone, Copy, Debug, PartialEq, Eq, Structural)]
pub enum ProxyMode {
    /// None.
    Direct,
    /// SOCKS5.
    Socks5,
    /// HTTP `CONNECT`.
    HttpConnect,
}

/// Proxy settings.
#[derive(Clone, Debug)]
pub struct SipProxyConfig {
    /// Kind of proxy.
    pub mode: ProxyMode,
    /// Its address, `host:port`.
    pub address: Option<String>,
    /// User name.
    pub username: Option<String>,
    /// Password.
    pub password: Option<String>,
}

impl Default for SipProxyConfig {
    fn default() -> (r: Self)
        ensures
            r.mode == ProxyMode::Direct,
            r.address is None,
            r.username is None,
            r.password is None,
    {
        SipProxyConfig { mode: ProxyMode::Direct, address: None, username: None, password: None }
    }
}

/// Connects without a proxy.
#[derive(Debug)]
pub struct DirectConnector;

/// Connects through a SOCKS5 proxy.
#[derive(Debug)]
pub struct Socks5Connector {
    /// Address of the proxy.
    pub proxy: String,
    /// Credentials to offer.
    pub credentials: Option<ProxyCredentials>,
}

impl Socks5Connector {
    /// A connector for the proxy at `proxy`.
    #[must_use]
    pub fn new(proxy: String, credentials: Option<ProxyCredentials>) -> (r: Self)
        ensures
            r.proxy == proxy,
            r.credentials == credentials,
    {
        Socks5Connector { proxy, credentials }
    }
}

/// Connects through an HTTP proxy.
#[derive(Debug)]
pub struct HttpConnectConnector {
    /// Address of the proxy.
    pub proxy: String,
    /// Credentials to send.
    pub credentials: Option<ProxyCredentials>,
}

impl HttpConnectConnector {
    /// A connector for the proxy at `proxy`.
    #[must_use]
    pub fn new(proxy: String, credentials: Option<ProxyCredentials>) -> (r: Self)
        ensures
            r.proxy == proxy,
            r.credentials == credentials,
    {
        HttpConnectConnector { proxy, credentials }
    }
}

/// How outbound connections are made.
#[derive(Debug)]
pub enum Connector {
    /// Without a proxy.
    Direct(DirectConnector),
    /// Through a SOCKS5 proxy.
    Socks5(Socks5Connector),
    /// Through an HTTP proxy.
    HttpConnect(HttpConnectConnector),
}

impl Connector {
    /// A short name for logs.
    pub fn label(&self) -> (r: &'static str)
        ensures
            r@ == match *self {
                Connector::Direct(_) => "direct"@,
                Connector::Socks5(_) => "socks5"@,
                Connector::HttpConnect(_) => "http-connect"@,
            },
    {
        match self {
            Connector::Direct(_) => "direct",
            Connector::Socks5(_) => "socks5",
            Connector::HttpConnect(_) => "http-connect",
        }
    }
}

/// The configured credentials, if both halves are there.
pub open spec fn configured_credentials(cfg: SipProxyConfig) -> Option<(Seq<char>, Seq<char>)> {
    match (cfg.username, cfg.password) {
        (Some(u), Some(p)) => Some((u@, p@)),
        _ => None,
    }
}

fn creds_from(cfg: &SipProxyConfig) -> (r: Option<ProxyCredentials>)
    ensures
        credential_texts(r) == configured_credentials(*cfg),
{
    match (&cfg.username, &cfg.password) {
        (Some(u), Some(p)) => Some((u.clone(), p.clone())),
        _ => None,
    }
}

/// The connector that the settings call for; a proxy without an address is
/// refused.
pub fn connector_from_config(cfg: &SipProxyConfig) -> (r: Result<Connector, String>)
    ensures
        match r {
            Ok(Connector::Direct(_)) => cfg.mode == ProxyMode::Direct,
            Ok(Connector::Socks5(c)) => cfg.mode == ProxyMode::Socks5 && text::text_opt(cfg.address)
                == Some(c.proxy@) && credential_texts(c.credentials) == configured_credentials(*cfg),
            Ok(Connector::HttpConnect(c)) => cfg.mode == ProxyMode::HttpConnect && text::text_opt(
                cfg.address,
            ) == Some(c.proxy@) && credential_texts(c.credentials) == configured_credentials(*cfg),
            Err(m) => cfg.address is None && match cfg.mode {
                ProxyMode::Direct => false,
                ProxyMode::Socks5 => m@ == "sip.proxy.mode = \"socks5\" requires `address`"@,
                ProxyMode::HttpConnect => m@
                    == "sip.proxy.mode = \"http-connect\" requires `address`"@,
            },
        },
{
    match cfg.mode {
        ProxyMode::Direct => Ok(Connector::Direct(DirectConnector)),
        ProxyMode::Socks5 => match &cfg.address {
            Some(a) => Ok(Connector::Socks5(Socks5Connector::new(a.clone(), creds_from(cfg)))),
            None => Err("sip.proxy.mode = \"socks5\" requires `address`".to_owned()),
        },
        ProxyMode::HttpConnect => match &cfg.address {
            Some(a) => Ok(
                Connector::HttpConnect(HttpConnectConnector::new(a.clone(), creds_from(cfg))),
            ),
            None => Err("sip.proxy.mode = \"http-connect\" requires `address`".to_owned()),
        },
    }
}

} // verus!
