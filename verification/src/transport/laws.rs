//! What goes over the wire to a proxy, what its answers mean, and how messages
//! come off a stream.

use vstd::prelude::*;
use vstd::utf8::encode_utf8;

use super::framing::{back_to_back_messages_come_apart, frame, FrameView};
use super::proxy::{
    auth_frame, base64_char, base64_from, configured_credentials, connect_request, ends_blank,
    greeting, http_connect_text, http_step, http_verdict, on_method, on_reply, on_verdict,
    rep_label, socks5_step, HandshakeView, PeerAddr, SipProxyConfig, Socks5Stage,
};
use super::stream::{drained, idle_between, read_budget_of, whole_millis};
use crate::text;
use crate::text::laws::{first_lines_end_at_the_line_feed, spaceless, words_peel_off};
use crate::txn::timers::Millis;
use crate::uas::writing::{
    ends_line, lemma_begins, lemma_group3, lemma_line_end, lemma_rest, lemma_step, says,
};

verus! {

// ---------------------------------------------------------------------
// SOCKS5
// ---------------------------------------------------------------------

/// The greeting is of version 5, tells how many methods it lists, lists the one
/// without authentication, and that with a password exactly where there are
/// credentials.
pub proof fn greetings_offer_what_there_is(with_credentials: bool)
    ensures
        ({
            let g = greeting(with_credentials);
            let offered = g.subrange(2, g.len() as int);
            &&& g[0] == 5
            &&& g[1] == g.len() - 2
            &&& offered.contains(0u8)
            &&& offered.contains(2u8) <==> with_credentials
            &&& forall|i: int| 0 <= i < offered.len() ==> #[trigger] offered[i] == 0 || offered[i]
                == 2
        }),
{
    let g = greeting(with_credentials);
    let offered = g.subrange(2, g.len() as int);
    assert(offered[0] == 0u8);
    if with_credentials {
        assert(offered[1] == 2u8);
    } else {
        assert(offered.len() == 1);
    }
}

/// The request asks for a connection, of version 5, to the peer's address of its
/// own kind; the port comes last, high byte first.
pub proof fn connect_requests_name_the_peer(peer: PeerAddr)
    ensures
        ({
            let r = connect_request(peer);
            let n = r.len();
            &&& r[0] == 5 && r[1] == 1 && r[2] == 0
            &&& peer matches PeerAddr::V4 { octets, port } ==> {
                &&& n == 10
                &&& r[3] == 1
                &&& r.subrange(4, 8) == octets@
                &&& r[n - 2] * 256 + r[n - 1] == port
            }
            &&& peer matches PeerAddr::V6 { octets, port } ==> {
                &&& n == 22
                &&& r[3] == 4
                &&& r.subrange(4, 20) == octets@
                &&& r[n - 2] * 256 + r[n - 1] == port
            }
        }),
{
    let r = connect_request(peer);
    match peer {
        PeerAddr::V4 { octets, port } => {
            assert(octets@.len() == 4);
            assert(r.subrange(4, 8) =~= octets@);
            assert((port / 256) as u8 as int == port / 256 && (port % 256) as u8 as int == port
                % 256);
        },
        PeerAddr::V6 { octets, port } => {
            assert(octets@.len() == 16);
            assert(r.subrange(4, 20) =~= octets@);
            assert((port / 256) as u8 as int == port / 256 && (port % 256) as u8 as int == port
                % 256);
        },
    }
}

/// The credentials go out behind their lengths, the user first.
pub proof fn credentials_go_out_behind_their_lengths(user: Seq<u8>, pass: Seq<u8>)
    requires
        user.len() <= 255,
        pass.len() <= 255,
    ensures
        ({
            let f = auth_frame(user, pass);
            let k = 2 + user.len() as int;
            &&& f.len() == 3 + user.len() + pass.len()
            &&& f[0] == 1
            &&& f[1] == user.len()
            &&& f.subrange(2, k) == user
            &&& f[k] == pass.len()
            &&& f.subrange(k + 1, f.len() as int) == pass
        }),
{
    let f = auth_frame(user, pass);
    let k = 2 + user.len() as int;
    assert(f.subrange(2, k) =~= user);
    assert(f.subrange(k + 1, f.len() as int) =~= pass);
}

/// What follows the proxy's choice of a method: the request, where it wants no
/// authentication; the credentials, where it wants them and they are there and
/// not too long; a failure in every other case.
pub proof fn methods_are_followed(
    credentials: Option<(Seq<u8>, Seq<u8>)>,
    peer: PeerAddr,
    b: Seq<u8>,
)
    ensures
        ({
            let (stage, step) = on_method(credentials, peer, b);
            let usable = credentials is Some && (credentials->0).0.len() <= 255 && (
            credentials->0).1.len() <= 255;
            &&& b[0] == 5 && b[1] == 0 ==> stage == Socks5Stage::Reply && step == (
            HandshakeView::Send { bytes: connect_request(peer), want: 4 })
            &&& b[0] == 5 && b[1] == 2 && usable ==> stage == Socks5Stage::Verdict && step == (
            HandshakeView::Send {
                bytes: auth_frame((credentials->0).0, (credentials->0).1),
                want: 2,
            })
            &&& b[0] != 5 || (b[1] != 0 && !(b[1] == 2 && usable)) ==> stage == Socks5Stage::Over
                && step is Failed
        }),
{
}

/// Accepted credentials are followed by the request; refused ones fail.
pub proof fn verdicts_are_followed(peer: PeerAddr, b: Seq<u8>)
    ensures
        ({
            let (stage, step) = on_verdict(peer, b);
            &&& b[0] == 1 && b[1] == 0 ==> stage == Socks5Stage::Reply && step == (
            HandshakeView::Send { bytes: connect_request(peer), want: 4 })
            &&& b[0] != 1 || b[1] != 0 ==> stage == Socks5Stage::Over && step is Failed
        }),
{
}

/// Behind the head of an accepting reply stand the bound address, as long as its
/// kind calls for, and two bytes of port; every other reply fails.
pub proof fn replies_are_read_to_the_end(
    credentials: Option<(Seq<u8>, Seq<u8>)>,
    peer: PeerAddr,
    b: Seq<u8>,
    name: Seq<u8>,
)
    ensures
        ({
            let (stage, step) = on_reply(b);
            let fine = b[0] == 5 && b[1] == 0;
            &&& fine && b[3] == 1 ==> stage == Socks5Stage::Bound && step == (HandshakeView::Read {
                want: 4 + 2,
            })
            &&& fine && b[3] == 4 ==> stage == Socks5Stage::Bound && step == (HandshakeView::Read {
                want: 16 + 2,
            })
            &&& fine && b[3] == 3 ==> stage == Socks5Stage::NameLength && step == (
            HandshakeView::Read { want: 1 })
            &&& !fine || (b[3] != 1 && b[3] != 3 && b[3] != 4) ==> stage == Socks5Stage::Over
                && step is Failed
        }),
        socks5_step(Socks5Stage::NameLength, credentials, peer, name) == (
            Socks5Stage::Bound,
            HandshakeView::Read { want: (name[0] + 2) as nat },
        ),
        socks5_step(Socks5Stage::Bound, credentials, peer, name) == (
            Socks5Stage::Over,
            HandshakeView::Open,
        ),
{
}

// ---------------------------------------------------------------------
// HTTP CONNECT
// ---------------------------------------------------------------------

/// The value of a base64 digit.
pub open spec fn base64_value(c: char) -> int {
    if 'A' <= c <= 'Z' {
        c as int - 'A' as int
    } else if 'a' <= c <= 'z' {
        c as int - 'a' as int + 26
    } else if '0' <= c <= '9' {
        c as int - '0' as int + 52
    } else if c == '+' {
        62
    } else if c == '/' {
        63
    } else {
        -1
    }
}

/// Every value below 64 has a digit of its own.
pub proof fn base64_digits_read_back(v: int)
    requires
        0 <= v < 64,
    ensures
        base64_value(base64_char(v)) == v,
{
}

proof fn lemma_base64_len(b: Seq<u8>, i: int)
    requires
        0 <= i <= b.len(),
    ensures
        base64_from(b, i).len() == 4 * ((b.len() - i + 2) / 3),
    decreases b.len() - i,
{
    if i + 2 < b.len() {
        lemma_base64_len(b, i + 3);
    }
}

proof fn lemma_base64_at(b: Seq<u8>, i: int, k: int)
    requires
        0 <= i <= b.len(),
        0 <= k,
        i + 3 * k <= b.len(),
    ensures
        base64_from(b, i + 3 * k) == base64_from(b, i).subrange(
            4 * k,
            base64_from(b, i).len() as int,
        ),
        4 * k <= base64_from(b, i).len(),
    decreases k,
{
    if k == 0 {
        assert(base64_from(b, i).subrange(0, base64_from(b, i).len() as int) =~= base64_from(b, i));
    } else {
        lemma_base64_at(b, i + 3, k - 1);
        let whole = base64_from(b, i);
        let rest = base64_from(b, i + 3);
        assert(whole.len() == rest.len() + 4);
        assert(whole.subrange(4, whole.len() as int) =~= rest);
        assert(whole.subrange(4 * k, whole.len() as int) =~= rest.subrange(
            4 * (k - 1),
            rest.len() as int,
        ));
        assert(i + 3 + 3 * (k - 1) == i + 3 * k);
    }
}

/// Four base64 digits stand for each three bytes, and read back as them; a last
/// group of two bytes or one is padded with `=` or `==`.
pub proof fn base64_reads_back(b: Seq<u8>, k: int)
    requires
        0 <= k,
        3 * k < b.len(),
    ensures
        ({
            let s = base64_from(b, 0);
            let v0 = base64_value(s[4 * k]);
            let v1 = base64_value(s[4 * k + 1]);
            let v2 = base64_value(s[4 * k + 2]);
            let v3 = base64_value(s[4 * k + 3]);
            let i = 3 * k;
            &&& s.len() == 4 * ((b.len() + 2) / 3)
            &&& i + 2 < b.len() ==> ((v0 * 64 + v1) * 64 + v2) * 64 + v3 == (b[i] * 256 + b[i + 1])
                * 256 + b[i + 2] && v0 >= 0 && v1 >= 0 && v2 >= 0 && v3 >= 0
            &&& i + 2 == b.len() ==> (v0 * 64 + v1) * 64 + v2 == (b[i] * 256 + b[i + 1]) * 4
                && s[4 * k + 3] == '=' && v0 >= 0 && v1 >= 0 && v2 >= 0
            &&& i + 1 == b.len() ==> v0 * 64 + v1 == b[i] * 16 && s[4 * k + 2] == '=' && s[4 * k
                + 3] == '=' && v0 >= 0 && v1 >= 0
        }),
{
    let s = base64_from(b, 0);
    let i = 3 * k;
    lemma_base64_len(b, 0);
    lemma_base64_len(b, i);
    lemma_base64_at(b, 0, k);
    let g = base64_from(b, i);
    assert(g.len() >= 4);
    assert(s[4 * k] == g[0] && s[4 * k + 1] == g[1] && s[4 * k + 2] == g[2] && s[4 * k + 3]
        == g[3]);
    let x = b[i] as int;
    base64_digits_read_back(x / 4);
    if i + 1 == b.len() {
        base64_digits_read_back((x % 4) * 16);
    } else {
        let y = b[i + 1] as int;
        base64_digits_read_back((x % 4) * 16 + y / 16);
        if i + 2 == b.len() {
            base64_digits_read_back((y % 16) * 4);
        } else {
            let z = b[i + 2] as int;
            base64_digits_read_back((y % 16) * 4 + z / 64);
            base64_digits_read_back(z % 64);
        }
    }
}

/// The request asks for the peer's host and port, names it as the host too, and
/// carries the credentials exactly where there are some.
pub proof fn connect_requests_say_where(
    host_port: Seq<char>,
    user: Seq<char>,
    pass: Seq<char>,
)
    ensures
        ({
            let open = http_connect_text(host_port, None);
            let known = http_connect_text(host_port, Some((user, pass)));
            let start = "CONNECT "@ + host_port + " HTTP/1.1\r\n"@;
            &&& text::begins_with(open, start) && text::begins_with(known, start)
            &&& says(open, "Host: "@ + host_port) && says(known, "Host: "@ + host_port)
            &&& says(
                known,
                "Proxy-Authorization: Basic "@ + base64_from(
                    encode_utf8(user + ":"@ + pass),
                    0,
                ),
            )
            &&& open.len() == start.len() + 6 + host_port.len() + 4
            &&& open.subrange(open.len() - 4, open.len() as int) == "\r\n\r\n"@
            &&& known.subrange(known.len() - 4, known.len() as int) == "\r\n\r\n"@
        }),
{
    let nl = "\r\n"@;
    let start = "CONNECT "@ + host_port + " HTTP/1.1\r\n"@;
    let host = "Host: "@ + host_port;
    let head = start + (host + nl);
    lemma_connect_head(host_port);
    let code = base64_from(encode_utf8(user + ":"@ + pass), 0);
    let name = "Proxy-Authorization: Basic "@;
    let auth = name + code;
    let open = http_connect_text(host_port, None);
    let known = http_connect_text(host_port, Some((user, pass)));
    assert(open == head + nl);
    lemma_group3(head, name, code, nl);
    assert(known == head + (auth + nl) + nl);
    lemma_rest(known, head + (auth + nl), nl, head, auth + nl);
    lemma_step(open, start, host, nl);
    lemma_step(known, start, host, (auth + nl) + nl);
    lemma_step(known, head, auth, nl);
    lemma_rest(open, head, nl, start, host + nl);
    lemma_begins(open, start, (host + nl) + nl);
    lemma_rest(known, head, (auth + nl) + nl, start, host + nl);
    lemma_begins(known, start, (host + nl) + ((auth + nl) + nl));
    lemma_two_breaks(open, head);
    lemma_two_breaks(known, head + (auth + nl));
}

proof fn lemma_connect_head(host_port: Seq<char>)
    ensures
        ({
            let start = "CONNECT "@ + host_port + " HTTP/1.1\r\n"@;
            let line = "Host: "@ + host_port + "\r\n"@;
            &&& "CONNECT "@ + host_port + " HTTP/1.1\r\nHost: "@ + host_port + "\r\n"@ == start
                + line
            &&& ends_line(start)
            &&& "Host: "@.len() == 6
            &&& "\r\n"@.len() == 2
        }),
{
    reveal_strlit("\r\n");
    reveal_strlit(" HTTP/1.1\r\nHost: ");
    reveal_strlit(" HTTP/1.1\r\n");
    reveal_strlit("Host: ");
    assert(" HTTP/1.1\r\nHost: "@ =~= " HTTP/1.1\r\n"@ + "Host: "@);
    assert(ends_line(" HTTP/1.1\r\n"@));
    lemma_line_end("CONNECT "@ + host_port, " HTTP/1.1\r\n"@);
    lemma_pieces("CONNECT "@ + host_port, " HTTP/1.1\r\n"@, "Host: "@, host_port, "\r\n"@);
}

proof fn lemma_pieces(a: Seq<char>, h: Seq<char>, n: Seq<char>, v: Seq<char>, e: Seq<char>)
    ensures
        a + (h + n) + v + e == (a + h) + (n + v + e),
{
    assert(a + (h + n) + v + e =~= (a + h) + (n + v + e));
}

proof fn lemma_two_breaks(t: Seq<char>, a: Seq<char>)
    requires
        ends_line(a),
        t == a + "\r\n"@,
    ensures
        t.subrange(t.len() - 4, t.len() as int) == "\r\n\r\n"@,
{
    reveal_strlit("\r\n");
    reveal_strlit("\r\n\r\n");
    assert(t.subrange(t.len() - 4, t.len() as int) =~= "\r\n\r\n"@);
}

/// The tunnel is open exactly when the proxy answers with a status of three
/// digits that begins with 2.
pub proof fn only_successes_open_the_tunnel(
    head: Seq<u8>,
    version: Seq<char>,
    code: Seq<char>,
    reason: Seq<char>,
    rest: Seq<char>,
)
    requires
        version.len() > 0 && spaceless(version),
        code.len() > 0 && spaceless(code),
        !(version + " "@ + code + " "@ + reason).contains('\n'),
        text::utf8_text(head) == Some(
            version + " "@ + code + " "@ + reason + seq!['\r', '\n'] + rest,
        ),
    ensures
        http_verdict(head) is None <==> code.len() == 3 && code[0] == '2' && '0' <= code[1] <= '9'
            && '0' <= code[2] <= '9',
{
    let line = version + " "@ + code + " "@ + reason;
    first_lines_end_at_the_line_feed(line, rest);
    reveal_strlit(" ");
    assert(" "@ =~= seq![' ']);
    let none = Seq::<char>::empty();
    let tail = " "@ + code + " "@ + reason;
    words_peel_off(none, version, tail);
    assert(none + version + tail =~= line);
    words_peel_off(" "@, code, " "@ + reason);
    assert(" "@ + code + (" "@ + reason) =~= tail);
    assert(text::words(line)[1] == code);
    assert(text::word(line, 1) == Some(code));
}

/// One more byte of the proxy's answer: beyond 8192 it fails; where it ends the
/// empty line the verdict falls; else one more is read.
pub proof fn answers_are_read_byte_by_byte(before: Seq<u8>, b: u8)
    ensures
        before.len() >= 8192 ==> http_step(before, b) is Failed,
        before.len() < 8192 && !ends_blank(before.push(b)) ==> http_step(before, b) == (
        HandshakeView::Read { want: 1 }),
        before.len() < 8192 && ends_blank(before.push(b)) ==> (http_step(before, b)
            == HandshakeView::Open <==> http_verdict(before.push(b)) is None) && http_step(
            before,
            b,
        ) !is Read,
        ends_blank(before.push(b)) <==> before.len() >= 3 && b == 10 && before[before.len() - 1]
            == 13 && before[before.len() - 2] == 10 && before[before.len() - 3] == 13,
{
}

/// There are credentials exactly when both halves are configured.
pub proof fn credentials_need_both_halves(cfg: SipProxyConfig)
    ensures
        configured_credentials(cfg) is Some <==> cfg.username is Some && cfg.password is Some,
        configured_credentials(cfg) matches Some((u, p)) ==> u == (cfg.username->0)@ && p == (
        cfg.password->0)@,
{
}

// ---------------------------------------------------------------------
// Streams
// ---------------------------------------------------------------------

/// Messages that were sent back to back are drained in their order, and then
/// what is left is drained as if it stood alone.
pub proof fn streams_drain_in_order(m: Seq<u8>, more: Seq<u8>)
    requires
        frame(m) == FrameView::Complete(m),
        m.len() > 0,
    ensures
        drained(m + more).0 == seq![m] + drained(more).0,
        drained(m + more).1 == drained(more).1,
        drained(m + more).2 == drained(more).2,
{
    back_to_back_messages_come_apart(m, more);
}

/// A stream stays open while what is left may still become a message, and is
/// closed where it cannot.
pub proof fn streams_close_on_bad_messages(b: Seq<u8>)
    ensures
        frame(b) is Partial ==> drained(b) == (Seq::<Seq<u8>>::empty(), b, true),
        frame(b) is Overflow || frame(b) is BadLength ==> drained(b) == (
            Seq::<Seq<u8>>::empty(),
            b,
            false,
        ),
{
}

/// A read may wait for what is left of the idle timeout; a connection that has
/// been idle for as long is closed; without a timeout it is not.
pub proof fn reads_wait_for_the_rest(limit: Millis, last: u64, now: u64)
    requires
        last <= now,
    ensures
        ({
            let idle = (now - last) as u64;
            &&& idle_between(last, now) == idle
            &&& idle < limit ==> read_budget_of(Some(limit), idle) == Some((limit - idle) as u64)
            &&& idle >= limit ==> read_budget_of(Some(limit), idle) is None
            &&& read_budget_of(None, idle) == Some(u64::MAX)
        }),
        whole_millis(now) * 1_000_000 <= now < (whole_millis(now) + 1) * 1_000_000,
{
}

/// A proxy's refusal is named by its code, in hexadecimal and in words.
pub proof fn refusals_name_the_code(b: Seq<u8>)
    requires
        b[0] == 5,
        b[1] != 0,
    ensures
        on_reply(b).1 matches HandshakeView::Failed(m) && text::begins_with(
            m,
            "socks5: connect rejected (REP="@ + ("0x"@ + text::padded_hex(b[1] as nat, 2)),
        ),
        rep_label(1) == "general failure"@,
        rep_label(2) == "connection not allowed by ruleset"@,
        rep_label(3) == "network unreachable"@,
        rep_label(4) == "host unreachable"@,
        rep_label(5) == "connection refused"@,
        rep_label(6) == "TTL expired"@,
        rep_label(7) == "command not supported"@,
        rep_label(8) == "address type not supported"@,
        forall|code: u8| code == 0 || code > 8 ==> #[trigger] rep_label(code) == "unknown"@,
{
    let m = on_reply(b).1->Failed_0;
    let front = "socks5: connect rejected (REP="@ + ("0x"@ + text::padded_hex(b[1] as nat, 2));
    assert(m.subrange(0, front.len() as int) =~= front);
}

} // verus!
