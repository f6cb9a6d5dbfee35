//! Access control of HTTP and WebSocket requests: where the token is read
//! from, and which check refuses a request.

use vstd::prelude::*;

use crate::config::AppConfig;
use crate::text::{
    chars_of, index_of, index_of_exec, slice_chars, split_any, split_any_exec, starts_with,
    starts_with_str, string_of, trim, trim_chars, push_str_chars, push_chars,
};
use vstd::string::{StringExecFns, StringSliceAdditionalSpecFns};
use vstd::utf8::{decode_utf8, encode_utf8, valid_utf8};

verus! {

/// What `String::from_utf8_lossy` makes of `bytes` (invalid sequences become
/// U+FFFD).
pub uninterp spec fn utf8_lossy(bytes: Seq<u8>) -> Seq<char>;

/// `String::from_utf8_lossy(..).into_owned()`: the lossy text of the bytes
/// (named); for valid UTF-8 it is exactly the decoded text, as the standard
/// library documents.
#[verifier::external_body]
fn from_utf8_lossy(bytes: &[u8]) -> (s: String)
    ensures
        s@ == utf8_lossy(bytes@),
        valid_utf8(bytes@) ==> s@ == decode_utf8(bytes@),
{
    String::from_utf8_lossy(bytes).into_owned()
}

/// Value of a hexadecimal digit byte.
pub open spec fn hex_value(b: u8) -> Option<u8> {
    if 48 <= b && b <= 57 {
        Some((b - 48) as u8)
    } else if 97 <= b && b <= 102 {
        Some((b - 97 + 10) as u8)
    } else if 65 <= b && b <= 70 {
        Some((b - 65 + 10) as u8)
    } else {
        None
    }
}

/// Percent-decoding as used for cookie values: `%XY` with two hex digits
/// becomes one byte, `+` becomes a space, anything else is kept.
pub open spec fn pct_decode(b: Seq<u8>) -> Seq<u8>
    decreases b.len(),
{
    if b.len() == 0 {
        Seq::empty()
    } else if b[0] == 37 && b.len() >= 3 && hex_value(b[1]) is Some && hex_value(b[2]) is Some {
        seq![((hex_value(b[1])->0 as int) * 16 + hex_value(b[2])->0 as int) as u8] + pct_decode(
            b.skip(3),
        )
    } else if b[0] == 43 {
        seq![32u8] + pct_decode(b.skip(1))
    } else {
        seq![b[0]] + pct_decode(b.skip(1))
    }
}

/// Decoded text of a cookie value.
pub open spec fn cookie_decoded(v: Seq<char>) -> Seq<char> {
    utf8_lossy(pct_decode(encode_utf8(v)))
}

/// Token carried by the cookie parts (`webrust_token=` or the older
/// `webdock_token=`), the first non-empty one.
pub open spec fn cookie_token(parts: Seq<Seq<char>>) -> Option<Seq<char>>
    decreases parts.len(),
{
    if parts.len() == 0 {
        None
    } else {
        let p = trim(parts[0]);
        if (starts_with(p, "webrust_token="@) || starts_with(p, "webdock_token="@)) && trim(
            p.skip(14),
        ).len() > 0 {
            Some(trim(p.skip(14)))
        } else {
            cookie_token(parts.drop_first())
        }
    }
}

/// Token of a request: a non-empty query token first, then an
/// `Authorization: Bearer` header, then the token cookie (percent-decoded).
pub open spec fn request_token(
    authorization: Option<Seq<char>>,
    cookie: Option<Seq<char>>,
    query: Option<Seq<char>>,
) -> Option<Seq<char>> {
    if query is Some && query->0.len() > 0 {
        query
    } else if authorization is Some && starts_with(authorization->0, "Bearer "@) {
        Some(trim(authorization->0.skip(7)))
    } else if cookie is Some {
        match cookie_token(split_any(cookie->0, seq![';'])) {
            Some(v) => Some(cookie_decoded(v)),
            None => None,
        }
    } else {
        None
    }
}

/// Optional text as characters.
pub open spec fn opt_chars(o: Option<&str>) -> Option<Seq<char>> {
    match o {
        Some(s) => Some(s@),
        None => None,
    }
}

/// Value of a hexadecimal digit.
pub fn from_hex(b: u8) -> (r: Option<u8>)
    ensures
        r == hex_value(b),
{
    if 48 <= b && b <= 57 {
        Some(b - 48)
    } else if 97 <= b && b <= 102 {
        Some(b - 97 + 10)
    } else if 65 <= b && b <= 70 {
        Some(b - 65 + 10)
    } else {
        None
    }
}

/// Percent-decoding of bytes.
pub fn percent_decode(bytes: &[u8]) -> (out: Vec<u8>)
    ensures
        out@ == pct_decode(bytes@),
{
    let mut out: Vec<u8> = Vec::new();
    let mut i: usize = 0;
    assert(bytes@.skip(0) =~= bytes@);
    while i < bytes.len()
        invariant
            0 <= i <= bytes@.len(),
            out@ + pct_decode(bytes@.skip(i as int)) == pct_decode(bytes@),
        decreases bytes@.len() - i,
    {
        let ghost rest = bytes@.skip(i as int);
        if bytes[i] == 37u8 && bytes.len() - i >= 3 {
            let h = from_hex(bytes[i + 1]);
            let l = from_hex(bytes[i + 2]);
            if let (Some(h), Some(l)) = (h, l) {
                proof {
                    assert(rest[1] == bytes@[i + 1] && rest[2] == bytes@[i + 2]);
                    assert(h * 16 + l < 256) by (nonlinear_arith)
                        requires
                            h < 16,
                            l < 16,
                    ;
                    assert((h << 4u8) | l == h * 16 + l) by (bit_vector)
                        requires
                            h < 16,
                            l < 16,
                    ;
                    assert(rest.skip(3) =~= bytes@.skip(i + 3));
                    assert(out@.push((h << 4u8) | l) + pct_decode(bytes@.skip(i + 3)) =~= out@ + (
                    seq![((h << 4u8) | l)] + pct_decode(rest.skip(3))));
                }
                out.push((h << 4u8) | l);
                i = i + 3;
                continue;
            }
        }
        proof {
            assert(rest.skip(1) =~= bytes@.skip(i + 1));
        }
        if bytes[i] == 43u8 {
            assert(out@.push(32u8) + pct_decode(bytes@.skip(i + 1)) =~= out@ + (seq![32u8]
                + pct_decode(rest.skip(1))));
            out.push(32u8);
        } else {
            assert(out@.push(bytes[i as int]) + pct_decode(bytes@.skip(i + 1)) =~= out@ + (seq![
            bytes@[i as int]] + pct_decode(rest.skip(1))));
            out.push(bytes[i]);
        }
        i = i + 1;
    }
    assert(out@ + Seq::<u8>::empty() =~= out@);
    out
}

/// Percent-decodes a cookie value into text: valid `%XX` escapes become
/// their bytes, `+` a space, other bytes stay; bytes that form valid UTF-8
/// are exactly their text.
pub fn urlencoding_decode(s: &str) -> (r: String)
    ensures
        r@ == cookie_decoded(s@),
        valid_utf8(pct_decode(encode_utf8(s@))) ==> r@ == decode_utf8(pct_decode(encode_utf8(s@))),
{
    let d = percent_decode(s.as_bytes());
    from_utf8_lossy(d.as_slice())
}

/// The token a request carries (see [`request_token`]).
pub fn extract_token(
    authorization: Option<&str>,
    cookie: Option<&str>,
    query_token: Option<&str>,
) -> (r: Option<String>)
    ensures
        match r {
            Some(t) => request_token(opt_chars(authorization), opt_chars(cookie), opt_chars(
                query_token,
            )) == Some(t@),
            None => request_token(opt_chars(authorization), opt_chars(cookie), opt_chars(
                query_token,
            )) is None,
        },
{
    if let Some(t) = query_token {
        if !t.is_empty() {
            return Some(String::from_str(t));
        }
    }
    if let Some(auth) = authorization {
        let a = chars_of(auth);
        if starts_with_str(a.as_slice(), "Bearer ") {
            proof {
                reveal_strlit("Bearer ");
            }
            let rest = slice_chars(a.as_slice(), 7, a.len());
            assert(rest@ =~= auth@.skip(7));
            let t = trim_chars(rest.as_slice());
            return Some(string_of(t.as_slice()));
        }
    }
    let c = match cookie {
        Some(c) => chars_of(c),
        None => {
            return None;
        },
    };
    let semi: Vec<char> = vec![';'];
    assert(semi@ =~= seq![';']);
    let parts = split_any_exec(c.as_slice(), semi.as_slice());
    let ghost ps = split_any(c@, seq![';']);
    let mut i: usize = 0;
    assert(ps.skip(0) =~= ps);
    proof {
        reveal_strlit("webrust_token=");
        reveal_strlit("webdock_token=");
    }
    while i < parts.len()
        invariant
            0 <= i <= parts@.len(),
            parts@.len() == ps.len(),
            forall|k: int| 0 <= k < parts@.len() ==> #[trigger] parts@[k]@ == ps[k],
            cookie_token(ps) == cookie_token(ps.skip(i as int)),
            "webrust_token="@.len() == 14,
            "webdock_token="@.len() == 14,
            !(opt_chars(query_token) is Some && opt_chars(query_token)->0.len() > 0),
            opt_chars(authorization) is Some ==> !starts_with(opt_chars(authorization)->0, "Bearer "@),
            opt_chars(cookie) == Some(c@),
            ps == split_any(c@, seq![';']),
        decreases parts@.len() - i,
    {
        let p = trim_chars(parts[i].as_slice());
        proof {
            assert(ps.skip(i as int)[0] == ps[i as int]);
            assert(ps.skip(i as int).drop_first() =~= ps.skip(i + 1));
        }
        if starts_with_str(p.as_slice(), "webrust_token=") || starts_with_str(
            p.as_slice(),
            "webdock_token=",
        ) {
            let rest = slice_chars(p.as_slice(), 14, p.len());
            assert(rest@ =~= p@.skip(14));
            let v = trim_chars(rest.as_slice());
            if v.len() > 0 {
                let vs = string_of(v.as_slice());
                let vstr = vs.as_str();
                proof {
                    let q = ps.skip(i as int);
                    assert(trim(q[0]) == p@);
                    assert(cookie_token(q) == Some(v@));
                    assert(vstr@ == v@);
                }
                let out = urlencoding_decode(vstr);
                assert(out@ == cookie_decoded(v@));
                return Some(out);
            }
        }
        i = i + 1;
    }
    None
}

/// Cookie that keeps a browser signed in for a week.
pub fn set_cookie_header(token: &str) -> (r: String)
    ensures
        r@ == "webrust_token="@ + token@ + "; Path=/; SameSite=Strict; Max-Age=604800"@,
{
    let mut r = String::from_str("webrust_token=");
    r.append(token);
    r.append("; Path=/; SameSite=Strict; Max-Age=604800");
    r
}

} // verus!

verus! {

/// Why a request is refused.
#[derive(Debug, Clone, Copy, PartialEq, Eq, Structural)]
pub enum AuthFail {
    /// No token, or a wrong one (`wrong`: a token was presented).
    Unauthorized { wrong: bool },
    ForbiddenIp,
    ForbiddenHost,
    ForbiddenOrigin,
}

/// Host name of a `Host` header value (up to the first `:`).
pub open spec fn host_name(h: Seq<char>) -> Seq<char> {
    h.take(index_of(h, ':'))
}

/// The decision of [`check_access`]: IP allow-list first, then the `Host`
/// against the domain allow-list, then the token.
pub open spec fn access(
    cfg: crate::config::ConfigView,
    host: Option<Seq<char>>,
    token: Option<Seq<char>>,
    peer_ip: Seq<char>,
) -> Result<(), AuthFail> {
    if !cfg.ip_allowed(peer_ip) {
        Err(AuthFail::ForbiddenIp)
    } else if host is Some && !cfg.domain_allowed(host_name(host->0)) {
        Err(AuthFail::ForbiddenHost)
    } else if !(!cfg.has_token() || (token is Some && token->0 == cfg.token)) {
        Err(AuthFail::Unauthorized { wrong: token is Some })
    } else {
        Ok(())
    }
}

fn host_name_exec(h: &str) -> (r: String)
    ensures
        r@ == host_name(h@),
{
    let c = chars_of(h);
    let k = index_of_exec(c.as_slice(), ':');
    let n = slice_chars(c.as_slice(), 0, k);
    assert(n@ =~= host_name(h@));
    string_of(n.as_slice())
}

/// Access check of an HTTP request or WebSocket upgrade.
pub fn check_access(
    config: &AppConfig,
    host_header: Option<&str>,
    authorization: Option<&str>,
    cookie: Option<&str>,
    query_token: Option<&str>,
    peer_ip: &str,
) -> (r: Result<(), AuthFail>)
    ensures
        r == access(
            config@,
            opt_chars(host_header),
            request_token(opt_chars(authorization), opt_chars(cookie), opt_chars(query_token)),
            peer_ip@,
        ),
{
    if !config.is_ip_allowed(peer_ip) {
        return Err(AuthFail::ForbiddenIp);
    }
    if let Some(h) = host_header {
        let name = host_name_exec(h);
        if !config.is_domain_allowed(name.as_str()) {
            return Err(AuthFail::ForbiddenHost);
        }
    }
    let token = extract_token(authorization, cookie, query_token);
    let ok = match &token {
        Some(t) => config.token_matches(Some(t.as_str())),
        None => config.token_matches(None),
    };
    if !ok {
        return Err(AuthFail::Unauthorized { wrong: token.is_some() });
    }
    Ok(())
}

/// WebSocket-only check: the `Origin` must match the host or the allowed
/// domains (blocks cross-site sockets).
pub fn check_ws_origin(config: &AppConfig, origin: Option<&str>, host: Option<&str>) -> (r: Result<
    (),
    AuthFail,
>)
    ensures
        r is Ok <==> config@.origin_allowed(opt_chars(origin), opt_chars(host)),
        r is Err ==> r == Err::<(), AuthFail>(AuthFail::ForbiddenOrigin),
{
    if config.is_origin_allowed(origin, host) {
        Ok(())
    } else {
        Err(AuthFail::ForbiddenOrigin)
    }
}

/// First item of a comma-separated header, trimmed.
pub open spec fn first_item(v: Seq<char>) -> Seq<char> {
    trim(v.take(index_of(v, ',')))
}

/// Peer address used for access control: the proxy headers count only when
/// the configuration trusts them (`proxy_addr` is `CF-Connecting-IP`, else
/// `X-Real-IP`; then `X-Forwarded-For`), otherwise the socket address.
pub open spec fn spec_peer_ip(
    proxy_addr: Option<Seq<char>>,
    forwarded_for: Option<Seq<char>>,
    fallback: Seq<char>,
    trust_proxy: bool,
) -> Seq<char> {
    if trust_proxy && proxy_addr is Some {
        first_item(proxy_addr->0)
    } else if trust_proxy && forwarded_for is Some {
        first_item(forwarded_for->0)
    } else {
        fallback
    }
}

fn first_item_exec(v: &str) -> (r: String)
    ensures
        r@ == first_item(v@),
{
    let c = chars_of(v);
    let k = index_of_exec(c.as_slice(), ',');
    let head = slice_chars(c.as_slice(), 0, k);
    assert(head@ =~= v@.take(k as int));
    let t = trim_chars(head.as_slice());
    string_of(t.as_slice())
}

/// Peer address for access control.
pub fn peer_ip(
    proxy_addr: Option<&str>,
    forwarded_for: Option<&str>,
    fallback: &str,
    trust_proxy: bool,
) -> (r: String)
    ensures
        r@ == spec_peer_ip(opt_chars(proxy_addr), opt_chars(forwarded_for), fallback@, trust_proxy),
{
    if trust_proxy {
        if let Some(v) = proxy_addr {
            return first_item_exec(v);
        }
        if let Some(v) = forwarded_for {
            return first_item_exec(v);
        }
    }
    String::from_str(fallback)
}

/// Text of the token page's message.
pub open spec fn spec_gate_message(wrong_token: bool) -> Seq<char> {
    if wrong_token {
        "토큰이 올바르지 않습니다. 다시 입력하세요."@
    } else {
        "이 서버는 토큰이 필요합니다."@
    }
}

/// Message of the token page.
pub fn gate_message(wrong_token: bool) -> (r: &'static str)
    ensures
        r@ == spec_gate_message(wrong_token),
{
    if wrong_token {
        "토큰이 올바르지 않습니다. 다시 입력하세요."
    } else {
        "이 서버는 토큰이 필요합니다."
    }
}

/// Page markup before the message.
pub const GATE_HEAD: &'static str = r#"<!doctype html><html lang="ko"><head>
<meta charset="utf-8"><meta name="viewport" content="width=device-width,initial-scale=1">
<title>WebRust — 접근 거부</title>
<link rel="icon" type="image/png" href="/favicon.png">
<style>
  body{font-family:-apple-system,system-ui,sans-serif;background:#0a0b0d;color:#e8eef6;
       display:flex;min-height:100vh;align-items:center;justify-content:center;margin:0}
  .card{background:#14161a;border:1px solid #2a2e36;border-radius:12px;padding:28px 24px;width:min(360px,92vw)}
  h1{font-size:1.1rem;margin:0 0 8px} p{color:#9aa3b2;font-size:.9rem;margin:0 0 16px;line-height:1.45}
  input{width:100%;box-sizing:border-box;padding:10px 12px;border-radius:8px;border:1px solid #2a2e36;
        background:#0a0b0d;color:#e8eef6;font-size:1rem;margin-bottom:12px}
  button{width:100%;padding:10px;border:0;border-radius:8px;background:#3b82f6;color:#fff;font-weight:600;cursor:pointer}
  button:hover{filter:brightness(1.08)}
</style></head><body><div class="card">
<h1>WebRust</h1>
<p>"#;

/// Page markup after the message.
pub const GATE_TAIL: &'static str = r#"</p>
<form method="POST" action="/" autocomplete="off">
  <input type="password" name="token" placeholder="토큰" required autofocus autocomplete="off">
  <button type="submit">접속</button>
</form>
</div></body></html>"#;

/// The token page (HTML) shown to browsers without a valid token.
pub fn gate_page(wrong_token: bool) -> (r: String)
    ensures
        r@ == GATE_HEAD@ + spec_gate_message(wrong_token) + GATE_TAIL@,
{
    let mut r = String::from_str(GATE_HEAD);
    r.append(gate_message(wrong_token));
    r.append(GATE_TAIL);
    r
}

} // verus!
