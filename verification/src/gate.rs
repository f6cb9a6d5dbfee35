//! What the HTTP side answers: the static WebUI behind the token check, and
//! the token login form with its rate limit.

use vstd::prelude::*;

use crate::auth::{
    extract_token, host_name, opt_chars, peer_ip, request_token, set_cookie_header, spec_peer_ip,
    AuthFail,
};
use crate::config::AppConfig;
use crate::login::{login_allowed, after_attempt, LoginLimiter};
use crate::text::{chars_of, eq_str, index_of_exec, slice_chars, string_of, trim, trim_chars};
use crate::web::{is_asset_public, spec_is_asset_public};

verus! {

/// Answer to a request for a WebUI file.
#[derive(Debug)]
pub enum StaticPlan {
    Forbidden(AuthFail),
    /// The token page (for the index), `wrong` when a token was presented.
    GatePage { wrong: bool },
    /// 401 for other files without a valid token.
    Unauthorized,
    /// Serve the file; with a cookie when a valid token came with the index.
    Serve { set_cookie: Option<String> },
}

/// The answer to a request for `rel`: IP and `Host` checks always apply;
/// without a valid token only public icons are served, the index shows the
/// token page; a valid token on the index is kept in a cookie.
pub open spec fn spec_static_plan(
    cfg: crate::config::ConfigView,
    ip: Seq<char>,
    host: Option<Seq<char>>,
    rel: Seq<char>,
    token: Option<Seq<char>>,
) -> (int, Option<Seq<char>>) {
    if !cfg.ip_allowed(ip) {
        (0, None)
    } else if host is Some && !cfg.domain_allowed(host_name(host->0)) {
        (1, None)
    } else if cfg.has_token() && !spec_is_asset_public(rel) && !(token is Some && token->0 == cfg.token) {
        if rel == "index.html"@ {
            (if token is Some { 3int } else { 2int }, None)
        } else {
            (4, None)
        }
    } else if cfg.has_token() && !spec_is_asset_public(rel) && rel == "index.html"@ {
        (5, Some("webrust_token="@ + token->0 + "; Path=/; SameSite=Strict; Max-Age=604800"@))
    } else {
        (5, None)
    }
}

pub open spec fn static_code(p: StaticPlan) -> (int, Option<Seq<char>>) {
    match p {
        StaticPlan::Forbidden(AuthFail::ForbiddenIp) => (0, None),
        StaticPlan::Forbidden(AuthFail::ForbiddenHost) => (1, None),
        StaticPlan::Forbidden(_) => (6, None),
        StaticPlan::GatePage { wrong } => (if wrong { 3int } else { 2int }, None),
        StaticPlan::Unauthorized => (4, None),
        StaticPlan::Serve { set_cookie } => (5, match set_cookie {
            Some(c) => Some(c@),
            None => None,
        }),
    }
}

/// Answer to a request for the WebUI file `rel` from `ip`.
pub fn static_plan(
    cfg: &AppConfig,
    ip: &str,
    host_header: Option<&str>,
    rel: &str,
    authorization: Option<&str>,
    cookie: Option<&str>,
    query_token: Option<&str>,
) -> (r: StaticPlan)
    ensures
        static_code(r) == spec_static_plan(
            cfg@,
            ip@,
            opt_chars(host_header),
            rel@,
            request_token(opt_chars(authorization), opt_chars(cookie), opt_chars(query_token)),
        ),
{
    if !cfg.is_ip_allowed(ip) {
        return StaticPlan::Forbidden(AuthFail::ForbiddenIp);
    }
    if let Some(h) = host_header {
        let c = chars_of(h);
        let k = index_of_exec(c.as_slice(), ':');
        let name = slice_chars(c.as_slice(), 0, k);
        assert(name@ =~= host_name(h@));
        if !cfg.is_domain_allowed(string_of(name.as_slice()).as_str()) {
            return StaticPlan::Forbidden(AuthFail::ForbiddenHost);
        }
    }
    let is_index = eq_str(chars_of(rel).as_slice(), "index.html");
    if cfg.has_token() && !is_asset_public(rel) {
        let token = extract_token(authorization, cookie, query_token);
        let ok = match &token {
            Some(t) => cfg.token_matches(Some(t.as_str())),
            None => cfg.token_matches(None),
        };
        if !ok {
            if is_index {
                return StaticPlan::GatePage { wrong: token.is_some() };
            }
            return StaticPlan::Unauthorized;
        }
        if is_index {
            if let Some(t) = token {
                return StaticPlan::Serve { set_cookie: Some(set_cookie_header(t.as_str())) };
            }
        }
    }
    StaticPlan::Serve { set_cookie: None }
}

/// Answer to a token login.
#[derive(Debug)]
pub enum LoginPlan {
    /// 429: too many attempts from this socket address.
    TooMany,
    Forbidden(AuthFail),
    /// The token page again, marked as a wrong token.
    WrongToken,
    /// Redirect to `/` and set this cookie.
    Redirect { set_cookie: String },
}

pub open spec fn login_code(p: LoginPlan) -> (int, Seq<char>) {
    match p {
        LoginPlan::TooMany => (0, Seq::empty()),
        LoginPlan::Forbidden(_) => (1, Seq::empty()),
        LoginPlan::WrongToken => (2, Seq::empty()),
        LoginPlan::Redirect { set_cookie } => (3, set_cookie@),
    }
}

/// The answer to a login with `form_token` from socket address `socket_ip`
/// at `now`: the rate limit counts the socket address (proxy headers can be
/// forged); the allow-list sees the peer address; the trimmed token must
/// match.
pub open spec fn spec_login_plan(
    m: Map<Seq<char>, Seq<u64>>,
    cfg: crate::config::ConfigView,
    socket_ip: Seq<char>,
    proxy_addr: Option<Seq<char>>,
    forwarded_for: Option<Seq<char>>,
    form_token: Option<Seq<char>>,
    now: u64,
) -> (int, Seq<char>) {
    let t = match form_token {
        Some(f) => trim(f),
        None => Seq::empty(),
    };
    if !login_allowed(m, socket_ip, now) {
        (0, Seq::empty())
    } else if !cfg.ip_allowed(spec_peer_ip(proxy_addr, forwarded_for, socket_ip, cfg.trust_proxy_headers)) {
        (1, Seq::empty())
    } else if !(!cfg.has_token() || t == cfg.token) {
        (2, Seq::empty())
    } else {
        (3, "webrust_token="@ + t + "; Path=/; SameSite=Strict; Max-Age=604800"@)
    }
}

/// Handles a token login at time `now` (limiter clock).
pub fn login_plan(
    limiter: &mut LoginLimiter,
    cfg: &AppConfig,
    socket_ip: &str,
    proxy_addr: Option<&str>,
    forwarded_for: Option<&str>,
    form_token: Option<&str>,
    now: u64,
) -> (r: LoginPlan)
    requires
        old(limiter).wf(),
    ensures
        final(limiter).wf(),
        final(limiter)@ == after_attempt(old(limiter)@, socket_ip@, now),
        final(limiter).last_seen() == if now > old(limiter).last_seen() {
            now
        } else {
            old(limiter).last_seen()
        },
        login_code(r) == spec_login_plan(
            old(limiter)@,
            cfg@,
            socket_ip@,
            opt_chars(proxy_addr),
            opt_chars(forwarded_for),
            opt_chars(form_token),
            now,
        ),
{
    if !limiter.check_at(socket_ip, now) {
        return LoginPlan::TooMany;
    }
    let ip = peer_ip(proxy_addr, forwarded_for, socket_ip, cfg.trust_proxy_headers);
    let t: Vec<char> = match form_token {
        Some(f) => trim_chars(chars_of(f).as_slice()),
        None => Vec::new(),
    };
    let token = string_of(t.as_slice());
    if !cfg.is_ip_allowed(ip.as_str()) {
        return LoginPlan::Forbidden(AuthFail::ForbiddenIp);
    }
    if !cfg.token_matches(Some(token.as_str())) {
        return LoginPlan::WrongToken;
    }
    LoginPlan::Redirect { set_cookie: set_cookie_header(token.as_str()) }
}

} // verus!
