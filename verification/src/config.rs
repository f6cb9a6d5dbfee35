//! Persistent host settings and the access rules derived from them.

use vstd::prelude::*;

use crate::text::{
    chars_eq, chars_of, dec, dec_chars, eq_str, find, find_str, index_of, index_of_any,
    index_of_any_exec, index_of_exec, lower, lower_chars, push_chars, push_str_chars, slice_chars,
    starts_with, starts_with_str, string_of, trim, trim_chars, parse_unsigned,
    parse_unsigned_exec, split_any, split_any_exec, lemma_index_of_bounds,
};
use crate::b64::{base64_url_nopad, encode_url_nopad};
use crate::tuning::DEFAULT_PORT;

use rand::RngCore;
use vstd::string::StringSliceAdditionalSpecFns;
use subtle::ConstantTimeEq;

verus! {

/// The characters of each string.
pub open spec fn strs(v: Seq<String>) -> Seq<Seq<char>> {
    v.map_values(|s: String| s@)
}

/// Settings of the host (stored as JSON; migrated once from the older INI file).
#[derive(Debug, Clone)]
pub struct AppConfig {
    /// Whether the embedded server should run. Default off.
    pub server_enabled: bool,
    pub port: u16,
    /// Bind all interfaces when true; otherwise loopback only.
    pub allow_lan: bool,
    /// Shared secret. Empty: no token required.
    pub token: String,
    pub allowed_domains: Vec<String>,
    pub ip_allowlist_enabled: bool,
    pub allowed_ips: Vec<String>,
    /// Honour `X-Forwarded-For` / `X-Real-IP` / `CF-Connecting-IP`. Default off:
    /// only trust proxy headers behind a known reverse proxy.
    pub trust_proxy_headers: bool,
}

/// Mathematical model of [`AppConfig`].
#[verifier::ext_equal]
pub struct ConfigView {
    pub server_enabled: bool,
    pub port: u16,
    pub allow_lan: bool,
    pub token: Seq<char>,
    pub allowed_domains: Seq<Seq<char>>,
    pub ip_allowlist_enabled: bool,
    pub allowed_ips: Seq<Seq<char>>,
    pub trust_proxy_headers: bool,
}

impl View for AppConfig {
    type V = ConfigView;

    open spec fn view(&self) -> ConfigView {
        ConfigView {
            server_enabled: self.server_enabled,
            port: self.port,
            allow_lan: self.allow_lan,
            token: self.token@,
            allowed_domains: strs(self.allowed_domains@),
            ip_allowlist_enabled: self.ip_allowlist_enabled,
            allowed_ips: strs(self.allowed_ips@),
            trust_proxy_headers: self.trust_proxy_headers,
        }
    }
}

/// The default settings: server off, default port, loopback only, no token,
/// no allow-lists.
pub open spec fn default_view() -> ConfigView {
    ConfigView {
        server_enabled: false,
        port: DEFAULT_PORT,
        allow_lan: false,
        token: Seq::empty(),
        allowed_domains: Seq::empty(),
        ip_allowlist_enabled: false,
        allowed_ips: Seq::empty(),
        trust_proxy_headers: false,
    }
}

/// Canonical form of an address for comparison.
pub open spec fn normalize_ip(ip: Seq<char>) -> Seq<char> {
    lower(trim(ip))
}

/// Loopback address (`127.*`, `::1` or `localhost`).
pub open spec fn is_loopback(ip: Seq<char>) -> bool {
    ip == "127.0.0.1"@ || ip == "::1"@ || ip == "localhost"@ || starts_with(ip, "127."@)
}

/// Loopback host name.
pub open spec fn is_loopback_host(h: Seq<char>) -> bool {
    h == "localhost"@ || h == "127.0.0.1"@ || h == "::1"@
}

impl ConfigView {
    pub open spec fn has_token(self) -> bool {
        self.token.len() > 0
    }

    /// A peer address passes the IP allow-list: loopback always does; with the
    /// list off every address does; with it on, only listed ones (after
    /// trimming and ASCII case folding) do.
    pub open spec fn ip_allowed(self, ip: Seq<char>) -> bool {
        let n = normalize_ip(ip);
        is_loopback(n) || !self.ip_allowlist_enabled || exists|i: int|
            0 <= i < self.allowed_ips.len() && #[trigger] normalize_ip(self.allowed_ips[i]) == n
    }

    /// A host name passes the domain allow-list: loopback names always do, every
    /// name does when the list is empty, else only listed names (ASCII case
    /// folded) do.
    pub open spec fn domain_allowed(self, host: Seq<char>) -> bool {
        let h = lower(host);
        is_loopback_host(h) || self.allowed_domains.len() == 0 || exists|i: int|
            0 <= i < self.allowed_domains.len() && #[trigger] lower(self.allowed_domains[i]) == h
    }
}

/// Trimmed and ASCII-lowercased characters.
fn normalized(v: &[char]) -> (r: Vec<char>)
    ensures
        r@ == normalize_ip(v@),
{
    let t = trim_chars(v);
    lower_chars(t.as_slice())
}

/// Loopback address test.
pub fn is_loopback_exec(ip: &[char]) -> (r: bool)
    ensures
        r == is_loopback(ip@),
{
    eq_str(ip, "127.0.0.1") || eq_str(ip, "::1") || eq_str(ip, "localhost") || starts_with_str(
        ip,
        "127.",
    )
}

/// Loopback host name test.
pub fn is_loopback_host_exec(h: &[char]) -> (r: bool)
    ensures
        r == is_loopback_host(h@),
{
    eq_str(h, "localhost") || eq_str(h, "127.0.0.1") || eq_str(h, "::1")
}

impl Default for AppConfig {
    /// The defaults described by [`default_view`].
    fn default() -> (c: AppConfig)
        ensures
            c@ == default_view(),
    {
        AppConfig::new_default()
    }
}

impl AppConfig {
    /// The defaults described by [`default_view`].
    pub fn new_default() -> (c: AppConfig)
        ensures
            c@ == default_view(),
    {
        let c = AppConfig {
            server_enabled: false,
            port: DEFAULT_PORT,
            allow_lan: false,
            token: String::new(),
            allowed_domains: Vec::new(),
            ip_allowlist_enabled: false,
            allowed_ips: Vec::new(),
            trust_proxy_headers: false,
        };
        assert(c@ =~= default_view());
        c
    }

    /// A token is configured.
    pub fn has_token(&self) -> (r: bool)
        ensures
            r == self@.has_token(),
    {
        !self.token.as_str().is_empty()
    }

    /// Whether a peer address may connect.
    pub fn is_ip_allowed(&self, ip: &str) -> (r: bool)
        ensures
            r == self@.ip_allowed(ip@),
    {
        let raw = chars_of(ip);
        let n = normalized(raw.as_slice());
        if is_loopback_exec(n.as_slice()) {
            return true;
        }
        if !self.ip_allowlist_enabled {
            return true;
        }
        let mut i: usize = 0;
        while i < self.allowed_ips.len()
            invariant
                0 <= i <= self.allowed_ips@.len(),
                n@ == normalize_ip(ip@),
                forall|k: int|
                    0 <= k < i ==> normalize_ip(#[trigger] strs(self.allowed_ips@)[k]) != n@,
            decreases self.allowed_ips@.len() - i,
        {
            let a = chars_of(self.allowed_ips[i].as_str());
            let an = normalized(a.as_slice());
            if chars_eq(an.as_slice(), n.as_slice()) {
                assert(strs(self.allowed_ips@)[i as int] == a@);
                assert(normalize_ip(self@.allowed_ips[i as int]) == n@);
                return true;
            }
            i = i + 1;
        }
        false
    }

    /// Whether a host name may be served.
    pub fn is_domain_allowed(&self, host: &str) -> (r: bool)
        ensures
            r == self@.domain_allowed(host@),
    {
        let hc = chars_of(host);
        domain_allowed_chars(self, hc.as_slice())
    }
}

/// [`AppConfig::is_domain_allowed`] on characters.
pub fn domain_allowed_chars(cfg: &AppConfig, host: &[char]) -> (r: bool)
    ensures
        r == cfg@.domain_allowed(host@),
{
    let h = lower_chars(host);
    if is_loopback_host_exec(h.as_slice()) {
        return true;
    }
    if cfg.allowed_domains.len() == 0 {
        return true;
    }
    let mut i: usize = 0;
    while i < cfg.allowed_domains.len()
        invariant
            0 <= i <= cfg.allowed_domains@.len(),
            h@ == lower(host@),
            forall|k: int| 0 <= k < i ==> lower(#[trigger] strs(cfg.allowed_domains@)[k]) != h@,
        decreases cfg.allowed_domains@.len() - i,
    {
        let d = chars_of(cfg.allowed_domains[i].as_str());
        let dl = lower_chars(d.as_slice());
        if chars_eq(dl.as_slice(), h.as_slice()) {
            assert(strs(cfg.allowed_domains@)[i as int] == d@);
            assert(lower(cfg@.allowed_domains[i as int]) == h@);
            return true;
        }
        i = i + 1;
    }
    false
}

} // verus!

verus! {

/// The IPv6 literal of an authority that starts with one in brackets
/// (without the brackets), else empty.
pub open spec fn bracketed_host(s: Seq<char>) -> Seq<char> {
    if s.len() > 0 && s[0] == '[' && index_of(s, ']') < s.len() {
        s.subrange(1, index_of(s, ']'))
    } else {
        Seq::empty()
    }
}

/// What follows the first `://` of an `Origin` value (or the whole value).
pub open spec fn origin_rest(o: Seq<char>) -> Seq<char> {
    let i = find(o, "://"@);
    if i < o.len() {
        o.skip(i + 3)
    } else {
        o
    }
}

/// Host part of an `Origin` value (already trimmed): what follows the first
/// `://`, up to the first `/` or `:`, ASCII lowercased. For a bracketed IPv6
/// host this is the text before its first `:`.
pub open spec fn origin_host(o: Seq<char>) -> Seq<char> {
    let rest = origin_rest(o);
    lower(rest.take(index_of_any(rest, seq!['/', ':'])))
}

/// The origin names a loopback host, an IPv6 one in brackets (`[::1]`)
/// included.
pub open spec fn origin_is_loopback(o: Seq<char>) -> bool {
    is_loopback_host(origin_host(o)) || is_loopback_host(lower(bracketed_host(origin_rest(o))))
}

/// Host part of a `Host` header value: up to the first `:`, ASCII lowercased.
pub open spec fn host_header_name(h: Seq<char>) -> Seq<char> {
    lower(h.take(index_of(h, ':')))
}

/// URL prefix of the loopback address.
pub open spec fn loopback_url(port: u16) -> Seq<char> {
    "http://127.0.0.1:"@ + dec(port as nat)
}

/// URL of a LAN address.
pub open spec fn lan_url(ip: Seq<char>, port: u16) -> Seq<char> {
    "http://"@ + ip + ":"@ + dec(port as nat)
}

impl ConfigView {
    /// WebSocket `Origin` check (cross-site protection). Without an `Origin`
    /// only token holders pass; an empty or `null` origin never does; loopback
    /// origins and origins naming the requested host always do; otherwise the
    /// domain allow-list decides.
    pub open spec fn origin_allowed(
        self,
        origin: Option<Seq<char>>,
        host_header: Option<Seq<char>>,
    ) -> bool {
        match origin {
            None => self.has_token(),
            Some(raw) => {
                let o = trim(raw);
                if o.len() == 0 || lower(o) == "null"@ {
                    false
                } else {
                    let host = origin_host(o);
                    if host.len() == 0 {
                        false
                    } else if origin_is_loopback(o) {
                        true
                    } else if host_header is Some && host == host_header_name(host_header->0) {
                        true
                    } else {
                        self.domain_allowed(host)
                    }
                }
            },
        }
    }

    /// Addresses at which the server can be reached: loopback first, then each
    /// LAN address when LAN access is on.
    pub open spec fn urls(self, lan: Seq<Seq<char>>) -> Seq<Seq<char>> {
        seq![loopback_url(self.port)] + if self.allow_lan {
            lan.map_values(|ip: Seq<char>| lan_url(ip, self.port))
        } else {
            Seq::empty()
        }
    }
}

/// [`bracketed_host`] on characters.
pub fn bracketed_host_exec(v: &[char]) -> (r: Vec<char>)
    ensures
        r@ == bracketed_host(v@),
{
    if v.len() > 0 && v[0] == '[' {
        let e = index_of_exec(v, ']');
        if e < v.len() {
            proof {
                lemma_index_of_bounds(v@, ']');
            }
            return slice_chars(v, 1, e);
        }
    }
    Vec::new()
}

impl AppConfig {
    /// Whether a WebSocket `Origin` (with the request's `Host`) is acceptable.
    pub fn is_origin_allowed(&self, origin: Option<&str>, host_header: Option<&str>) -> (r: bool)
        ensures
            r == self@.origin_allowed(
                match origin {
                    Some(o) => Some(o@),
                    None => None::<Seq<char>>,
                },
                match host_header {
                    Some(h) => Some(h@),
                    None => None::<Seq<char>>,
                },
            ),
    {
        let raw = match origin {
            None => {
                return self.has_token();
            },
            Some(o) => chars_of(o),
        };
        let o = trim_chars(raw.as_slice());
        if o.len() == 0 {
            return false;
        }
        let ol = lower_chars(o.as_slice());
        if eq_str(ol.as_slice(), "null") {
            return false;
        }
        let i = find_str(o.as_slice(), "://");
        proof {
            reveal_strlit("://");
        }
        let rest = if i < o.len() {
            slice_chars(o.as_slice(), i + 3, o.len())
        } else {
            slice_chars(o.as_slice(), 0, o.len())
        };
        proof {
            assert(o@.subrange(0, o@.len() as int) =~= o@);
            if i < o@.len() {
                assert(o@.subrange(i + 3, o@.len() as int) =~= o@.skip(i + 3));
            }
        }
        let seps: Vec<char> = vec!['/', ':'];
        assert(seps@ =~= seq!['/', ':']);
        let k = index_of_any_exec(rest.as_slice(), seps.as_slice());
        let head = slice_chars(rest.as_slice(), 0, k);
        assert(head@ =~= rest@.take(k as int));
        let host = lower_chars(head.as_slice());
        if host.len() == 0 {
            return false;
        }
        let ip6 = lower_chars(bracketed_host_exec(rest.as_slice()).as_slice());
        if is_loopback_host_exec(host.as_slice()) || is_loopback_host_exec(ip6.as_slice()) {
            return true;
        }
        if let Some(hh) = host_header {
            let hc = chars_of(hh);
            let c = index_of_exec(hc.as_slice(), ':');
            let hn = slice_chars(hc.as_slice(), 0, c);
            assert(hn@ =~= hc@.take(c as int));
            let hl = lower_chars(hn.as_slice());
            if chars_eq(host.as_slice(), hl.as_slice()) {
                return true;
            }
        }
        domain_allowed_chars(self, host.as_slice())
    }

    /// Connection URLs shown to the user.
    pub fn connection_urls(&self, lan_addresses: &[String]) -> (urls: Vec<String>)
        ensures
            strs(urls@) == self@.urls(strs(lan_addresses@)),
    {
        let port = dec_chars(self.port as u64);
        let mut first: Vec<char> = Vec::new();
        push_str_chars(&mut first, "http://127.0.0.1:");
        push_chars(&mut first, port.as_slice());
        let mut urls: Vec<String> = Vec::new();
        urls.push(string_of(first.as_slice()));
        let ghost lan = strs(lan_addresses@);
        let ghost tail = if self.allow_lan {
            lan.map_values(|ip: Seq<char>| lan_url(ip, self.port))
        } else {
            Seq::<Seq<char>>::empty()
        };
        assert(strs(urls@) =~= seq![loopback_url(self.port)]);
        if self.allow_lan {
            let mut i: usize = 0;
            while i < lan_addresses.len()
                invariant
                    0 <= i <= lan_addresses@.len(),
                    self.allow_lan,
                    lan == strs(lan_addresses@),
                    port@ == dec(self.port as nat),
                    tail == lan.map_values(|ip: Seq<char>| lan_url(ip, self.port)),
                    strs(urls@) == seq![loopback_url(self.port)] + tail.take(i as int),
                decreases lan_addresses@.len() - i,
            {
                let ip = chars_of(lan_addresses[i].as_str());
                let mut u: Vec<char> = Vec::new();
                push_str_chars(&mut u, "http://");
                push_chars(&mut u, ip.as_slice());
                push_str_chars(&mut u, ":");
                push_chars(&mut u, port.as_slice());
                let ghost before = urls@;
                urls.push(string_of(u.as_slice()));
                proof {
                    assert(lan[i as int] == ip@);
                    assert(u@ =~= lan_url(ip@, self.port));
                    assert(strs(urls@) =~= strs(before).push(u@));
                    assert(tail.take(i + 1) =~= tail.take(i as int).push(u@));
                }
                i = i + 1;
            }
            assert(tail.take(lan_addresses@.len() as int) =~= tail);
        }
        urls
    }

    /// Address the server listens on: every interface when LAN access is on,
    /// the loopback interface otherwise; always on the configured port.
    pub fn bind_address(&self) -> (r: ([u8; 4], u16))
        ensures
            r.0@ == self@.bind_ip(),
            r.1 == self.port,
    {
        let ip: [u8; 4] = if self.allow_lan {
            [0, 0, 0, 0]
        } else {
            [127, 0, 0, 1]
        };
        assert(ip@ =~= self@.bind_ip());
        (ip, self.port)
    }
}

impl ConfigView {
    /// IPv4 address to bind: `0.0.0.0` with LAN access, `127.0.0.1` without.
    pub open spec fn bind_ip(self) -> Seq<u8> {
        if self.allow_lan {
            seq![0u8, 0u8, 0u8, 0u8]
        } else {
            seq![127u8, 0u8, 0u8, 1u8]
        }
    }
}

} // verus!

verus! {

/// INI truth value: `1`, `true`, `yes` or `on`, ASCII case-insensitively.
pub open spec fn parse_bool(v: Seq<char>) -> bool {
    let l = lower(v);
    l == "1"@ || l == "true"@ || l == "yes"@ || l == "on"@
}

/// Trimmed pieces, empty ones dropped.
pub open spec fn clean_list(pieces: Seq<Seq<char>>) -> Seq<Seq<char>>
    decreases pieces.len(),
{
    if pieces.len() == 0 {
        Seq::empty()
    } else {
        let rest = clean_list(pieces.drop_last());
        let t = trim(pieces.last());
        if t.len() > 0 {
            rest.push(t)
        } else {
            rest
        }
    }
}

/// INI list value: items separated by `,`, space or `;`.
pub open spec fn split_list(v: Seq<char>) -> Seq<Seq<char>> {
    clean_list(split_any(v, seq![',', ' ', ';']))
}

/// Effect of one INI line on the settings. Blank lines, comments (`#`, `;`) and
/// lines without `=` change nothing; keys are trimmed and ASCII
/// case-insensitive; unknown keys and unparsable ports are ignored.
pub open spec fn ini_line(cfg: ConfigView, raw: Seq<char>) -> ConfigView {
    let line = trim(raw);
    if line.len() == 0 || line[0] == '#' || line[0] == ';' {
        cfg
    } else {
        let i = index_of(line, '=');
        if i >= line.len() {
            cfg
        } else {
            let k = lower(trim(line.take(i)));
            let v = trim(line.skip(i + 1));
            if k == "serverenabled"@ || k == "server_enabled"@ {
                ConfigView { server_enabled: parse_bool(v), ..cfg }
            } else if k == "port"@ {
                match parse_unsigned(v) {
                    Some(n) => if n <= 65535 {
                        ConfigView { port: n as u16, ..cfg }
                    } else {
                        cfg
                    },
                    None => cfg,
                }
            } else if k == "allowlan"@ || k == "allow_lan"@ {
                ConfigView { allow_lan: parse_bool(v), ..cfg }
            } else if k == "token"@ {
                ConfigView { token: v, ..cfg }
            } else if k == "alloweddomains"@ || k == "allowed_domains"@ {
                ConfigView { allowed_domains: split_list(v), ..cfg }
            } else if k == "ipallowlistenabled"@ || k == "ip_allowlist_enabled"@ {
                ConfigView { ip_allowlist_enabled: parse_bool(v), ..cfg }
            } else if k == "allowedips"@ || k == "allowed_ips"@ {
                ConfigView { allowed_ips: split_list(v), ..cfg }
            } else {
                cfg
            }
        }
    }
}

/// Effect of a sequence of INI lines, in order.
pub open spec fn ini_lines(cfg: ConfigView, lines: Seq<Seq<char>>) -> ConfigView
    decreases lines.len(),
{
    if lines.len() == 0 {
        cfg
    } else {
        ini_line(ini_lines(cfg, lines.drop_last()), lines.last())
    }
}

/// Settings read from the text of an INI file: the defaults, updated line by line.
pub open spec fn ini_config(text: Seq<char>) -> ConfigView {
    ini_lines(default_view(), split_any(text, seq!['\n']))
}

/// [`parse_bool`].
pub fn parse_bool_exec(v: &[char]) -> (r: bool)
    ensures
        r == parse_bool(v@),
{
    let l = lower_chars(v);
    eq_str(l.as_slice(), "1") || eq_str(l.as_slice(), "true") || eq_str(l.as_slice(), "yes")
        || eq_str(l.as_slice(), "on")
}

/// [`split_list`].
pub fn split_list_exec(v: &[char]) -> (r: Vec<String>)
    ensures
        strs(r@) == split_list(v@),
{
    let seps: Vec<char> = vec![',', ' ', ';'];
    assert(seps@ =~= seq![',', ' ', ';']);
    let pieces = split_any_exec(v, seps.as_slice());
    let ghost ps = split_any(v@, seps@);
    let mut out: Vec<String> = Vec::new();
    let mut i: usize = 0;
    assert(ps.take(0) =~= Seq::<Seq<char>>::empty());
    while i < pieces.len()
        invariant
            0 <= i <= pieces@.len(),
            pieces@.len() == ps.len(),
            forall|k: int| 0 <= k < pieces@.len() ==> #[trigger] pieces@[k]@ == ps[k],
            strs(out@) == clean_list(ps.take(i as int)),
        decreases pieces@.len() - i,
    {
        let t = trim_chars(pieces[i].as_slice());
        proof {
            assert(ps.take(i + 1).drop_last() =~= ps.take(i as int));
            assert(ps.take(i + 1).last() == pieces@[i as int]@);
        }
        if t.len() > 0 {
            let ghost before = out@;
            out.push(string_of(t.as_slice()));
            assert(strs(out@) =~= strs(before).push(t@));
        }
        i = i + 1;
    }
    assert(ps.take(pieces@.len() as int) =~= ps);
    out
}

/// Applies one INI line to the settings.
pub fn apply_ini_line(cfg: &mut AppConfig, raw: &[char])
    ensures
        final(cfg)@ == ini_line(old(cfg)@, raw@),
{
    let line = trim_chars(raw);
    if line.len() == 0 || line[0] == '#' || line[0] == ';' {
        return;
    }
    let i = index_of_exec(line.as_slice(), '=');
    if i >= line.len() {
        return;
    }
    let kr = slice_chars(line.as_slice(), 0, i);
    let kt = trim_chars(kr.as_slice());
    let k = lower_chars(kt.as_slice());
    let vr = slice_chars(line.as_slice(), i + 1, line.len());
    let v = trim_chars(vr.as_slice());
    proof {
        assert(kr@ =~= line@.take(i as int));
        assert(vr@ =~= line@.skip(i + 1));
    }
    let ks = k.as_slice();
    if eq_str(ks, "serverenabled") || eq_str(ks, "server_enabled") {
        cfg.server_enabled = parse_bool_exec(v.as_slice());
    } else if eq_str(ks, "port") {
        if let Some(p) = parse_unsigned_exec(v.as_slice(), 65535) {
            cfg.port = p as u16;
        }
    } else if eq_str(ks, "allowlan") || eq_str(ks, "allow_lan") {
        cfg.allow_lan = parse_bool_exec(v.as_slice());
    } else if eq_str(ks, "token") {
        cfg.token = string_of(v.as_slice());
    } else if eq_str(ks, "alloweddomains") || eq_str(ks, "allowed_domains") {
        cfg.allowed_domains = split_list_exec(v.as_slice());
    } else if eq_str(ks, "ipallowlistenabled") || eq_str(ks, "ip_allowlist_enabled") {
        cfg.ip_allowlist_enabled = parse_bool_exec(v.as_slice());
    } else if eq_str(ks, "allowedips") || eq_str(ks, "allowed_ips") {
        cfg.allowed_ips = split_list_exec(v.as_slice());
    }
    assert(cfg@ =~= ini_line(old(cfg)@, raw@));
}

/// Minimal INI reader for the older `config.ini` (one-shot migration).
pub fn parse_ini(text: &str) -> (cfg: AppConfig)
    ensures
        cfg@ == ini_config(text@),
{
    let chars = chars_of(text);
    let nl: Vec<char> = vec!['\n'];
    assert(nl@ =~= seq!['\n']);
    let lines = split_any_exec(chars.as_slice(), nl.as_slice());
    let ghost ls = split_any(text@, nl@);
    let mut cfg = AppConfig::new_default();
    let mut i: usize = 0;
    assert(ls.take(0) =~= Seq::<Seq<char>>::empty());
    while i < lines.len()
        invariant
            0 <= i <= lines@.len(),
            lines@.len() == ls.len(),
            forall|k: int| 0 <= k < lines@.len() ==> #[trigger] lines@[k]@ == ls[k],
            cfg@ == ini_lines(default_view(), ls.take(i as int)),
        decreases lines@.len() - i,
    {
        proof {
            assert(ls.take(i + 1).drop_last() =~= ls.take(i as int));
            assert(ls.take(i + 1).last() == lines@[i as int]@);
        }
        apply_ini_line(&mut cfg, lines[i].as_slice());
        i = i + 1;
    }
    assert(ls.take(lines@.len() as int) =~= ls);
    cfg
}

/// Settings taken over once from the WebDock app: its default port 8080
/// is moved to this host's default port, and the server is switched on.
pub open spec fn migrated_view(c: ConfigView) -> ConfigView {
    ConfigView {
        port: if c.port == 8080 {
            DEFAULT_PORT
        } else {
            c.port
        },
        server_enabled: true,
        ..c
    }
}

/// Adapts settings read from the WebDock app (see [`migrated_view`]).
pub fn migrate_from_webdock(cfg: AppConfig) -> (r: AppConfig)
    ensures
        r@ == migrated_view(cfg@),
{
    let mut c = cfg;
    if c.port == 8080 {
        c.port = DEFAULT_PORT;
    }
    c.server_enabled = true;
    assert(c@ =~= migrated_view(cfg@));
    c
}

} // verus!

verus! {

/// `subtle::ConstantTimeEq::ct_eq` on byte slices, converted to `bool`: true
/// exactly when the slices are equal (different lengths compare unequal).
#[verifier::external_body]
fn ct_eq_bytes(a: &[u8], b: &[u8]) -> (r: bool)
    ensures
        r == (a@ == b@),
{
    bool::from(a.ct_eq(b))
}

/// `rand::thread_rng().fill_bytes` on `n` zeroed bytes: `n` bytes of which
/// nothing else is known (they are random).
#[verifier::external_body]
fn random_bytes(n: usize) -> (v: Vec<u8>)
    ensures
        v@.len() == n,
{
    let mut buf = vec![0u8; n];
    rand::thread_rng().fill_bytes(&mut buf);
    buf
}

proof fn lemma_bytes_eq_iff_chars_eq(a: &str, b: &str)
    ensures
        (a.spec_bytes() == b.spec_bytes()) == (a@ == b@),
{
    broadcast use vstd::utf8::encode_utf8_decode_utf8;

    if a.spec_bytes() == b.spec_bytes() {
        assert(vstd::utf8::decode_utf8(vstd::utf8::encode_utf8(a@)) == a@);
        assert(vstd::utf8::decode_utf8(vstd::utf8::encode_utf8(b@)) == b@);
    }
}

impl AppConfig {
    /// Token check, constant-time in the token's contents: passes when no
    /// token is configured, or when the provided token equals it exactly.
    pub fn token_matches(&self, provided: Option<&str>) -> (r: bool)
        ensures
            r == (!self@.has_token() || (provided is Some && provided->0@ == self.token@)),
    {
        if !self.has_token() {
            return true;
        }
        let p = match provided {
            Some(p) => p,
            None => {
                return false;
            },
        };
        let ts = self.token.as_str();
        let a = ts.as_bytes();
        let b = p.as_bytes();
        proof {
            lemma_bytes_eq_iff_chars_eq(ts, p);
        }
        if a.len() != b.len() {
            let _ = ct_eq_bytes(a, a);
            return false;
        }
        ct_eq_bytes(a, b)
    }

    /// A fresh random token: `bytes` random bytes in URL-safe unpadded Base64.
    pub fn generate_token(bytes: usize) -> (t: String)
        requires
            bytes <= usize::MAX / 2,
        ensures
            exists|r: Seq<u8>| r.len() == bytes && t@ == base64_url_nopad(r),
    {
        let buf = random_bytes(bytes);
        let t = encode_url_nopad(buf.as_slice());
        assert(buf@.len() == bytes && t@ == base64_url_nopad(buf@));
        t
    }
}

} // verus!
