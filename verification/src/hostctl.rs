//! Decisions of the host process around the embedded server: applying edited
//! settings (and whether the server restarts), the local URL of the remote
//! UI, messages of the control panel, and its commands.

use vstd::prelude::*;

use crate::config::{strs, AppConfig, ConfigView};
use crate::text::{chars_eq, chars_of, dec, dec_chars, push_chars, push_str_chars, string_of};
use crate::updater::UpdateInfo;

verus! {

/// What happens to the running server after settings change.
#[derive(Debug, Clone, Copy, PartialEq, Eq, Structural)]
pub enum Lifecycle {
    Nothing,
    Start,
    Stop,
    /// Stop, then start again when `start_again` (the server stays enabled).
    Restart { start_again: bool },
}

/// Settings as edited in the control panel.
pub struct SettingsEdit {
    pub server_enabled: bool,
    pub port: u16,
    pub allow_lan: bool,
    pub token: String,
    pub allowed_domains: Vec<String>,
    pub ip_allowlist_enabled: bool,
    pub allowed_ips: Vec<String>,
}

/// The settings after an edit (proxy trust is not edited here).
pub open spec fn edited_view(prev: ConfigView, e: SettingsEdit) -> ConfigView {
    ConfigView {
        server_enabled: e.server_enabled,
        port: e.port,
        allow_lan: e.allow_lan,
        token: e.token@,
        allowed_domains: strs(e.allowed_domains@),
        ip_allowlist_enabled: e.ip_allowlist_enabled,
        allowed_ips: strs(e.allowed_ips@),
        trust_proxy_headers: prev.trust_proxy_headers,
    }
}

/// A setting that affects the listening socket or access control changed.
pub open spec fn bind_related_changed(prev: ConfigView, next: ConfigView) -> bool {
    ||| prev.port != next.port
    ||| prev.allow_lan != next.allow_lan
    ||| prev.token != next.token
    ||| prev.allowed_domains != next.allowed_domains
    ||| prev.ip_allowlist_enabled != next.ip_allowlist_enabled
    ||| prev.allowed_ips != next.allowed_ips
}

/// Server lifecycle after an edit: a running server restarts on new
/// bind-related settings (and comes back only if still enabled); otherwise
/// the server is started or stopped to match the enabled switch.
pub open spec fn lifecycle_after(prev: ConfigView, next: ConfigView, was_running: bool) -> Lifecycle {
    if was_running && bind_related_changed(prev, next) {
        Lifecycle::Restart { start_again: next.server_enabled }
    } else if next.server_enabled && !was_running {
        Lifecycle::Start
    } else if !next.server_enabled && was_running {
        Lifecycle::Stop
    } else {
        Lifecycle::Nothing
    }
}

/// Message of an out-of-range port.
pub open spec fn port_range_message() -> Seq<char> {
    "port must be between 1 and 65535"@
}

fn strings_eq(a: &[String], b: &[String]) -> (r: bool)
    ensures
        r == (strs(a@) == strs(b@)),
{
    if a.len() != b.len() {
        assert(strs(a@).len() != strs(b@).len());
        return false;
    }
    let mut i: usize = 0;
    while i < a.len()
        invariant
            a@.len() == b@.len(),
            i <= a@.len(),
            forall|j: int| 0 <= j < i ==> a@[j]@ == b@[j]@,
        decreases a@.len() - i,
    {
        let x = chars_of(a[i].as_str());
        let y = chars_of(b[i].as_str());
        if !chars_eq(x.as_slice(), y.as_slice()) {
            assert(strs(a@)[i as int] != strs(b@)[i as int]);
            return false;
        }
        i += 1;
    }
    assert(strs(a@) =~= strs(b@));
    true
}

fn copy_string(s: &str) -> (r: String)
    ensures
        r@ == s@,
{
    string_of(chars_of(s).as_slice())
}

/// Applies edited settings: a port of 0 is refused; otherwise the new
/// settings (to be saved before anything else) and what the running server
/// must do.
pub fn apply_settings(prev: &AppConfig, edit: SettingsEdit, was_running: bool) -> (r: Result<
    (AppConfig, Lifecycle),
    String,
>)
    ensures
        edit.port == 0 ==> (r matches Err(m) && m@ == port_range_message()),
        edit.port != 0 ==> (r matches Ok((c, l)) && c@ == edited_view(prev@, edit) && l
            == lifecycle_after(prev@, edited_view(prev@, edit), was_running)),
{
    if edit.port == 0 {
        return Err(copy_string("port must be between 1 and 65535"));
    }
    let ghost next = edited_view(prev@, edit);
    let changed = prev.port != edit.port || prev.allow_lan != edit.allow_lan || !chars_eq(
        chars_of(prev.token.as_str()).as_slice(),
        chars_of(edit.token.as_str()).as_slice(),
    ) || !strings_eq(prev.allowed_domains.as_slice(), edit.allowed_domains.as_slice())
        || prev.ip_allowlist_enabled != edit.ip_allowlist_enabled || !strings_eq(
        prev.allowed_ips.as_slice(),
        edit.allowed_ips.as_slice(),
    );
    assert(changed == bind_related_changed(prev@, next));
    let enabled = edit.server_enabled;
    let life = if was_running && changed {
        Lifecycle::Restart { start_again: enabled }
    } else if enabled && !was_running {
        Lifecycle::Start
    } else if !enabled && was_running {
        Lifecycle::Stop
    } else {
        Lifecycle::Nothing
    };
    let cfg = AppConfig {
        server_enabled: edit.server_enabled,
        port: edit.port,
        allow_lan: edit.allow_lan,
        token: edit.token,
        allowed_domains: edit.allowed_domains,
        ip_allowlist_enabled: edit.ip_allowlist_enabled,
        allowed_ips: edit.allowed_ips,
        trust_proxy_headers: prev.trust_proxy_headers,
    };
    Ok((cfg, life))
}

/// Local URL of the remote UI (with the token when one is set).
pub open spec fn remote_ui_url(cfg: ConfigView, port: u16) -> Seq<char> {
    if cfg.has_token() {
        "http://127.0.0.1:"@ + dec(port as nat) + "/?token="@ + cfg.token
    } else {
        "http://127.0.0.1:"@ + dec(port as nat) + "/"@
    }
}

/// URL that opens the remote UI locally: on the bound port when the server
/// runs, else on the configured one.
pub fn open_remote_url(cfg: &AppConfig, bound_port: Option<u16>) -> (r: String)
    ensures
        r@ == remote_ui_url(cfg@, match bound_port {
            Some(p) => p,
            None => cfg.port,
        }),
{
    let port = match bound_port {
        Some(p) => p,
        None => cfg.port,
    };
    let mut out = chars_of("http://127.0.0.1:");
    push_chars(&mut out, dec_chars(port as u64).as_slice());
    if cfg.has_token() {
        push_str_chars(&mut out, "/?token=");
        push_str_chars(&mut out, cfg.token.as_str());
    } else {
        push_str_chars(&mut out, "/");
    }
    string_of(out.as_slice())
}

/// Message of a port that cannot be bound (`err` is the system's error).
pub fn bind_failed_message(port: u16, err: &str) -> (r: String)
    ensures
        r@ == "port "@ + dec(port as nat) + " is unavailable ("@ + err@ + "). Choose another port and Apply."@,
{
    let mut out = chars_of("port ");
    push_chars(&mut out, dec_chars(port as u64).as_slice());
    push_str_chars(&mut out, " is unavailable (");
    push_str_chars(&mut out, err);
    push_str_chars(&mut out, "). Choose another port and Apply.");
    string_of(out.as_slice())
}

/// The cached update can be installed without a new check.
pub open spec fn cached_update_usable(info: Option<UpdateInfo>) -> bool {
    info matches Some(i) && i.update_available && i.download_url is Some
}

/// Whether a cached update can be installed without checking again.
pub fn cached_install_ok(info: &Option<UpdateInfo>) -> (r: bool)
    ensures
        r == cached_update_usable(*info),
{
    match info {
        Some(i) => i.update_available && i.download_url.is_some(),
        None => false,
    }
}

/// After a fresh check before installing: nothing to do (up to date, with
/// the message), no asset for this platform (error), or go ahead.
pub fn fresh_install_check(info: &UpdateInfo) -> (r: Option<Result<String, String>>)
    ensures
        !info.update_available ==> (r matches Some(Ok(m)) && m@ == "Up to date (v"@ + info.current_version@ + ")"@),
        info.update_available && info.download_url is None ==> (r matches Some(Err(m)) && m@
            == "No installable asset for this platform"@),
        info.update_available && info.download_url is Some ==> r is None,
{
    if !info.update_available {
        let mut out = chars_of("Up to date (v");
        push_str_chars(&mut out, info.current_version.as_str());
        push_str_chars(&mut out, ")");
        return Some(Ok(string_of(out.as_slice())));
    }
    if info.download_url.is_none() {
        return Some(Err(copy_string("No installable asset for this platform")));
    }
    None
}

/// Command of the control panel (desktop window).
#[derive(Debug)]
pub enum IpcCommand {
    Get,
    /// Apply edited settings ("set").
    Apply,
    GenToken,
    OpenRemote,
    Start,
    Stop,
    CheckUpdate,
    OpenUpdate,
    Quit,
    Unknown(String),
}

/// Command named `cmd`.
pub open spec fn spec_ipc_command(cmd: Seq<char>) -> Option<int> {
    if cmd == "get"@ {
        Some(0)
    } else if cmd == "set"@ {
        Some(1)
    } else if cmd == "genToken"@ {
        Some(2)
    } else if cmd == "openRemote"@ {
        Some(3)
    } else if cmd == "start"@ {
        Some(4)
    } else if cmd == "stop"@ {
        Some(5)
    } else if cmd == "checkUpdate"@ {
        Some(6)
    } else if cmd == "openUpdate"@ {
        Some(7)
    } else if cmd == "quit"@ {
        Some(8)
    } else {
        None
    }
}

pub open spec fn command_index(c: IpcCommand) -> Option<int> {
    match c {
        IpcCommand::Get => Some(0),
        IpcCommand::Apply => Some(1),
        IpcCommand::GenToken => Some(2),
        IpcCommand::OpenRemote => Some(3),
        IpcCommand::Start => Some(4),
        IpcCommand::Stop => Some(5),
        IpcCommand::CheckUpdate => Some(6),
        IpcCommand::OpenUpdate => Some(7),
        IpcCommand::Quit => Some(8),
        IpcCommand::Unknown(_) => None,
    }
}

/// The command named `cmd` (an unknown name is kept for the error message).
pub fn ipc_command(cmd: &str) -> (r: IpcCommand)
    ensures
        command_index(r) == spec_ipc_command(cmd@),
        r matches IpcCommand::Unknown(n) ==> n@ == cmd@,
{
    let c = chars_of(cmd);
    let v = c.as_slice();
    if crate::text::eq_str(v, "get") {
        IpcCommand::Get
    } else if crate::text::eq_str(v, "set") {
        IpcCommand::Apply
    } else if crate::text::eq_str(v, "genToken") {
        IpcCommand::GenToken
    } else if crate::text::eq_str(v, "openRemote") {
        IpcCommand::OpenRemote
    } else if crate::text::eq_str(v, "start") {
        IpcCommand::Start
    } else if crate::text::eq_str(v, "stop") {
        IpcCommand::Stop
    } else if crate::text::eq_str(v, "checkUpdate") {
        IpcCommand::CheckUpdate
    } else if crate::text::eq_str(v, "openUpdate") {
        IpcCommand::OpenUpdate
    } else if crate::text::eq_str(v, "quit") {
        IpcCommand::Quit
    } else {
        IpcCommand::Unknown(copy_string(cmd))
    }
}

/// Control-panel message after an update check.
pub fn update_check_message(info: &UpdateInfo) -> (r: String)
    ensures
        info.update_available ==> r@ == "Update available: v"@ + info.latest_version@ + " → open release page"@,
        !info.update_available ==> r@ == "Up to date (v"@ + info.current_version@ + ")"@,
{
    if info.update_available {
        let mut out = chars_of("Update available: v");
        push_str_chars(&mut out, info.latest_version.as_str());
        push_str_chars(&mut out, " → open release page");
        string_of(out.as_slice())
    } else {
        let mut out = chars_of("Up to date (v");
        push_str_chars(&mut out, info.current_version.as_str());
        push_str_chars(&mut out, ")");
        string_of(out.as_slice())
    }
}

/// Page to open for an update: the release page, else the download.
pub fn update_page_url(info: &UpdateInfo) -> (r: Option<String>)
    ensures
        match info.html_url {
            Some(h) => r matches Some(u) && u@ == h@,
            None => match info.download_url {
                Some(d) => r matches Some(u) && u@ == d@,
                None => r is None,
            },
        },
{
    match &info.html_url {
        Some(h) => Some(copy_string(h.as_str())),
        None => match &info.download_url {
            Some(d) => Some(copy_string(d.as_str())),
            None => None,
        },
    }
}

/// Control-panel message of a failed or refused command: `prefix` then the
/// error.
pub fn prefixed_message(prefix: &str, err: &str) -> (r: String)
    ensures
        r@ == prefix@ + err@,
{
    let mut out = chars_of(prefix);
    push_str_chars(&mut out, err);
    string_of(out.as_slice())
}

/// Settings that do not change restart nothing and change nothing.
pub proof fn lemma_same_settings_keep_server(prev: ConfigView, running: bool)
    requires
        prev.server_enabled == running,
    ensures
        lifecycle_after(prev, prev, running) == Lifecycle::Nothing,
{
}

/// A running server always restarts when its port changes, and comes back
/// exactly when it stays enabled.
pub proof fn lemma_port_change_restarts(prev: ConfigView, next: ConfigView)
    requires
        prev.port != next.port,
    ensures
        lifecycle_after(prev, next, true) == (Lifecycle::Restart { start_again: next.server_enabled }),
{
}

} // verus!
