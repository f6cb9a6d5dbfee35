//! Command line of the host: which mode an invocation asks for, the options
//! of headless mode, and the ports tried when binding.

use vstd::prelude::*;

use crate::config::{strs, AppConfig, ConfigView};
use crate::text::{all_digits, chars_of, eq_str, parse_unsigned, parse_unsigned_exec, push_str_chars, string_of};

verus! {

/// What an invocation asks for.
#[derive(Debug, Clone, Copy, PartialEq, Eq, Structural)]
pub enum TopCommand {
    Help,
    Version,
    CheckUpdate,
    /// Download and install the latest release.
    InstallUpdate,
    /// Settings window and tray.
    Gui,
    /// Headless server.
    Cli,
}

/// Some argument equals one of two spellings.
pub open spec fn has_arg(args: Seq<Seq<char>>, a: Seq<char>, b: Seq<char>) -> bool {
    exists|i: int| 0 <= i < args.len() && (#[trigger] args[i] == a || args[i] == b)
}

/// Mode of an invocation: help, then version, then the update check, then
/// the update install win over the rest; otherwise headless with
/// `--cli`/`--headless`, else the GUI.
pub open spec fn spec_top_command(args: Seq<Seq<char>>) -> TopCommand {
    if has_arg(args, "-h"@, "--help"@) {
        TopCommand::Help
    } else if has_arg(args, "--version"@, "-V"@) {
        TopCommand::Version
    } else if has_arg(args, "--check-update"@, "--check-update"@) {
        TopCommand::CheckUpdate
    } else if has_arg(args, "--install-update"@, "--install-update"@) {
        TopCommand::InstallUpdate
    } else if has_arg(args, "--cli"@, "--headless"@) {
        TopCommand::Cli
    } else {
        TopCommand::Gui
    }
}

/// Some argument is exactly `a`.
pub open spec fn given(args: Seq<Seq<char>>, a: Seq<char>) -> bool {
    exists|i: int| 0 <= i < args.len() && #[trigger] args[i] == a
}

proof fn lemma_has_arg_given(args: Seq<Seq<char>>, a: Seq<char>, b: Seq<char>)
    ensures
        has_arg(args, a, b) == (given(args, a) || given(args, b)),
{
    if has_arg(args, a, b) {
        let i = choose|i: int| 0 <= i < args.len() && (#[trigger] args[i] == a || args[i] == b);
        if args[i] == a {
            assert(given(args, a));
        } else {
            assert(given(args, b));
        }
    }
    if given(args, a) {
        let i = choose|i: int| 0 <= i < args.len() && #[trigger] args[i] == a;
        assert(args[i] == a || args[i] == b);
    }
    if given(args, b) {
        let i = choose|i: int| 0 <= i < args.len() && #[trigger] args[i] == b;
        assert(args[i] == a || args[i] == b);
    }
}

/// Which mode the flags ask for: `-h`/`--help` first, then `--version`/`-V`,
/// then `--check-update`, then `--install-update`; failing those, headless
/// mode exactly when `--cli` or `--headless` is given, else the settings
/// window and tray.
pub proof fn lemma_top_command_modes(args: Seq<Seq<char>>)
    ensures
        ({
            let help = given(args, "-h"@) || given(args, "--help"@);
            let version = given(args, "--version"@) || given(args, "-V"@);
            let check = given(args, "--check-update"@);
            let install = given(args, "--install-update"@);
            let cli = given(args, "--cli"@) || given(args, "--headless"@);
            let r = spec_top_command(args);
            &&& (r == TopCommand::Help) == help
            &&& (r == TopCommand::Version) == (!help && version)
            &&& (r == TopCommand::CheckUpdate) == (!help && !version && check)
            &&& (r == TopCommand::InstallUpdate) == (!help && !version && !check && install)
            &&& (r == TopCommand::Cli) == (!help && !version && !check && !install && cli)
            &&& (r == TopCommand::Gui) == (!help && !version && !check && !install && !cli)
        }),
{
    lemma_has_arg_given(args, "-h"@, "--help"@);
    lemma_has_arg_given(args, "--version"@, "-V"@);
    lemma_has_arg_given(args, "--check-update"@, "--check-update"@);
    lemma_has_arg_given(args, "--install-update"@, "--install-update"@);
    lemma_has_arg_given(args, "--cli"@, "--headless"@);
}

fn any_arg(args: &[String], a: &str, b: &str) -> (r: bool)
    ensures
        r == has_arg(strs(args@), a@, b@),
{
    let mut i: usize = 0;
    while i < args.len()
        invariant
            i <= args@.len(),
            forall|j: int| 0 <= j < i ==> !(strs(args@)[j] == a@ || strs(args@)[j] == b@),
        decreases args@.len() - i,
    {
        let c = chars_of(args[i].as_str());
        if eq_str(c.as_slice(), a) || eq_str(c.as_slice(), b) {
            assert(strs(args@)[i as int] == args@[i as int]@);
            return true;
        }
        i += 1;
    }
    false
}

/// Mode asked for by the arguments (program name excluded).
pub fn top_command(args: &[String]) -> (r: TopCommand)
    ensures
        r == spec_top_command(strs(args@)),
{
    if any_arg(args, "-h", "--help") {
        TopCommand::Help
    } else if any_arg(args, "--version", "-V") {
        TopCommand::Version
    } else if any_arg(args, "--check-update", "--check-update") {
        TopCommand::CheckUpdate
    } else if any_arg(args, "--install-update", "--install-update") {
        TopCommand::InstallUpdate
    } else if any_arg(args, "--cli", "--headless") {
        TopCommand::Cli
    } else {
        TopCommand::Gui
    }
}

/// A port argument read as Rust's `u16` parsing does (an optional `+`,
/// then digits), or its error message.
pub open spec fn spec_parse_u16(s: Seq<char>) -> Result<u16, Seq<char>> {
    if s.len() == 0 {
        Err("cannot parse integer from empty string"@)
    } else {
        match parse_unsigned(s) {
            Some(n) => if n <= u16::MAX {
                Ok(n as u16)
            } else {
                Err("number too large to fit in target type"@)
            },
            None => Err("invalid digit found in string"@),
        }
    }
}

fn well_formed_number(v: &[char]) -> (r: bool)
    ensures
        r == (parse_unsigned(v@) is Some),
{
    let start: usize = if v.len() > 0 && v[0] == '+' { 1 } else { 0 };
    let ghost body = if v@.len() > 0 && v@[0] == '+' { v@.drop_first() } else { v@ };
    assert(body =~= v@.skip(start as int));
    if start >= v.len() {
        return false;
    }
    let mut i: usize = start;
    while i < v.len()
        invariant
            start <= i <= v@.len(),
            body =~= v@.skip(start as int),
            body == (if v@.len() > 0 && v@[0] == '+' { v@.drop_first() } else { v@ }),
            forall|j: int| start <= j < i ==> '0' <= #[trigger] v@[j] && v@[j] <= '9',
        decreases v@.len() - i,
    {
        if !('0' <= v[i] && v[i] <= '9') {
            assert(body[i - start] == v@[i as int]);
            assert(!all_digits(body));
            return false;
        }
        i += 1;
    }
    assert forall|k: int| 0 <= k < body.len() implies '0' <= #[trigger] body[k] && body[k] <= '9' by {
        assert(body[k] == v@[k + start]);
    }
    true
}

/// A port number argument.
pub fn parse_port(s: &str) -> (r: Result<u16, String>)
    ensures
        match (r, spec_parse_u16(s@)) {
            (Ok(a), Ok(b)) => a == b,
            (Err(m), Err(n)) => m@ == n,
            _ => false,
        },
{
    let c = chars_of(s);
    if c.len() == 0 {
        return Err(string_of(chars_of("cannot parse integer from empty string").as_slice()));
    }
    match parse_unsigned_exec(c.as_slice(), 65535) {
        Some(n) => Ok(n as u16),
        None => if well_formed_number(c.as_slice()) {
            Err(string_of(chars_of("number too large to fit in target type").as_slice()))
        } else {
            Err(string_of(chars_of("invalid digit found in string").as_slice()))
        },
    }
}

/// Options of headless mode.
pub struct CliPlan {
    pub config: AppConfig,
    /// `--webui DIR`.
    pub webui_dir: Option<String>,
    /// `--port N` was given: only that port is tried.
    pub port_forced: bool,
    /// `--gen-token` came: generate and save a token, then exit.
    pub gen_token: bool,
    /// Arguments that were not understood (reported, then ignored).
    pub unknown: Vec<String>,
}

/// Mathematical model of [`CliPlan`].
pub struct CliPlanView {
    pub config: ConfigView,
    pub webui_dir: Option<Seq<char>>,
    pub port_forced: bool,
    pub gen_token: bool,
    pub unknown: Seq<Seq<char>>,
}

/// A string option by its characters.
pub open spec fn opt_str(o: Option<String>) -> Option<Seq<char>> {
    match o {
        Some(s) => Some(s@),
        None => None,
    }
}

impl View for CliPlan {
    type V = CliPlanView;

    open spec fn view(&self) -> CliPlanView {
        CliPlanView {
            config: self.config@,
            webui_dir: opt_str(self.webui_dir),
            port_forced: self.port_forced,
            gen_token: self.gen_token,
            unknown: strs(self.unknown@),
        }
    }
}

/// Plan before any option is read: the settings with the server enabled.
pub open spec fn cli_start(base: ConfigView) -> CliPlanView {
    CliPlanView {
        config: ConfigView { server_enabled: true, ..base },
        webui_dir: None,
        port_forced: false,
        gen_token: false,
        unknown: Seq::empty(),
    }
}

/// Headless options read from position `i` on, into the plan `p`:
/// `--cli`/`--headless` are skipped; `--port N` sets the port (a bad number is
/// the error of [`spec_parse_u16`]) and forces it; `--lan` opens LAN access;
/// `--token T` sets the token; `--webui DIR` the web UI folder; `--gen-token`
/// asks for a token and ends the reading; any other argument is kept as
/// unknown. An option whose value is missing ends the reading.
pub open spec fn cli_scan(args: Seq<Seq<char>>, i: int, p: CliPlanView) -> Result<CliPlanView, Seq<char>>
    decreases args.len() - i,
{
    if i < 0 || i >= args.len() {
        Ok(p)
    } else {
        let a = args[i];
        if a == "--cli"@ || a == "--headless"@ {
            cli_scan(args, i + 1, p)
        } else if a == "--port"@ {
            if i + 1 >= args.len() {
                Ok(p)
            } else {
                match spec_parse_u16(args[i + 1]) {
                    Ok(n) => cli_scan(
                        args,
                        i + 2,
                        CliPlanView { config: ConfigView { port: n, ..p.config }, port_forced: true, ..p },
                    ),
                    Err(m) => Err(m),
                }
            }
        } else if a == "--lan"@ {
            cli_scan(args, i + 1, CliPlanView { config: ConfigView { allow_lan: true, ..p.config }, ..p })
        } else if a == "--token"@ {
            if i + 1 >= args.len() {
                Ok(p)
            } else {
                cli_scan(args, i + 2, CliPlanView { config: ConfigView { token: args[i + 1], ..p.config }, ..p })
            }
        } else if a == "--webui"@ {
            if i + 1 >= args.len() {
                Ok(p)
            } else {
                cli_scan(args, i + 2, CliPlanView { webui_dir: Some(args[i + 1]), ..p })
            }
        } else if a == "--gen-token"@ {
            Ok(CliPlanView { gen_token: true, ..p })
        } else {
            cli_scan(args, i + 1, CliPlanView { unknown: p.unknown.push(a), ..p })
        }
    }
}

/// Reads the headless options into `base` (the server is enabled), as
/// [`cli_scan`] describes.
pub fn parse_cli_args(base: AppConfig, args: &[String]) -> (r: Result<CliPlan, String>)
    ensures
        match (r, cli_scan(strs(args@), 0, cli_start(base@))) {
            (Ok(p), Ok(q)) => p@ == q,
            (Err(m), Err(n)) => m@ == n,
            _ => false,
        },
{
    let ghost sargs = strs(args@);
    let ghost target = cli_scan(sargs, 0, cli_start(base@));
    let mut cfg = base;
    cfg.server_enabled = true;
    let mut webui: Option<String> = None;
    let mut forced = false;
    let mut unknown: Vec<String> = Vec::new();
    let mut i: usize = 0;
    proof {
        let st = CliPlanView {
            config: cfg@,
            webui_dir: opt_str(webui),
            port_forced: forced,
            gen_token: false,
            unknown: strs(unknown@),
        };
        assert(cfg@ == ConfigView { server_enabled: true, ..base@ });
        assert(strs(unknown@) =~= Seq::<Seq<char>>::empty());
        assert(st == cli_start(base@));
    }
    while i < args.len()
        invariant
            i <= args@.len(),
            sargs == strs(args@),
            target == cli_scan(sargs, 0, cli_start(base@)),
            target == cli_scan(
                sargs,
                i as int,
                CliPlanView {
                    config: cfg@,
                    webui_dir: opt_str(webui),
                    port_forced: forced,
                    gen_token: false,
                    unknown: strs(unknown@),
                },
            ),
        decreases args@.len() - i,
    {
        let a = chars_of(args[i].as_str());
        let v = a.as_slice();
        assert(sargs[i as int] == v@);
        if eq_str(v, "--cli") || eq_str(v, "--headless") {
        } else if eq_str(v, "--port") {
            if i + 1 >= args.len() {
                return Ok(CliPlan { config: cfg, webui_dir: webui, port_forced: forced, gen_token: false, unknown });
            }
            i += 1;
            assert(sargs[i as int] == args@[i as int]@);
            match parse_port(args[i].as_str()) {
                Ok(p) => {
                    cfg.port = p;
                    forced = true;
                },
                Err(e) => {
                    return Err(e);
                },
            }
        } else if eq_str(v, "--lan") {
            cfg.allow_lan = true;
        } else if eq_str(v, "--token") {
            if i + 1 >= args.len() {
                return Ok(CliPlan { config: cfg, webui_dir: webui, port_forced: forced, gen_token: false, unknown });
            }
            i += 1;
            assert(sargs[i as int] == args@[i as int]@);
            cfg.token = string_of(chars_of(args[i].as_str()).as_slice());
        } else if eq_str(v, "--webui") {
            if i + 1 >= args.len() {
                return Ok(CliPlan { config: cfg, webui_dir: webui, port_forced: forced, gen_token: false, unknown });
            }
            i += 1;
            assert(sargs[i as int] == args@[i as int]@);
            webui = Some(string_of(chars_of(args[i].as_str()).as_slice()));
        } else if eq_str(v, "--gen-token") {
            return Ok(CliPlan { config: cfg, webui_dir: webui, port_forced: forced, gen_token: true, unknown });
        } else {
            let ghost before = unknown@;
            unknown.push(string_of(v));
            assert(strs(unknown@) =~= strs(before).push(v@));
        }
        i += 1;
    }
    Ok(CliPlan { config: cfg, webui_dir: webui, port_forced: forced, gen_token: false, unknown })
}

/// Ports tried in order: the given one alone when forced, else the
/// configured one and then 8090 to 8100 (each once).
pub open spec fn spec_port_candidates(port: u16, forced: bool) -> Seq<u16> {
    if forced {
        seq![port]
    } else {
        seq![port] + Seq::new(11, |k: int| (8090 + k) as u16).filter(|p: u16| p != port)
    }
}

/// The ports from 8090 up to `to` (exclusive), ascending, without `port`.
pub open spec fn port_fallbacks(port: u16, to: int) -> Seq<u16>
    decreases to - 8090,
{
    if to <= 8090 {
        Seq::empty()
    } else if to - 1 == port {
        port_fallbacks(port, to - 1)
    } else {
        port_fallbacks(port, to - 1).push((to - 1) as u16)
    }
}

/// Ports to try when binding: the configured one, then (unless it was
/// forced) 8090 to 8100.
pub fn port_candidates(port: u16, forced: bool) -> (r: Vec<u16>)
    ensures
        r@ == (if forced { seq![port] } else { seq![port] + port_fallbacks(port, 8101) }),
        r@.len() >= 1,
        r@[0] == port,
        forced ==> r@.len() == 1,
        !forced ==> forall|p: u16| 8090 <= p <= 8100 ==> r@.contains(p),
        forall|i: int, j: int| 0 <= i < j < r@.len() ==> r@[i] != r@[j],
        forall|i: int| 0 <= i < r@.len() ==> r@[i] == port || 8090 <= r@[i] <= 8100,
{
    let mut v: Vec<u16> = Vec::new();
    v.push(port);
    if forced {
        assert(v@ =~= seq![port]);
        return v;
    }
    assert(v@ =~= seq![port] + port_fallbacks(port, 8090));
    let mut p: u16 = 8090;
    while p <= 8100
        invariant
            8090 <= p <= 8101,
            v@ == seq![port] + port_fallbacks(port, p as int),
            v@.len() >= 1,
            v@[0] == port,
            forall|q: u16| 8090 <= q < p ==> v@.contains(q),
            forall|i: int, j: int| 0 <= i < j < v@.len() ==> v@[i] != v@[j],
            forall|i: int| 0 <= i < v@.len() ==> v@[i] == port || 8090 <= v@[i] < p,
        decreases 8101 - p,
    {
        if p != port {
            let ghost before = v@;
            v.push(p);
            proof {
                assert forall|q: u16| 8090 <= q < p + 1 implies v@.contains(q) by {
                    if q == p {
                        assert(v@[v@.len() - 1] == q);
                    } else {
                        assert(before.contains(q));
                        let k = choose|k: int| 0 <= k < before.len() && before[k] == q;
                        assert(v@[k] == q);
                    }
                }
            }
            assert(v@ =~= seq![port] + port_fallbacks(port, p + 1));
        } else {
            assert(v@[0] == p);
            assert(v@ =~= seq![port] + port_fallbacks(port, p + 1));
        }
        p += 1;
    }
    v
}

/// Usage text of `--help`.
pub fn help_text(version: &str) -> (r: String)
    ensures
        r@ == "WebRust — remote desktop host v"@ + version@ + "\n\nDefault: settings window + system tray (Win/macOS/Linux)\nCLI:  WebRust --cli [--port N] [--lan] [--token T] [--webui DIR]\nOther:\n  WebRust --gen-token\n  WebRust --check-update\n  WebRust --version"@,
{
    let mut out = chars_of("WebRust — remote desktop host v");
    push_str_chars(&mut out, version);
    push_str_chars(
        &mut out,
        "\n\nDefault: settings window + system tray (Win/macOS/Linux)\nCLI:  WebRust --cli [--port N] [--lan] [--token T] [--webui DIR]\nOther:\n  WebRust --gen-token\n  WebRust --check-update\n  WebRust --version",
    );
    string_of(out.as_slice())
}

} // verus!
