//! Window raise / resize / close decisions: which process owns a window, the
//! AppleScript sent to System Events, and the X11 commands tried in order.
//! The host runs the commands and reports their exit status.

use vstd::prelude::*;

use crate::route::spec_is_display_route;
use crate::text::{chars_of, dec, dec_chars, push_chars, push_str_chars, string_of};

verus! {

/// Owner pid of a window: the one given, else the one found for its route,
/// else 0.
pub fn resolve_pid(given: i32, from_route: Option<i32>) -> (r: i32)
    ensures
        r == (if given > 0 {
            given
        } else {
            match from_route {
                Some(p) => p,
                None => 0,
            }
        }),
{
    if given > 0 {
        return given;
    }
    match from_route {
        Some(p) => p,
        None => 0,
    }
}

/// Decimal text of a signed number.
pub open spec fn dec_i(n: int) -> Seq<char> {
    if n < 0 {
        "-"@ + dec((-n) as nat)
    } else {
        dec(n as nat)
    }
}

fn push_dec_i32(out: &mut Vec<char>, n: i32)
    ensures
        final(out)@ == old(out)@ + dec_i(n as int),
{
    if n < 0 {
        out.push('-');
        let m: u64 = if n == i32::MIN {
            2147483648
        } else {
            (-n) as u64
        };
        push_chars(out, dec_chars(m).as_slice());
        proof {
            reveal_strlit("-");
            assert(m as int == -(n as int));
        }
        assert(out@ =~= old(out)@ + dec_i(n as int));
    } else {
        push_chars(out, dec_chars(n as u64).as_slice());
    }
}

/// A string for an AppleScript string literal: `\\` and `"` escaped.
pub open spec fn applescript_escaped(s: Seq<char>) -> Seq<char>
    decreases s.len(),
{
    if s.len() == 0 {
        Seq::empty()
    } else {
        let c = s.last();
        let e = if c == '\\' {
            seq!['\\', '\\']
        } else if c == '"' {
            seq!['\\', '"']
        } else {
            seq![c]
        };
        applescript_escaped(s.drop_last()) + e
    }
}

fn push_escaped(out: &mut Vec<char>, s: &str)
    ensures
        final(out)@ == old(out)@ + applescript_escaped(s@),
{
    let c = chars_of(s);
    let mut i: usize = 0;
    while i < c.len()
        invariant
            i <= c@.len(),
            c@ == s@,
            out@ == old(out)@ + applescript_escaped(c@.take(i as int)),
        decreases c@.len() - i,
    {
        let ch = c[i];
        proof {
            assert(c@.take(i as int + 1).drop_last() =~= c@.take(i as int));
            assert(c@.take(i as int + 1).last() == ch);
        }
        if ch == '\\' {
            out.push('\\');
            out.push('\\');
        } else if ch == '"' {
            out.push('\\');
            out.push('"');
        } else {
            out.push(ch);
        }
        assert(out@ =~= old(out)@ + applescript_escaped(c@.take(i as int + 1)));
        i += 1;
    }
    assert(c@.take(c@.len() as int) =~= c@);
}

/// AppleScript that brings the frontmost window of a process forward.
pub open spec fn raise_script(pid: i32) -> Seq<char> {
    "tell application \"System Events\" to set frontmost of first process whose unix id is "@
        + dec_i(pid as int) + " to true"@
}

/// The raise script for `pid`.
pub fn raise_script_exec(pid: i32) -> (r: String)
    ensures
        r@ == raise_script(pid),
{
    let mut out = chars_of("tell application \"System Events\" to set frontmost of first process whose unix id is ");
    push_dec_i32(&mut out, pid);
    push_str_chars(&mut out, " to true");
    string_of(out.as_slice())
}

/// AppleScript that resizes the window titled `title` (any window when the
/// title is empty) of process `pid` to `w`×`h` points.
pub open spec fn resize_script(pid: i32, title: Seq<char>, w: i32, h: i32) -> Seq<char> {
    let t = applescript_escaped(title);
    "tell application \"System Events\"\n  set procs to every process whose unix id is "@ + dec_i(
        pid as int,
    ) + "\n  if (count of procs) is 0 then return\n  tell first item of procs\n    try\n      repeat with win in (every window)\n        if name of win is \""@
        + t + "\" or \""@ + t + "\" is \"\" then\n          set size of win to {"@ + dec_i(w as int)
        + ", "@ + dec_i(h as int)
        + "}\n          exit repeat\n        end if\n      end repeat\n    end try\n  end tell\nend tell"@
}

/// The resize script.
pub fn resize_script_exec(pid: i32, title: &str, w: i32, h: i32) -> (r: String)
    ensures
        r@ == resize_script(pid, title@, w, h),
{
    let mut out = chars_of("tell application \"System Events\"\n  set procs to every process whose unix id is ");
    push_dec_i32(&mut out, pid);
    push_str_chars(
        &mut out,
        "\n  if (count of procs) is 0 then return\n  tell first item of procs\n    try\n      repeat with win in (every window)\n        if name of win is \"",
    );
    push_escaped(&mut out, title);
    push_str_chars(&mut out, "\" or \"");
    push_escaped(&mut out, title);
    push_str_chars(&mut out, "\" is \"\" then\n          set size of win to {");
    push_dec_i32(&mut out, w);
    push_str_chars(&mut out, ", ");
    push_dec_i32(&mut out, h);
    push_str_chars(
        &mut out,
        "}\n          exit repeat\n        end if\n      end repeat\n    end try\n  end tell\nend tell",
    );
    string_of(out.as_slice())
}

/// An external command and its arguments.
pub struct Command {
    pub program: String,
    pub args: Vec<String>,
}

pub open spec fn command_view(c: Command) -> (Seq<char>, Seq<Seq<char>>) {
    (c.program@, c.args@.map_values(|a: String| a@))
}

/// One way of raising an X11 window: run `first`; when it succeeds, run
/// `followup` too (its result does not matter) and stop.
pub struct RaiseAttempt {
    pub first: Command,
    pub followup: Option<Command>,
}

fn cmd(program: &str, args: Vec<String>) -> (c: Command)
    ensures
        c.program@ == program@,
        c.args@ == args@,
{
    Command { program: string_of(chars_of(program).as_slice()), args }
}

fn s(lit: &str) -> (r: String)
    ensures
        r@ == lit@,
{
    string_of(chars_of(lit).as_slice())
}

fn dec_string(n: i64) -> (r: String)
    ensures
        r@ == dec_i(n as int),
{
    let mut out: Vec<char> = Vec::new();
    if n < 0 {
        out.push('-');
        let m: u64 = if n == i64::MIN {
            9223372036854775808
        } else {
            (-n) as u64
        };
        push_chars(&mut out, dec_chars(m).as_slice());
        proof {
            reveal_strlit("-");
            assert(m as int == -(n as int));
        }
        assert(out@ =~= dec_i(n as int));
    } else {
        push_chars(&mut out, dec_chars(n as u64).as_slice());
        assert(out@ =~= dec_i(n as int));
    }
    string_of(out.as_slice())
}

/// Attempts to raise an X11 window, in order: by the exact window id
/// (`xdotool windowactivate --sync`, then `windowraise`; else `wmctrl -i -a`),
/// then by pid (`xdotool search --pid P windowactivate --sync`). When all
/// fail the raise still counts as done (input lands if the window is up).
pub fn linux_raise_attempts(wid: Option<u32>, pid: i32) -> (r: Vec<RaiseAttempt>)
    ensures
        r@.len() == (if wid is Some { 2int } else { 0int }) + (if pid > 0 { 1int } else { 0int }),
        wid matches Some(id) ==> {
            &&& command_view(r@[0].first) == ("xdotool"@, seq!["windowactivate"@, "--sync"@, dec(id as nat)])
            &&& (r@[0].followup matches Some(t) && command_view(t) == ("xdotool"@, seq!["windowraise"@, dec(id as nat)]))
            &&& command_view(r@[1].first) == ("wmctrl"@, seq!["-i"@, "-a"@, dec(id as nat)])
            &&& r@[1].followup is None
        },
        pid > 0 ==> command_view(r@[r@.len() - 1].first) == ("xdotool"@, seq![
            "search"@,
            "--pid"@,
            dec_i(pid as int),
            "windowactivate"@,
            "--sync"@,
        ]) && r@[r@.len() - 1].followup is None,
{
    let mut out: Vec<RaiseAttempt> = Vec::new();
    if let Some(id) = wid {
        let ids = dec_string(id as i64);
        let a1 = vec![s("windowactivate"), s("--sync"), dec_string(id as i64)];
        let a2 = vec![s("windowraise"), ids];
        let a3 = vec![s("-i"), s("-a"), dec_string(id as i64)];
        proof {
            assert(a1@.map_values(|a: String| a@) =~= seq!["windowactivate"@, "--sync"@, dec(id as nat)]);
            assert(a2@.map_values(|a: String| a@) =~= seq!["windowraise"@, dec(id as nat)]);
            assert(a3@.map_values(|a: String| a@) =~= seq!["-i"@, "-a"@, dec(id as nat)]);
        }
        out.push(RaiseAttempt { first: cmd("xdotool", a1), followup: Some(cmd("xdotool", a2)) });
        out.push(RaiseAttempt { first: cmd("wmctrl", a3), followup: None });
    }
    if pid > 0 {
        let a = vec![s("search"), s("--pid"), dec_string(pid as i64), s("windowactivate"), s("--sync")];
        proof {
            assert(a@.map_values(|x: String| x@) =~= seq![
                "search"@,
                "--pid"@,
                dec_i(pid as int),
                "windowactivate"@,
                "--sync"@,
            ]);
        }
        out.push(RaiseAttempt { first: cmd("xdotool", a), followup: None });
    }
    out
}

/// What closing a window comes to before any platform call: nothing for a
/// display route, not found without an owner process, else close.
#[derive(Debug, Clone, Copy, PartialEq, Eq, Structural)]
pub enum ClosePlan {
    NothingToDo,
    NotFound,
    Close { pid: i32 },
}

/// Plan for closing route `route` owned by `pid` (already resolved).
pub fn close_plan(route: i64, pid: i32) -> (r: ClosePlan)
    ensures
        r == (if spec_is_display_route(route) {
            ClosePlan::NothingToDo
        } else if pid <= 0 {
            ClosePlan::NotFound
        } else {
            ClosePlan::Close { pid }
        }),
{
    if crate::route::is_display_route(crate::protocol::RouteId(route)) {
        ClosePlan::NothingToDo
    } else if pid <= 0 {
        ClosePlan::NotFound
    } else {
        ClosePlan::Close { pid }
    }
}

/// Message of a failed raise through System Events.
pub fn raise_failed_message(pid: i32) -> (r: String)
    ensures
        r@ == "raise failed for pid "@ + dec_i(pid as int) + " (Accessibility permission?)"@,
{
    let mut out = chars_of("raise failed for pid ");
    push_dec_i32(&mut out, pid);
    push_str_chars(&mut out, " (Accessibility permission?)");
    string_of(out.as_slice())
}

/// Which window raising on Windows targets.
#[derive(Debug, Clone, Copy, PartialEq, Eq, Structural)]
pub enum WinTarget {
    /// The route's own window (its id is the window handle).
    Exact(u32),
    /// The first visible top-level window of the process.
    ByPid(u32),
    NotFound,
}

/// The route's window when its id is still a window (`wid_alive`), else the
/// first visible window of `pid`, else none.
pub fn win_raise_target(wid: Option<u32>, wid_alive: bool, pid: i32) -> (r: WinTarget)
    ensures
        r == (match wid {
            Some(w) if wid_alive => WinTarget::Exact(w),
            _ => if pid > 0 {
                WinTarget::ByPid(pid as u32)
            } else {
                WinTarget::NotFound
            },
        }),
{
    match wid {
        Some(w) if wid_alive => WinTarget::Exact(w),
        _ => if pid > 0 {
            WinTarget::ByPid(pid as u32)
        } else {
            WinTarget::NotFound
        },
    }
}

/// What follows a foreground request on Windows.
#[derive(Debug, Clone, Copy, PartialEq, Eq, Structural)]
pub enum WinRaiseNext {
    Done,
    /// Attach to the foreground window's thread, bring the window to the
    /// top and ask again (a background process is otherwise refused).
    AttachToForeground { fg_tid: u32 },
    /// Toggle topmost to lift the window above an occluder, ask once more,
    /// and count the raise as done.
    ToggleTopmost,
}

/// After the first foreground request (`ok`: granted), given the
/// foreground window's thread (0: none) and this thread.
pub fn win_after_foreground(ok: bool, fg_tid: u32, cur_tid: u32) -> (r: WinRaiseNext)
    ensures
        r == (if ok {
            WinRaiseNext::Done
        } else if fg_tid != 0 && fg_tid != cur_tid {
            WinRaiseNext::AttachToForeground { fg_tid }
        } else {
            WinRaiseNext::ToggleTopmost
        }),
{
    if ok {
        WinRaiseNext::Done
    } else if fg_tid != 0 && fg_tid != cur_tid {
        WinRaiseNext::AttachToForeground { fg_tid }
    } else {
        WinRaiseNext::ToggleTopmost
    }
}

/// After the request made while attached to the foreground thread.
pub fn win_after_attached(ok: bool) -> (r: WinRaiseNext)
    ensures
        r == (if ok { WinRaiseNext::Done } else { WinRaiseNext::ToggleTopmost }),
{
    if ok {
        WinRaiseNext::Done
    } else {
        WinRaiseNext::ToggleTopmost
    }
}

} // verus!
