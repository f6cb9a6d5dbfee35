//! Which applications a browser may launch, how they are launched, and the
//! names read from Linux desktop entries. The host resolves paths on disk
//! (canonical forms, home and program directories) and hands them in.

use vstd::prelude::*;

use crate::config::strs;
use crate::text::{
    chars_of, contains, contains_str, ends_with, ends_with_str, index_of, index_of_exec, lower,
    lower_chars, push_chars, push_str_chars, slice_chars, starts_with, starts_with_str, string_of,
    trim, trim_chars,
};
use crate::tuning::HostOs;

verus! {

/// Characters that a launch path must not hold (shell metacharacters, NUL,
/// line breaks).
pub open spec fn is_forbidden_char(c: char) -> bool {
    c == '\0' || c == '|' || c == '&' || c == ';' || c == '`' || c == '$' || c == '\n' || c == '\r'
}

/// A launch path is non-empty and free of forbidden characters.
pub open spec fn launch_chars_ok(p: Seq<char>) -> bool {
    p.len() > 0 && forall|i: int| 0 <= i < p.len() ==> !is_forbidden_char(#[trigger] p[i])
}

fn launch_chars_ok_exec(p: &[char]) -> (r: bool)
    ensures
        r == launch_chars_ok(p@),
{
    if p.len() == 0 {
        return false;
    }
    let mut i: usize = 0;
    while i < p.len()
        invariant
            i <= p@.len(),
            forall|j: int| 0 <= j < i ==> !is_forbidden_char(#[trigger] p@[j]),
        decreases p@.len() - i,
    {
        let c = p[i];
        if c == '\0' || c == '|' || c == '&' || c == ';' || c == '`' || c == '$' || c == '\n' || c
            == '\r' {
            return false;
        }
        i += 1;
    }
    true
}

/// `p` lies in directory `d` (both canonical): equal, or `d` followed by a
/// separator is a prefix of `p` (component-wise prefix of canonical paths).
pub open spec fn path_under(p: Seq<char>, d: Seq<char>, sep: char) -> bool {
    d.len() > 0 && (p == d || starts_with(p, d.push(sep)) || (d.last() == sep && starts_with(p, d)))
}

fn path_under_exec(p: &[char], d: &[char], sep: char) -> (r: bool)
    ensures
        r == path_under(p@, d@, sep),
{
    if d.len() == 0 {
        return false;
    }
    if crate::text::chars_eq(p, d) {
        return true;
    }
    let mut dd: Vec<char> = Vec::new();
    push_chars(&mut dd, d);
    dd.push(sep);
    assert(dd@ =~= d@.push(sep));
    if starts_with_chars(p, dd.as_slice()) {
        return true;
    }
    d[d.len() - 1] == sep && starts_with_chars(p, d)
}

fn starts_with_chars(v: &[char], p: &[char]) -> (r: bool)
    ensures
        r == starts_with(v@, p@),
{
    if p.len() > v.len() {
        return false;
    }
    let head = slice_chars(v, 0, p.len());
    crate::text::chars_eq(head.as_slice(), p)
}

/// Under one of the directories.
pub open spec fn under_any(p: Seq<char>, dirs: Seq<Seq<char>>, sep: char) -> bool {
    exists|i: int| 0 <= i < dirs.len() && path_under(p, #[trigger] dirs[i], sep)
}

fn under_any_exec(p: &[char], dirs: &[String], sep: char) -> (r: bool)
    ensures
        r == under_any(p@, strs(dirs@), sep),
{
    let mut i: usize = 0;
    while i < dirs.len()
        invariant
            i <= dirs@.len(),
            forall|j: int| 0 <= j < i ==> !path_under(p@, #[trigger] strs(dirs@)[j], sep),
        decreases dirs@.len() - i,
    {
        let d = chars_of(dirs[i].as_str());
        if path_under_exec(p, d.as_slice(), sep) {
            assert(strs(dirs@)[i as int] == d@);
            return true;
        }
        i += 1;
    }
    false
}

/// The path (canonical when it exists) is an application the host may
/// launch: on macOS an `.app` bundle (or a path inside one) under the
/// application directories; on Windows a program under the program
/// directories, or an `.exe`/`.lnk` under Program Files or Programs; on
/// Linux a desktop entry of the system or user application directories, or
/// a binary under the usual prefixes.
pub open spec fn spec_under_search_dirs(os: HostOs, s: Seq<char>, dirs: Seq<Seq<char>>) -> bool {
    match os {
        HostOs::MacOs => (ends_with(s, ".app"@) || contains(s, ".app/"@)) && under_any(s, dirs, '/'),
        HostOs::Windows => under_any(s, dirs, '\\') || ({
            let l = lower(s);
            (ends_with(l, ".exe"@) || ends_with(l, ".lnk"@)) && (contains(l, "\\program files"@)
                || contains(l, "\\program files (x86)"@) || contains(l, "\\programs\\"@))
        }),
        HostOs::Linux => if ends_with(s, ".desktop"@) {
            starts_with(s, "/usr/share/applications"@) || starts_with(
                s,
                "/usr/local/share/applications"@,
            ) || contains(s, "/.local/share/applications/"@)
        } else {
            starts_with(s, "/usr/bin/"@) || starts_with(s, "/usr/local/bin/"@) || starts_with(
                s,
                "/opt/"@,
            ) || starts_with(s, "/snap/bin/"@)
        },
        HostOs::Other => false,
    }
}

/// Whether a path lies under the launchable application directories
/// (`dirs`: the platform's application directories, canonical).
pub fn is_under_search_dirs(os: HostOs, path: &str, dirs: &[String]) -> (r: bool)
    ensures
        r == spec_under_search_dirs(os, path@, strs(dirs@)),
{
    let c = chars_of(path);
    let s = c.as_slice();
    match os {
        HostOs::MacOs => (ends_with_str(s, ".app") || contains_str(s, ".app/")) && under_any_exec(
            s,
            dirs,
            '/',
        ),
        HostOs::Windows => {
            if under_any_exec(s, dirs, '\\') {
                return true;
            }
            let l = lower_chars(s);
            let v = l.as_slice();
            (ends_with_str(v, ".exe") || ends_with_str(v, ".lnk")) && (contains_str(
                v,
                "\\program files",
            ) || contains_str(v, "\\program files (x86)") || contains_str(v, "\\programs\\"))
        },
        HostOs::Linux => {
            if ends_with_str(s, ".desktop") {
                starts_with_str(s, "/usr/share/applications") || starts_with_str(
                    s,
                    "/usr/local/share/applications",
                ) || contains_str(s, "/.local/share/applications/")
            } else {
                starts_with_str(s, "/usr/bin/") || starts_with_str(s, "/usr/local/bin/")
                    || starts_with_str(s, "/opt/") || starts_with_str(s, "/snap/bin/")
            }
        },
        HostOs::Other => false,
    }
}

/// Some component of the path is `..`.
pub open spec fn has_parent_component(p: Seq<char>) -> bool {
    exists|i: int| #[trigger] dotdot_at(p, i)
}

/// A `..` component starts at `i`.
pub open spec fn dotdot_at(p: Seq<char>, i: int) -> bool {
    0 <= i && i + 2 <= p.len() && p[i] == '.' && p[i + 1] == '.' && (i == 0 || p[i - 1] == '/'
        || p[i - 1] == '\\') && (i + 2 == p.len() || p[i + 2] == '/' || p[i + 2] == '\\')
}

fn has_parent_component_exec(p: &[char]) -> (r: bool)
    ensures
        r == has_parent_component(p@),
{
    let mut i: usize = 0;
    while p.len() >= 2 && i <= p.len() - 2
        invariant
            forall|k: int| 0 <= k < i ==> !#[trigger] dotdot_at(p@, k),
        decreases p@.len() - i,
    {
        let hit = p[i] == '.' && p[i + 1] == '.' && (i == 0 || p[i - 1] == '/' || p[i - 1] == '\\')
            && (i + 2 == p.len() || p[i + 2] == '/' || p[i + 2] == '\\');
        if hit {
            assert(dotdot_at(p@, i as int));
            return true;
        }
        i += 1;
    }
    assert forall|k: int| !#[trigger] dotdot_at(p@, k) by {
        if 0 <= k && k + 2 <= p@.len() {
            assert(k < i);
        }
    }
    false
}

/// A browser may launch `path` (`canonical`: its canonical form, when the
/// path exists): no forbidden characters; then the canonical path, without
/// `..` components, or else the path as given, must lie under the
/// application directories.
pub open spec fn spec_allowed_launch(
    os: HostOs,
    path: Seq<char>,
    canonical: Option<Seq<char>>,
    dirs: Seq<Seq<char>>,
) -> bool {
    launch_chars_ok(path) && match canonical {
        Some(c) => !has_parent_component(c) && spec_under_search_dirs(os, c, dirs),
        None => spec_under_search_dirs(os, path, dirs),
    }
}

/// Whether a browser may launch `path`.
pub fn is_allowed_launch_path(os: HostOs, path: &str, canonical: Option<&str>, dirs: &[String]) -> (r:
    bool)
    ensures
        r == spec_allowed_launch(
            os,
            path@,
            match canonical {
                Some(c) => Some(c@),
                None => None,
            },
            strs(dirs@),
        ),
{
    if !launch_chars_ok_exec(chars_of(path).as_slice()) {
        return false;
    }
    match canonical {
        Some(c) => !has_parent_component_exec(chars_of(c).as_slice()) && is_under_search_dirs(
            os,
            c,
            dirs,
        ),
        None => is_under_search_dirs(os, path, dirs),
    }
}

/// How an allowed application is started.
#[derive(Debug)]
pub enum LaunchCommand {
    /// macOS `open [-n] PATH`.
    Open { new_instance: bool, path: String },
    /// Linux `gtk-launch NAME` for a desktop entry.
    GtkLaunch { name: String },
    /// Run the program directly.
    Spawn { path: String },
    Unsupported,
}

/// File name of a path without its last extension.
pub open spec fn file_stem(p: Seq<char>) -> Seq<char> {
    let name = last_component(p);
    let k = last_dot(name);
    if k > 0 {
        name.take(k)
    } else {
        name
    }
}

/// Text after the last `/`.
pub open spec fn last_component(p: Seq<char>) -> Seq<char>
    decreases p.len(),
{
    if p.len() == 0 {
        p
    } else if p.last() == '/' {
        Seq::empty()
    } else {
        last_component(p.drop_last()).push(p.last())
    }
}

/// Index of the last `.`, or 0 when there is none.
pub open spec fn last_dot(s: Seq<char>) -> int
    decreases s.len(),
{
    if s.len() == 0 {
        0
    } else if s.last() == '.' {
        s.len() - 1
    } else {
        last_dot(s.drop_last())
    }
}

fn last_component_exec(p: &[char]) -> (r: Vec<char>)
    ensures
        r@ == last_component(p@),
{
    let mut start: usize = p.len();
    assert(p@.take(p@.len() as int) =~= p@);
    assert(last_component(p@) + p@.skip(p@.len() as int) =~= last_component(p@));
    while start > 0 && p[start - 1] != '/'
        invariant
            start <= p@.len(),
            last_component(p@) == last_component(p@.take(start as int)) + p@.skip(start as int),
        decreases start,
    {
        let ghost t = p@.take(start as int);
        assert(t.drop_last() =~= p@.take(start as int - 1));
        assert(p@.skip(start as int - 1) =~= seq![t.last()] + p@.skip(start as int));
        assert(last_component(t) == last_component(t.drop_last()).push(t.last()));
        assert(last_component(t.drop_last()).push(t.last()) + p@.skip(start as int) =~= last_component(t.drop_last()) + p@.skip(start as int - 1));
        start -= 1;
    }
    proof {
        let t = p@.take(start as int);
        if start > 0 {
            assert(t.last() == '/');
        }
        assert(last_component(t) =~= Seq::<char>::empty());
        assert(Seq::<char>::empty() + p@.skip(start as int) =~= p@.skip(start as int));
    }
    slice_chars(p, start, p.len())
}

fn last_dot_exec(s: &[char]) -> (r: usize)
    ensures
        r == last_dot(s@),
        r == 0 || r < s@.len(),
{
    let mut k: usize = s.len();
    assert(s@.take(s@.len() as int) =~= s@);
    while k > 0 && s[k - 1] != '.'
        invariant
            k <= s@.len(),
            last_dot(s@) == last_dot(s@.take(k as int)),
        decreases k,
    {
        assert(s@.take(k as int).drop_last() =~= s@.take(k as int - 1));
        k -= 1;
    }
    if k == 0 {
        assert(s@.take(0) =~= Seq::<char>::empty());
        0
    } else {
        k - 1
    }
}

/// File stem of a path.
pub fn file_stem_exec(p: &str) -> (r: String)
    ensures
        r@ == file_stem(p@),
{
    let name = last_component_exec(chars_of(p).as_slice());
    let k = last_dot_exec(name.as_slice());
    if k > 0 {
        string_of(slice_chars(name.as_slice(), 0, k).as_slice())
    } else {
        string_of(name.as_slice())
    }
}

/// Command that starts an allowed application: `open` on macOS (with `-n`
/// for a new instance), `gtk-launch` for a Linux desktop entry with a plain
/// name, else the program itself.
pub open spec fn spec_launch_command(os: HostOs, path: Seq<char>, new_instance: bool) -> (int, Seq<char>) {
    match os {
        HostOs::MacOs => (if new_instance { 1int } else { 0int }, path),
        HostOs::Windows => (3int, path),
        HostOs::Linux => if ends_with(path, ".desktop"@) && file_stem(path).len() > 0 && !contains(
            file_stem(path),
            "/"@,
        ) {
            (2int, file_stem(path))
        } else {
            (3int, path)
        },
        HostOs::Other => (4int, Seq::empty()),
    }
}

pub open spec fn command_code(c: LaunchCommand) -> (int, Seq<char>) {
    match c {
        LaunchCommand::Open { new_instance, path } => (if new_instance { 1int } else { 0int }, path@),
        LaunchCommand::GtkLaunch { name } => (2int, name@),
        LaunchCommand::Spawn { path } => (3int, path@),
        LaunchCommand::Unsupported => (4int, Seq::empty()),
    }
}

/// How to start the allowed application at `path`.
pub fn launch_command(os: HostOs, path: &str, new_instance: bool) -> (r: LaunchCommand)
    ensures
        command_code(r) == spec_launch_command(os, path@, new_instance),
{
    let copy = string_of(chars_of(path).as_slice());
    match os {
        HostOs::MacOs => LaunchCommand::Open { new_instance, path: copy },
        HostOs::Windows => LaunchCommand::Spawn { path: copy },
        HostOs::Linux => {
            if ends_with_str(chars_of(path).as_slice(), ".desktop") {
                let stem = file_stem_exec(path);
                let sc = chars_of(stem.as_str());
                if sc.len() > 0 && !contains_str(sc.as_slice(), "/") {
                    return LaunchCommand::GtkLaunch { name: stem };
                }
            }
            LaunchCommand::Spawn { path: copy }
        },
        HostOs::Other => LaunchCommand::Unsupported,
    }
}

/// Message of a refused launch.
pub fn launch_refused_message() -> (r: String)
    ensures
        r@ == "launch path not allowed (must be under Applications / known app dirs)"@,
{
    string_of(chars_of("launch path not allowed (must be under Applications / known app dirs)").as_slice())
}

/// Lines of a text (split at `\n`, a trailing `\r` removed), as `str::lines`.
pub open spec fn text_lines(t: Seq<char>) -> Seq<Seq<char>>
    decreases t.len(),
{
    if t.len() == 0 {
        Seq::empty()
    } else {
        let k = index_of(t, '\n');
        proof {
            crate::text::lemma_index_of_bounds(t, '\n');
        }
        let line = t.take(k);
        let l = if line.len() > 0 && line.last() == '\r' { line.drop_last() } else { line };
        if k >= t.len() {
            seq![l]
        } else {
            seq![l] + text_lines(t.skip(k + 1))
        }
    }
}

/// Value of the first `Name=` line of a desktop entry, trimmed.
pub open spec fn desktop_name(lines: Seq<Seq<char>>) -> Option<Seq<char>>
    decreases lines.len(),
{
    if lines.len() == 0 {
        None
    } else if starts_with(lines[0], "Name="@) {
        Some(trim(lines[0].skip(5)))
    } else {
        desktop_name(lines.drop_first())
    }
}

/// Display name of a Linux desktop entry (its first `Name=` line).
pub fn parse_desktop_name(text: &str) -> (r: Option<String>)
    ensures
        match r {
            Some(s) => desktop_name(text_lines(text@)) == Some(s@),
            None => desktop_name(text_lines(text@)) is None,
        },
{
    let all = chars_of(text);
    let mut rest: Vec<char> = all;
    while rest.len() > 0
        invariant
            desktop_name(text_lines(text@)) == desktop_name(text_lines(rest@)),
        decreases rest@.len(),
    {
        let k = index_of_exec(rest.as_slice(), '\n');
        proof {
            crate::text::lemma_index_of_bounds(rest@, '\n');
        }
        let line = slice_chars(rest.as_slice(), 0, k);
        let l = if line.len() > 0 && line[line.len() - 1] == '\r' {
            slice_chars(line.as_slice(), 0, line.len() - 1)
        } else {
            line
        };
        proof {
            let ll = rest@.take(k as int);
            assert(line@ =~= ll);
            if ll.len() > 0 && ll.last() == '\r' {
                assert(l@ =~= ll.drop_last());
            }
        }
        if starts_with_str(l.as_slice(), "Name=") {
            proof {
                reveal_strlit("Name=");
            }
            let v = slice_chars(l.as_slice(), 5, l.len());
            assert(v@ =~= l@.skip(5));
            let t = trim_chars(v.as_slice());
            return Some(string_of(t.as_slice()));
        }
        if k >= rest.len() {
            assert(text_lines(rest@) =~= seq![l@]);
            assert(desktop_name(seq![l@]) == desktop_name(seq![l@].drop_first()));
            assert(seq![l@].drop_first() =~= Seq::<Seq<char>>::empty());
            return None;
        }
        let next = slice_chars(rest.as_slice(), k + 1, rest.len());
        proof {
            assert(next@ =~= rest@.skip(k + 1));
            let ls = text_lines(rest@);
            assert(ls == seq![l@] + text_lines(next@));
            assert(ls.drop_first() =~= text_lines(next@));
        }
        rest = next;
    }
    proof {
        assert(text_lines(rest@) =~= Seq::<Seq<char>>::empty());
    }
    None
}

} // verus!
