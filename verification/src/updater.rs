//! Update rules: version comparison and choice of the release asset that fits
//! the host. Fetching, downloading and installing are done by the application.

use vstd::prelude::*;
use crate::text::{dec, string_of};

use crate::text::{
    all_digits, chars_of, contains, contains_str, digits_value, ends_with, ends_with_str,
    lower, lower_chars, slice_chars, trim, trim_chars, parse_unsigned, parse_unsigned_exec,
    is_ws, trim_end, trim_start,
};
use crate::tuning::HostOs;
use vstd::string::{StringExecFns, StringSliceAdditionalSpecFns};

verus! {

/// How a downloaded asset is installed.
#[derive(Debug, Clone, Copy, PartialEq, Eq, Structural)]
pub enum InstallKind {
    /// macOS installer package into /Applications.
    MacPkg,
    /// macOS zip of the app bundle (replaced in place when writable).
    MacAppZip,
    /// Windows setup executable.
    WinSetupExe,
    /// Windows portable zip.
    WinZip,
    /// Linux tarball next to the current install.
    LinuxTarGz,
    Unknown,
}

/// Result of an update check.
#[derive(Debug, Clone)]
pub struct UpdateInfo {
    pub current_version: String,
    pub latest_version: String,
    pub update_available: bool,
    /// Asset that fits the host (installer, zip or tarball).
    pub download_url: Option<String>,
    /// Release page.
    pub html_url: Option<String>,
    pub asset_name: Option<String>,
    pub notes: Option<String>,
    pub install_kind: InstallKind,
}

/// Progress of an update, for the settings window.
#[derive(Debug, Clone)]
pub struct UpdateProgress {
    /// idle | checking | downloading | installing | done | error
    pub phase: String,
    /// 0-100 when known.
    pub percent: u8,
    pub message: String,
    pub downloaded: u64,
    pub total: u64,
}

/// Outcome of starting an install.
#[derive(Debug, Clone)]
pub struct InstallOutcome {
    /// Message for the user.
    pub message: String,
    /// The process should exit so that files can be replaced.
    pub should_exit: bool,
    /// What will be relaunched afterwards, if anything.
    pub relaunch_hint: Option<String>,
}

impl UpdateProgress {
    /// Nothing in progress.
    pub fn idle() -> (p: UpdateProgress)
        ensures
            p.phase@ == "idle"@,
            p.percent == 0,
            p.message@ == Seq::<char>::empty(),
            p.downloaded == 0,
            p.total == 0,
    {
        UpdateProgress {
            phase: String::from_str("idle"),
            percent: 0,
            message: String::new(),
            downloaded: 0,
            total: 0,
        }
    }
}

pub open spec fn is_digit(c: char) -> bool {
    '0' <= c && c <= '9'
}

/// Leading `v` characters removed (`trim_start_matches('v')`).
pub open spec fn strip_vs(s: Seq<char>) -> Seq<char>
    decreases s.len(),
{
    if s.len() > 0 && s[0] == 'v' {
        strip_vs(s.drop_first())
    } else {
        s
    }
}

/// Position of the first non-digit, or `s.len()`.
pub open spec fn first_nondigit(s: Seq<char>) -> int
    decreases s.len(),
{
    if s.len() == 0 || !is_digit(s[0]) {
        0
    } else {
        1 + first_nondigit(s.drop_first())
    }
}

/// Maximal runs of ASCII digits, in order.
pub open spec fn digit_runs(s: Seq<char>) -> Seq<Seq<char>>
    decreases s.len(),
{
    let i = first_nondigit(s);
    if i < 0 || i >= s.len() {
        if s.len() > 0 {
            seq![s]
        } else {
            Seq::empty()
        }
    } else {
        (if i > 0 {
            seq![s.take(i)]
        } else {
            Seq::empty()
        }) + digit_runs(s.skip(i + 1))
    }
}

/// Values of the runs that fit a `u64` (the others are dropped).
pub open spec fn run_values(runs: Seq<Seq<char>>) -> Seq<u64>
    decreases runs.len(),
{
    if runs.len() == 0 {
        Seq::empty()
    } else {
        let rest = run_values(runs.drop_last());
        let v = digits_value(runs.last());
        if v <= u64::MAX {
            rest.push(v as u64)
        } else {
            rest
        }
    }
}

/// Numeric components of a version string such as `v0.1.2`.
pub open spec fn version_parts(s: Seq<char>) -> Seq<u64> {
    run_values(digit_runs(strip_vs(trim(s))))
}

/// Component `i`, or 0 past the end.
pub open spec fn part(a: Seq<u64>, i: int) -> u64 {
    if 0 <= i < a.len() {
        a[i]
    } else {
        0
    }
}

pub open spec fn max_len(a: Seq<u64>, b: Seq<u64>) -> int {
    if a.len() >= b.len() {
        a.len() as int
    } else {
        b.len() as int
    }
}

/// Lexicographic comparison from component `i` on, missing components
/// counting as 0: the first differing component decides.
pub open spec fn newer_from(a: Seq<u64>, b: Seq<u64>, i: int) -> bool
    decreases max_len(a, b) - i,
{
    if i < 0 || i >= max_len(a, b) {
        false
    } else if part(a, i) != part(b, i) {
        part(a, i) > part(b, i)
    } else {
        newer_from(a, b, i + 1)
    }
}

/// `remote` names a later version than `local`.
pub open spec fn spec_is_newer(remote: Seq<char>, local: Seq<char>) -> bool {
    newer_from(version_parts(remote), version_parts(local), 0)
}

fn first_nondigit_exec(v: &[char]) -> (r: usize)
    ensures
        r == first_nondigit(v@),
        r <= v@.len(),
{
    let mut i: usize = 0;
    assert(v@.skip(0) =~= v@);
    while i < v.len()
        invariant
            0 <= i <= v@.len(),
            first_nondigit(v@) == i + first_nondigit(v@.skip(i as int)),
        decreases v@.len() - i,
    {
        if !('0' <= v[i] && v[i] <= '9') {
            return i;
        }
        assert(v@.skip(i as int).drop_first() =~= v@.skip(i + 1));
        i = i + 1;
    }
    i
}

proof fn lemma_first_nondigit_bounds(s: Seq<char>)
    ensures
        0 <= first_nondigit(s) <= s.len(),
        forall|k: int| 0 <= k < first_nondigit(s) ==> is_digit(#[trigger] s[k]),
    decreases s.len(),
{
    if s.len() > 0 && is_digit(s[0]) {
        lemma_first_nondigit_bounds(s.drop_first());
        assert forall|k: int| 0 <= k < first_nondigit(s) implies is_digit(#[trigger] s[k]) by {
            if k > 0 {
                assert(s[k] == s.drop_first()[k - 1]);
            }
        }
    }
}

/// Runs of digits as values that fit `u64`.
fn version_numbers(s: &str) -> (r: Vec<u64>)
    ensures
        r@ == version_parts(s@),
{
    let raw = chars_of(s);
    let t = trim_chars(raw.as_slice());
    let mut a: usize = 0;
    assert(t@.skip(0) =~= t@);
    while a < t.len() && t[a] == 'v'
        invariant
            0 <= a <= t@.len(),
            strip_vs(t@) == strip_vs(t@.skip(a as int)),
        decreases t@.len() - a,
    {
        assert(t@.skip(a as int).drop_first() =~= t@.skip(a + 1));
        a = a + 1;
    }
    let mut rest = slice_chars(t.as_slice(), a, t.len());
    assert(rest@ =~= t@.skip(a as int));
    let ghost all = strip_vs(t@);
    let ghost done: Seq<Seq<char>> = Seq::empty();
    let mut out: Vec<u64> = Vec::new();
    loop
        invariant
            done + digit_runs(rest@) == digit_runs(all),
            all == strip_vs(trim(s@)),
            out@ == run_values(done),
            forall|k: int| 0 <= k < done.len() ==> all_digits(#[trigger] done[k]) && done[k].len() > 0,
        decreases rest@.len(),
    {
        let i = first_nondigit_exec(rest.as_slice());
        proof {
            lemma_first_nondigit_bounds(rest@);
        }
        let ghost r0 = rest@;
        let piece_end = i;
        if i > 0 {
            let piece = slice_chars(rest.as_slice(), 0, i);
            proof {
                assert(all_digits(piece@)) by {
                    assert forall|k: int| 0 <= k < piece@.len() implies '0' <= #[trigger] piece@[k] && piece@[k] <= '9' by {
                        assert(piece@[k] == r0[k]);
                    }
                }
                assert(piece@[0] != '+');
                assert(parse_unsigned(piece@) == Some(digits_value(piece@)));
            }
            let ghost before = done;
            match parse_unsigned_exec(piece.as_slice(), u64::MAX) {
                Some(n) => {
                    out.push(n);
                },
                None => {},
            }
            proof {
                done = done.push(piece@);
                assert(done.drop_last() =~= before);
            }
        }
        if i >= rest.len() {
            proof {
                if r0.len() > 0 {
                    assert(r0.take(i as int) =~= r0);
                    assert(digit_runs(r0) == seq![r0]);
                    assert(done =~= done.drop_last() + seq![r0]);
                } else {
                    assert(digit_runs(r0) =~= Seq::<Seq<char>>::empty());
                    assert(done + Seq::<Seq<char>>::empty() =~= done);
                }
                assert(done == digit_runs(all));
            }
            return out;
        }
        let next = slice_chars(rest.as_slice(), i + 1, rest.len());
        proof {
            assert(next@ =~= r0.skip(i + 1));
            if i > 0 {
                assert(done =~= done.drop_last().push(r0.take(i as int)));
                assert(done.drop_last() + digit_runs(r0) =~= done.drop_last() + (seq![r0.take(i as int)]
                    + digit_runs(r0.skip(i + 1))));
                assert(done + digit_runs(next@) =~= done.drop_last() + digit_runs(r0));
            } else {
                assert(digit_runs(r0) == Seq::<Seq<char>>::empty() + digit_runs(r0.skip(1)));
                assert(Seq::<Seq<char>>::empty() + digit_runs(r0.skip(1)) =~= digit_runs(r0.skip(1)));
            }
        }
        let _ = piece_end;
        rest = next;
    }
}

/// Compares dotted version strings (`0.1.0` vs `0.1.2`; a leading `v` is
/// ignored): true when `remote` is later than `local`.
pub fn is_newer(remote: &str, local: &str) -> (r: bool)
    ensures
        r == spec_is_newer(remote@, local@),
{
    let a = version_numbers(remote);
    let b = version_numbers(local);
    let n = if a.len() >= b.len() { a.len() } else { b.len() };
    let mut i: usize = 0;
    while i < n
        invariant
            0 <= i <= n,
            n == max_len(a@, b@),
            spec_is_newer(remote@, local@) == newer_from(a@, b@, i as int),
        decreases n - i,
    {
        let av = if i < a.len() { a[i] } else { 0 };
        let bv = if i < b.len() { b[i] } else { 0 };
        if av != bv {
            return av > bv;
        }
        i = i + 1;
    }
    false
}

proof fn lemma_newer_from_asym(a: Seq<u64>, b: Seq<u64>, i: int)
    ensures
        newer_from(a, b, i) ==> !newer_from(b, a, i),
        !newer_from(a, a, i),
    decreases max_len(a, b) - i,
{
    if i >= 0 && i < max_len(a, b) && part(a, i) == part(b, i) {
        lemma_newer_from_asym(a, b, i + 1);
    }
    if i >= 0 && i < max_len(a, a) {
        lemma_newer_from_irrefl(a, i);
    }
}

proof fn lemma_newer_from_irrefl(a: Seq<u64>, i: int)
    ensures
        !newer_from(a, a, i),
    decreases max_len(a, a) - i,
{
    if i >= 0 && i < max_len(a, a) {
        lemma_newer_from_irrefl(a, i + 1);
    }
}

proof fn lemma_newer_from_trans(a: Seq<u64>, b: Seq<u64>, c: Seq<u64>, i: int)
    requires
        i >= 0,
        newer_from(a, b, i),
        newer_from(b, c, i),
    ensures
        newer_from(a, c, i),
    decreases max_len(a, b) - i,
{
    if part(a, i) == part(b, i) && part(b, i) == part(c, i) {
        lemma_newer_from_trans(a, b, c, i + 1);
        if i >= max_len(a, c) {
            assert(!newer_from(a, c, i + 1));
        }
    }
}

/// No version is newer than itself.
pub proof fn lemma_is_newer_irreflexive(v: Seq<char>)
    ensures
        !spec_is_newer(v, v),
{
    lemma_newer_from_irrefl(version_parts(v), 0);
}

/// Of two versions, at most one is newer than the other.
pub proof fn lemma_is_newer_asymmetric(a: Seq<char>, b: Seq<char>)
    ensures
        spec_is_newer(a, b) ==> !spec_is_newer(b, a),
{
    lemma_newer_from_asym(version_parts(a), version_parts(b), 0);
}


/// Being newer is transitive: a version newer than a second one, which is
/// newer than a third, is newer than the third.
pub proof fn lemma_is_newer_transitive(a: Seq<char>, b: Seq<char>, c: Seq<char>)
    requires
        spec_is_newer(a, b),
        spec_is_newer(b, c),
    ensures
        spec_is_newer(a, c),
{
    lemma_newer_from_trans(version_parts(a), version_parts(b), version_parts(c), 0);
}


proof fn lemma_newer_from_left(x: Seq<u64>, y: Seq<u64>, b: Seq<u64>, i: int)
    requires
        forall|k: int| #[trigger] part(x, k) == part(y, k),
    ensures
        newer_from(x, b, i) == newer_from(y, b, i),
    decreases (if max_len(x, b) >= max_len(y, b) { max_len(x, b) } else { max_len(y, b) }) - i,
{
    assert(part(x, i) == part(y, i));
    if i >= 0 && (i < max_len(x, b) || i < max_len(y, b)) {
        lemma_newer_from_left(x, y, b, i + 1);
        if i >= max_len(x, b) {
            assert(!newer_from(x, b, i + 1));
        }
        if i >= max_len(y, b) {
            assert(!newer_from(y, b, i + 1));
        }
    }
}

proof fn lemma_newer_from_right(a: Seq<u64>, x: Seq<u64>, y: Seq<u64>, i: int)
    requires
        forall|k: int| #[trigger] part(x, k) == part(y, k),
    ensures
        newer_from(a, x, i) == newer_from(a, y, i),
    decreases (if max_len(a, x) >= max_len(a, y) { max_len(a, x) } else { max_len(a, y) }) - i,
{
    assert(part(x, i) == part(y, i));
    if i >= 0 && (i < max_len(a, x) || i < max_len(a, y)) {
        lemma_newer_from_right(a, x, y, i + 1);
        if i >= max_len(a, x) {
            assert(!newer_from(a, x, i + 1));
        }
        if i >= max_len(a, y) {
            assert(!newer_from(a, y, i + 1));
        }
    }
}

/// Missing trailing components count as 0: two versions whose components
/// agree once padded with zeros (such as `1.0` and `1.0.0`) compare alike
/// against every version, on either side.
pub proof fn lemma_is_newer_zero_padding(a: Seq<char>, c: Seq<char>, b: Seq<char>)
    requires
        forall|k: int| #[trigger] part(version_parts(a), k) == part(version_parts(c), k),
    ensures
        spec_is_newer(a, b) == spec_is_newer(c, b),
        spec_is_newer(b, a) == spec_is_newer(b, c),
        !spec_is_newer(a, c),
        !spec_is_newer(c, a),
{
    lemma_newer_from_left(version_parts(a), version_parts(c), version_parts(b), 0);
    lemma_newer_from_right(version_parts(b), version_parts(a), version_parts(c), 0);
    lemma_newer_from_left(version_parts(a), version_parts(c), version_parts(c), 0);
    lemma_newer_from_irrefl(version_parts(c), 0);
    lemma_newer_from_right(version_parts(c), version_parts(a), version_parts(c), 0);
}

proof fn lemma_trim_end_prefix(c: char, x: Seq<char>)
    requires
        !is_ws(c),
    ensures
        trim_end(seq![c] + x) == seq![c] + trim_end(x),
    decreases x.len(),
{
    let s = seq![c] + x;
    if x.len() > 0 && is_ws(x.last()) {
        assert(s.last() == x.last());
        assert(s.drop_last() =~= seq![c] + x.drop_last());
        lemma_trim_end_prefix(c, x.drop_last());
    } else if x.len() == 0 {
        assert(s.last() == c);
        assert(x =~= Seq::<char>::empty());
    } else {
        assert(s.last() == x.last());
    }
}

/// A leading `v` is ignored: `v1.2.3` compares as `1.2.3` does, against
/// every version and on either side (for a version that does not start
/// with whitespace).
pub proof fn lemma_is_newer_ignores_v(x: Seq<char>, y: Seq<char>)
    requires
        x.len() == 0 || !is_ws(x[0]),
    ensures
        spec_is_newer(seq!['v'] + x, y) == spec_is_newer(x, y),
        spec_is_newer(y, seq!['v'] + x) == spec_is_newer(y, x),
{
    let vx = seq!['v'] + x;
    assert(vx[0] == 'v');
    assert(trim_start(vx) == vx);
    assert(trim_start(x) == x);
    lemma_trim_end_prefix('v', x);
    let t = trim_end(x);
    assert((seq!['v'] + t)[0] == 'v');
    assert((seq!['v'] + t).drop_first() =~= t);
    assert(strip_vs(trim(vx)) == strip_vs(trim(x)));
    assert(version_parts(vx) == version_parts(x));
}

} // verus!

verus! {

/// Score (higher is better; 0 means unusable) and install kind of a release
/// asset named `name` for a host running `os`.
pub open spec fn asset_class(os: HostOs, name: Seq<char>) -> (i32, InstallKind) {
    let n = lower(name);
    match os {
        HostOs::Windows => if ends_with(n, ".exe"@) && (contains(n, "setup"@) || contains(
            n,
            "install"@,
        )) {
            (100, InstallKind::WinSetupExe)
        } else if ends_with(n, ".msi"@) {
            (90, InstallKind::WinSetupExe)
        } else if contains(n, "windows"@) && ends_with(n, ".zip"@) {
            (80, InstallKind::WinZip)
        } else if ends_with(n, ".exe"@) {
            (70, InstallKind::WinSetupExe)
        } else {
            (0, InstallKind::Unknown)
        },
        HostOs::MacOs => if contains(n, "macos"@) || contains(n, "darwin"@) || contains(
            n,
            "apple"@,
        ) {
            if ends_with(n, ".pkg"@) {
                (100, InstallKind::MacPkg)
            } else if ends_with(n, ".zip"@) {
                (80, InstallKind::MacAppZip)
            } else if ends_with(n, ".dmg"@) {
                (60, InstallKind::Unknown)
            } else {
                (40, InstallKind::Unknown)
            }
        } else {
            (0, InstallKind::Unknown)
        },
        HostOs::Linux => if contains(n, "linux"@) {
            if ends_with(n, ".tar.gz"@) || ends_with(n, ".tgz"@) {
                (100, InstallKind::LinuxTarGz)
            } else if ends_with(n, ".appimage"@) {
                (90, InstallKind::Unknown)
            } else if ends_with(n, ".deb"@) {
                (80, InstallKind::Unknown)
            } else {
                (50, InstallKind::Unknown)
            }
        } else {
            (0, InstallKind::Unknown)
        },
        HostOs::Other => (0, InstallKind::Unknown),
    }
}

/// Classifies a release asset for the host (macOS prefers the `.pkg`).
pub fn classify_asset(os: HostOs, name: &str) -> (r: (i32, InstallKind))
    ensures
        r == asset_class(os, name@),
{
    let raw = chars_of(name);
    let n = lower_chars(raw.as_slice());
    let s = n.as_slice();
    match os {
        HostOs::Windows => {
            if ends_with_str(s, ".exe") && (contains_str(s, "setup") || contains_str(s, "install")) {
                (100, InstallKind::WinSetupExe)
            } else if ends_with_str(s, ".msi") {
                (90, InstallKind::WinSetupExe)
            } else if contains_str(s, "windows") && ends_with_str(s, ".zip") {
                (80, InstallKind::WinZip)
            } else if ends_with_str(s, ".exe") {
                (70, InstallKind::WinSetupExe)
            } else {
                (0, InstallKind::Unknown)
            }
        },
        HostOs::MacOs => {
            if contains_str(s, "macos") || contains_str(s, "darwin") || contains_str(s, "apple") {
                if ends_with_str(s, ".pkg") {
                    (100, InstallKind::MacPkg)
                } else if ends_with_str(s, ".zip") {
                    (80, InstallKind::MacAppZip)
                } else if ends_with_str(s, ".dmg") {
                    (60, InstallKind::Unknown)
                } else {
                    (40, InstallKind::Unknown)
                }
            } else {
                (0, InstallKind::Unknown)
            }
        },
        HostOs::Linux => {
            if contains_str(s, "linux") {
                if ends_with_str(s, ".tar.gz") || ends_with_str(s, ".tgz") {
                    (100, InstallKind::LinuxTarGz)
                } else if ends_with_str(s, ".appimage") {
                    (90, InstallKind::Unknown)
                } else if ends_with_str(s, ".deb") {
                    (80, InstallKind::Unknown)
                } else {
                    (50, InstallKind::Unknown)
                }
            } else {
                (0, InstallKind::Unknown)
            }
        },
        HostOs::Other => (0, InstallKind::Unknown),
    }
}

/// Index of the best asset among the first `n`: the first one with the highest
/// positive score.
pub open spec fn best_asset(os: HostOs, names: Seq<Seq<char>>, n: int) -> Option<int>
    decreases n,
{
    if n <= 0 {
        None
    } else {
        let b = best_asset(os, names, n - 1);
        let s = asset_class(os, names[n - 1]).0;
        if s <= 0 {
            b
        } else {
            match b {
                None => Some(n - 1),
                Some(j) => if s > asset_class(os, names[j]).0 {
                    Some(n - 1)
                } else {
                    b
                },
            }
        }
    }
}

proof fn lemma_ends_exclusive(n: Seq<char>, a: Seq<char>, b: Seq<char>)
    requires
        a.len() <= b.len(),
        b.subrange(b.len() - a.len(), b.len() as int) != a,
    ensures
        !(ends_with(n, a) && ends_with(n, b)),
{
    if ends_with(n, a) && ends_with(n, b) {
        let t = n.subrange(n.len() - b.len(), n.len() as int);
        assert(t.subrange(b.len() - a.len(), b.len() as int) =~= n.subrange(n.len() - a.len(), n.len() as int));
    }
}

/// Linux release assets: a Linux tarball (`.tar.gz` or `.tgz`, any case) is
/// the preferred asset and the only installable one; an AppImage, then a
/// Debian package, then any other Linux file follow; a file that does not
/// name Linux is unusable.
pub proof fn lemma_linux_assets(name: Seq<char>)
    ensures
        ({
            let n = lower(name);
            let linux = contains(n, "linux"@);
            let tar = ends_with(n, ".tar.gz"@) || ends_with(n, ".tgz"@);
            let r = asset_class(HostOs::Linux, name);
            &&& linux && tar ==> r == (100i32, InstallKind::LinuxTarGz)
            &&& (r.1 == InstallKind::LinuxTarGz) == (linux && tar)
            &&& (r.0 == 100) == (linux && tar)
            &&& (r.0 > 0) == linux
            &&& 0 <= r.0 <= 100
            &&& linux && !tar && ends_with(n, ".appimage"@) ==> r == (90i32, InstallKind::Unknown)
            &&& linux && !tar && ends_with(n, ".deb"@) ==> r == (80i32, InstallKind::Unknown)
            &&& !tar ==> r.1 == InstallKind::Unknown
        }),
{
    reveal_strlit(".deb");
    reveal_strlit(".appimage");
    let a = ".appimage"@;
    assert(a.subrange(5, 9)[0] != ".deb"@[0]);
    lemma_ends_exclusive(lower(name), ".deb"@, a);
}

/// Windows release assets: a setup or install executable is preferred, then
/// an MSI package, then a Windows zip (the only portable kind), then any
/// other executable; other files are unusable.
pub proof fn lemma_windows_assets(name: Seq<char>)
    ensures
        ({
            let n = lower(name);
            let exe = ends_with(n, ".exe"@);
            let setup = contains(n, "setup"@) || contains(n, "install"@);
            let msi = ends_with(n, ".msi"@);
            let zip = contains(n, "windows"@) && ends_with(n, ".zip"@);
            let r = asset_class(HostOs::Windows, name);
            &&& exe && setup ==> r == (100i32, InstallKind::WinSetupExe)
            &&& msi ==> r == (90i32, InstallKind::WinSetupExe)
            &&& zip ==> r == (80i32, InstallKind::WinZip)
            &&& exe && !setup ==> r == (70i32, InstallKind::WinSetupExe)
            &&& (r.0 > 0) == (exe || msi || zip)
            &&& !(exe || msi || zip) ==> r == (0i32, InstallKind::Unknown)
        }),
{
    reveal_strlit(".exe");
    reveal_strlit(".msi");
    reveal_strlit(".zip");
    let n = lower(name);
    assert(".msi"@[1] != ".exe"@[1]);
    assert(".zip"@[1] != ".exe"@[1]);
    assert(".zip"@[1] != ".msi"@[1]);
    assert(".msi"@.subrange(0, 4) =~= ".msi"@);
    assert(".zip"@.subrange(0, 4) =~= ".zip"@);
    lemma_ends_exclusive(n, ".exe"@, ".msi"@);
    lemma_ends_exclusive(n, ".exe"@, ".zip"@);
    lemma_ends_exclusive(n, ".msi"@, ".zip"@);
}

/// macOS release assets: only files that name macOS (`macos`, `darwin` or
/// `apple`) are usable; the installer package is preferred, then the zipped
/// app (both installable), then a disk image, then any other such file.
pub proof fn lemma_macos_assets(name: Seq<char>)
    ensures
        ({
            let n = lower(name);
            let mac = contains(n, "macos"@) || contains(n, "darwin"@) || contains(n, "apple"@);
            let r = asset_class(HostOs::MacOs, name);
            &&& mac && ends_with(n, ".pkg"@) ==> r == (100i32, InstallKind::MacPkg)
            &&& mac && ends_with(n, ".zip"@) ==> r == (80i32, InstallKind::MacAppZip)
            &&& mac && ends_with(n, ".dmg"@) ==> r == (60i32, InstallKind::Unknown)
            &&& (r.0 > 0) == mac
            &&& (r.1 == InstallKind::MacPkg) == (mac && ends_with(n, ".pkg"@))
            &&& (r.1 == InstallKind::MacAppZip) == (mac && ends_with(n, ".zip"@))
        }),
{
    reveal_strlit(".pkg");
    reveal_strlit(".zip");
    reveal_strlit(".dmg");
    let n = lower(name);
    assert(".pkg"@[1] != ".zip"@[1]);
    assert(".pkg"@[1] != ".dmg"@[1]);
    assert(".zip"@[1] != ".dmg"@[1]);
    assert(".zip"@.subrange(0, 4) =~= ".zip"@);
    assert(".dmg"@.subrange(0, 4) =~= ".dmg"@);
    lemma_ends_exclusive(n, ".pkg"@, ".zip"@);
    lemma_ends_exclusive(n, ".pkg"@, ".dmg"@);
    lemma_ends_exclusive(n, ".zip"@, ".dmg"@);
}

/// A host without a release of its own can use no asset.
pub proof fn lemma_other_os_assets(name: Seq<char>)
    ensures
        asset_class(HostOs::Other, name) == (0i32, InstallKind::Unknown),
{
}

/// The best asset among the first `n` has a positive score, none scores
/// higher, and every asset before it scores lower; there is none exactly
/// when no asset scores above 0.
pub proof fn lemma_best_asset(os: HostOs, names: Seq<Seq<char>>, n: int)
    requires
        0 <= n <= names.len(),
    ensures
        best_asset(os, names, n) is None <==> (forall|i: int| 0 <= i < n ==> asset_class(os, #[trigger] names[i]).0 <= 0),
        best_asset(os, names, n) matches Some(j) ==> {
            &&& 0 <= j < n
            &&& asset_class(os, names[j]).0 > 0
            &&& forall|i: int| 0 <= i < n ==> asset_class(os, #[trigger] names[i]).0 <= asset_class(os, names[j]).0
            &&& forall|i: int| 0 <= i < j ==> asset_class(os, #[trigger] names[i]).0 < asset_class(os, names[j]).0
        },
    decreases n,
{
    if n > 0 {
        lemma_best_asset(os, names, n - 1);
    }
}

/// On Linux, whenever a Linux tarball is among the assets, the asset picked
/// is a Linux tarball (the first one).
pub proof fn lemma_linux_picks_tarball(names: Seq<Seq<char>>, k: int)
    requires
        0 <= k < names.len(),
        contains(lower(names[k]), "linux"@),
        ends_with(lower(names[k]), ".tar.gz"@) || ends_with(lower(names[k]), ".tgz"@),
    ensures
        best_asset(HostOs::Linux, names, names.len() as int) matches Some(j) && asset_class(
            HostOs::Linux,
            names[j],
        ) == (100i32, InstallKind::LinuxTarGz) && j <= k,
{
    lemma_best_asset(HostOs::Linux, names, names.len() as int);
    lemma_linux_assets(names[k]);
    let b = best_asset(HostOs::Linux, names, names.len() as int);
    assert(asset_class(HostOs::Linux, names[k]).0 > 0);
    let j = b->0;
    lemma_linux_assets(names[j]);
    assert(asset_class(HostOs::Linux, names[k]).0 <= asset_class(HostOs::Linux, names[j]).0);
}

/// Picks the asset that fits the host best: its index and install kind.
pub fn select_asset(os: HostOs, names: &[String]) -> (r: Option<(usize, InstallKind)>)
    ensures
        match r {
            Some((i, k)) => best_asset(os, crate::config::strs(names@), names@.len() as int)
                == Some(i as int) && k == asset_class(os, names@[i as int]@).1,
            None => best_asset(os, crate::config::strs(names@), names@.len() as int) is None,
        },
        r matches Some((i, _)) ==> i < names@.len(),
{
    let ghost ns = crate::config::strs(names@);
    let mut best: Option<(usize, i32, InstallKind)> = None;
    let mut i: usize = 0;
    while i < names.len()
        invariant
            0 <= i <= names@.len(),
            ns == crate::config::strs(names@),
            match best {
                Some((j, s, k)) => best_asset(os, ns, i as int) == Some(j as int) && j < i && (s, k)
                    == asset_class(os, ns[j as int]),
                None => best_asset(os, ns, i as int) is None,
            },
        decreases names@.len() - i,
    {
        let (score, kind) = classify_asset(os, names[i].as_str());
        assert(ns[i as int] == names@[i as int]@);
        if score > 0 {
            match best {
                None => {
                    best = Some((i, score, kind));
                },
                Some((_, s, _)) => {
                    if score > s {
                        best = Some((i, score, kind));
                    }
                },
            }
        }
        i = i + 1;
    }
    match best {
        Some((j, _, k)) => Some((j, k)),
        None => None,
    }
}

/// Release notes as shown: at most 800 bytes, with `…` appended when cut.
pub open spec fn notes_text(b: &str) -> Seq<char> {
    if b.spec_bytes().len() > 800 {
        vstd::utf8::decode_utf8(b.spec_bytes().take(800)) + "…"@
    } else {
        b@
    }
}

/// Shortens release notes to 800 bytes (the cut must fall on a character
/// boundary, as slicing a `str` demands).
pub fn release_notes(b: &str) -> (r: String)
    requires
        b.spec_bytes().len() > 800 ==> vstd::utf8::is_char_boundary(b.spec_bytes(), 800),
    ensures
        r@ == notes_text(b),
{
    if b.as_bytes().len() > 800 {
        let (head, _) = b.split_at(800);
        proof {
            vstd::utf8::encode_utf8_decode_utf8(head@);
            assert(b.spec_bytes().take(800) =~= head.spec_bytes());
        }
        let mut r = String::from_str(head);
        assert(r@ == head@);
        r.append("…");
        assert(r@ == head@ + "…"@);
        assert(head@ == vstd::utf8::decode_utf8(b.spec_bytes().take(800)));
        r
    } else {
        let r = String::from_str(b);
        assert(r@ == b@);
        r
    }
}

} // verus!

verus! {

/// A copy of `s` (`String::clone` keeps the characters).
fn copy_string(s: &String) -> (r: String)
    ensures
        r@ == s@,
{
    s.clone()
}

/// Version named by a release tag: trimmed, leading `v`s removed.
pub open spec fn tag_version(tag: Seq<char>) -> Seq<char> {
    strip_vs(trim(tag))
}

/// Update information from the latest release: the version in its tag, whether
/// it is newer than `current` (pre-releases never are), the asset that fits the
/// host and the shortened notes. A draft release is refused.
pub fn update_info_from_release(
    os: HostOs,
    current: &str,
    tag_name: &str,
    html_url: Option<String>,
    body: Option<&str>,
    draft: bool,
    prerelease: bool,
    asset_names: &[String],
    asset_urls: &[String],
) -> (r: Result<UpdateInfo, String>)
    requires
        asset_names@.len() == asset_urls@.len(),
        body matches Some(b) ==> (b.spec_bytes().len() > 800 ==> vstd::utf8::is_char_boundary(
            b.spec_bytes(),
            800,
        )),
    ensures
        draft ==> (r matches Err(e) && e@ == "latest release is a draft"@),
        !draft ==> r is Ok,
        r matches Ok(info) ==> {
            &&& info.current_version@ == current@
            &&& info.latest_version@ == tag_version(tag_name@)
            &&& info.update_available == (spec_is_newer(tag_version(tag_name@), current@)
                && !prerelease)
            &&& info.html_url == html_url
            &&& match body {
                Some(b) => (info.notes matches Some(n) && n@ == notes_text(b)),
                None => info.notes is None,
            }
            &&& match best_asset(os, crate::config::strs(asset_names@), asset_names@.len() as int) {
                Some(i) => {
                    &&& (info.download_url matches Some(u) && u@ == asset_urls@[i]@)
                    &&& (info.asset_name matches Some(a) && a@ == asset_names@[i]@)
                    &&& info.install_kind == asset_class(os, asset_names@[i]@).1
                },
                None => info.download_url is None && info.asset_name is None && info.install_kind
                    == InstallKind::Unknown,
            }
        },
{
    if draft {
        return Err(String::from_str("latest release is a draft"));
    }
    let raw = chars_of(tag_name);
    let t = trim_chars(raw.as_slice());
    let mut a: usize = 0;
    assert(t@.skip(0) =~= t@);
    while a < t.len() && t[a] == 'v'
        invariant
            0 <= a <= t@.len(),
            strip_vs(t@) == strip_vs(t@.skip(a as int)),
        decreases t@.len() - a,
    {
        assert(t@.skip(a as int).drop_first() =~= t@.skip(a + 1));
        a = a + 1;
    }
    let lv = slice_chars(t.as_slice(), a, t.len());
    assert(lv@ =~= t@.skip(a as int));
    let latest = crate::text::string_of(lv.as_slice());
    let newer = is_newer(latest.as_str(), current);
    proof {
        assert(latest@ == tag_version(tag_name@));
    }
    let (install_kind, download_url, asset_name) = match select_asset(os, asset_names) {
        Some((i, kind)) => (
            kind,
            Some(copy_string(&asset_urls[i])),
            Some(copy_string(&asset_names[i])),
        ),
        None => (InstallKind::Unknown, None, None),
    };
    let notes = match body {
        Some(b) => Some(release_notes(b)),
        None => None,
    };
    Ok(
        UpdateInfo {
            current_version: String::from_str(current),
            latest_version: latest,
            update_available: newer && !prerelease,
            download_url,
            html_url,
            asset_name,
            notes,
            install_kind,
        },
    )
}

/// Why an update cannot be applied: nothing newer, or no asset for the host.
pub fn check_installable(info: &UpdateInfo) -> (r: Result<(), String>)
    ensures
        r is Ok <==> (info.update_available && info.download_url is Some),
        !info.update_available ==> (r matches Err(e) && e@ == "no update available"@),
        info.update_available && info.download_url is None ==> (r matches Err(e) && e@
            == "no platform asset on latest release"@),
{
    if !info.update_available {
        return Err(String::from_str("no update available"));
    }
    if info.download_url.is_none() {
        return Err(String::from_str("no platform asset on latest release"));
    }
    Ok(())
}

/// Largest update download accepted (a wrong asset or a hostile server).
pub const MAX_DOWNLOAD_BYTES: u64 = 200 * 1024 * 1024;

/// Only HTTPS download URLs are followed.
pub fn is_https_url(url: &str) -> (r: bool)
    ensures
        r == crate::text::starts_with(url@, "https://"@),
{
    let u = chars_of(url);
    crate::text::starts_with_str(u.as_slice(), "https://")
}


/// Last path segment of an asset name (trailing `/` ignored); the default
/// name when it is empty, `.` or `..` (no path traversal).
pub open spec fn safe_file_name(name: Seq<char>) -> Seq<char> {
    let t = trim_trailing_slashes(name);
    let seg = t.skip(last_slash(t) + 1);
    if seg.len() == 0 || seg == "."@ || seg == ".."@ {
        "webrust-update.bin"@
    } else {
        seg
    }
}

/// `s` without trailing `/`.
pub open spec fn trim_trailing_slashes(s: Seq<char>) -> Seq<char>
    decreases s.len(),
{
    if s.len() > 0 && s.last() == '/' {
        trim_trailing_slashes(s.drop_last())
    } else {
        s
    }
}

/// Index of the last `/`, or -1.
pub open spec fn last_slash(s: Seq<char>) -> int
    decreases s.len(),
{
    if s.len() == 0 {
        -1
    } else if s.last() == '/' {
        s.len() - 1
    } else {
        last_slash(s.drop_last())
    }
}

proof fn lemma_last_slash_bounds(s: Seq<char>)
    ensures
        -1 <= last_slash(s) < s.len(),
    decreases s.len(),
{
    if s.len() > 0 && s.last() != '/' {
        lemma_last_slash_bounds(s.drop_last());
    }
}

/// Where an update download goes: its HTTPS URL and a safe file name.
pub fn download_target(info: &UpdateInfo) -> (r: Result<(String, String), String>)
    ensures
        info.download_url is None ==> (r matches Err(e) && e@ == "no download URL for this platform"@),
        info.download_url matches Some(u) ==> (!crate::text::starts_with(u@, "https://"@) ==> (r matches Err(e) && e@
            == "refusing non-HTTPS download URL"@)),
        info.download_url matches Some(u) ==> (crate::text::starts_with(u@, "https://"@) ==> (r matches Ok((url, name)) && url@ == u@
            && name@ == safe_file_name(match info.asset_name {
            Some(a) => a@,
            None => "webrust-update.bin"@,
        }))),
{
    let url = match &info.download_url {
        Some(u) => u,
        None => return Err(String::from_str("no download URL for this platform")),
    };
    if !is_https_url(url.as_str()) {
        return Err(String::from_str("refusing non-HTTPS download URL"));
    }
    let name: Vec<char> = match &info.asset_name {
        Some(a) => chars_of(a.as_str()),
        None => chars_of("webrust-update.bin"),
    };
    let mut end: usize = name.len();
    assert(name@.take(name@.len() as int) =~= name@);
    while end > 0 && name[end - 1] == '/'
        invariant
            end <= name@.len(),
            trim_trailing_slashes(name@) == trim_trailing_slashes(name@.take(end as int)),
        decreases end,
    {
        assert(name@.take(end as int).drop_last() =~= name@.take(end as int - 1));
        end -= 1;
    }
    proof {
        assert(name@.take(name@.len() as int) =~= name@);
    }
    let t = crate::text::slice_chars(name.as_slice(), 0, end);
    assert(t@ == trim_trailing_slashes(name@)) by {
        assert(t@ =~= name@.take(end as int));
    }
    let mut k: usize = t.len();
    assert(t@.take(t@.len() as int) =~= t@);
    while k > 0 && t[k - 1] != '/'
        invariant
            k <= t@.len(),
            last_slash(t@) == last_slash(t@.take(k as int)),
        decreases k,
    {
        assert(t@.take(k as int).drop_last() =~= t@.take(k as int - 1));
        k -= 1;
    }
    proof {
        lemma_last_slash_bounds(t@);
        if k == 0 {
            assert(t@.take(0) =~= Seq::<char>::empty());
        }
    }
    let seg = crate::text::slice_chars(t.as_slice(), k, t.len());
    assert(seg@ =~= t@.skip(last_slash(t@) + 1));
    let bad = seg.len() == 0 || crate::text::eq_str(seg.as_slice(), ".") || crate::text::eq_str(seg.as_slice(), "..");
    let file = if bad {
        String::from_str("webrust-update.bin")
    } else {
        string_of(seg.as_slice())
    };
    Ok((string_of(chars_of(url.as_str()).as_slice()), file))
}

/// A declared download size within the limit, else the refusal message.
pub fn check_download_size(total: u64) -> (r: Result<(), String>)
    ensures
        total <= MAX_DOWNLOAD_BYTES ==> r is Ok,
        total > MAX_DOWNLOAD_BYTES ==> (r matches Err(e) && e@ == "download too large ("@ + dec(
            total as nat,
        ) + " bytes > 209715200)"@),
{
    if total <= MAX_DOWNLOAD_BYTES {
        return Ok(());
    }
    let mut out = chars_of("download too large (");
    crate::text::push_chars(&mut out, crate::text::dec_chars(total).as_slice());
    crate::text::push_str_chars(&mut out, " bytes > 209715200)");
    Err(string_of(out.as_slice()))
}

/// Bytes received after a chunk of `n` more (saturating); over the limit the
/// download is abandoned.
pub fn add_download_chunk(downloaded: u64, n: u64) -> (r: Result<u64, String>)
    ensures
        ({
            let d = if downloaded + n > u64::MAX { u64::MAX as int } else { downloaded + n };
            &&& d <= MAX_DOWNLOAD_BYTES ==> r == Ok::<u64, String>(d as u64)
            &&& d > MAX_DOWNLOAD_BYTES ==> (r matches Err(e) && e@ == "download exceeded size limit"@)
        }),
{
    let d = downloaded.saturating_add(n);
    if d > MAX_DOWNLOAD_BYTES {
        return Err(String::from_str("download exceeded size limit"));
    }
    Ok(d)
}

/// Whether this host can install a package of `kind` (macOS packages and
/// app zips on macOS, setup and zip on Windows, tarballs on Linux).
pub open spec fn spec_install_supported(os: HostOs, kind: InstallKind) -> bool {
    match os {
        HostOs::MacOs => kind == InstallKind::MacPkg || kind == InstallKind::MacAppZip,
        HostOs::Windows => kind == InstallKind::WinSetupExe || kind == InstallKind::WinZip,
        HostOs::Linux => kind == InstallKind::LinuxTarGz,
        HostOs::Other => false,
    }
}

/// Whether this host can install a package of `kind`.
pub fn install_supported(os: HostOs, kind: InstallKind) -> (r: bool)
    ensures
        r == spec_install_supported(os, kind),
{
    match os {
        HostOs::MacOs => kind == InstallKind::MacPkg || kind == InstallKind::MacAppZip,
        HostOs::Windows => kind == InstallKind::WinSetupExe || kind == InstallKind::WinZip,
        HostOs::Linux => kind == InstallKind::LinuxTarGz,
        HostOs::Other => false,
    }
}

/// Progress message before the download starts.
pub fn download_start_message(asset_name: Option<&str>) -> (r: String)
    ensures
        r@ == "Downloading "@ + (match asset_name {
            Some(a) => a@,
            None => "update"@,
        }) + "…"@,
{
    let mut out = chars_of("Downloading ");
    match asset_name {
        Some(a) => crate::text::push_str_chars(&mut out, a),
        None => crate::text::push_str_chars(&mut out, "update"),
    }
    crate::text::push_str_chars(&mut out, "…");
    string_of(out.as_slice())
}

} // verus!
