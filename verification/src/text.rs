//! Character-sequence helpers shared by the parsers of this crate.
//!
//! Strings are handled as sequences of `char`; the spec functions here say
//! what trimming, case folding, splitting and number formatting mean, and the
//! executable helpers are proved against them.

use vstd::prelude::*;

verus! {

/// Appends one character to a `String` (`String::push`).
#[verifier::external_body]
pub(crate) fn push_char(s: &mut String, c: char)
    ensures
        final(s)@ == old(s)@.push(c),
{
    s.push(c);
}

/// Unicode `White_Space`, the set that `char::is_whitespace` and `str::trim` use.
pub open spec fn is_ws(c: char) -> bool {
    let u = c as u32;
    (0x09 <= u && u <= 0x0D) || u == 0x20 || u == 0x85 || u == 0xA0 || u == 0x1680 || (0x2000
        <= u && u <= 0x200A) || u == 0x2028 || u == 0x2029 || u == 0x202F || u == 0x205F || u
        == 0x3000
}

/// `char::to_ascii_lowercase`.
pub open spec fn lower_char(c: char) -> char {
    if 'A' <= c && c <= 'Z' {
        ((c as u32) + 32) as char
    } else {
        c
    }
}

/// `char::to_ascii_uppercase`.
pub open spec fn upper_char(c: char) -> char {
    if 'a' <= c && c <= 'z' {
        ((c as u32) - 32) as char
    } else {
        c
    }
}

/// `str::to_ascii_lowercase`.
pub open spec fn lower(s: Seq<char>) -> Seq<char> {
    s.map_values(|c: char| lower_char(c))
}

/// Leading whitespace removed.
pub open spec fn trim_start(s: Seq<char>) -> Seq<char>
    decreases s.len(),
{
    if s.len() > 0 && is_ws(s[0]) {
        trim_start(s.drop_first())
    } else {
        s
    }
}

/// Trailing whitespace removed.
pub open spec fn trim_end(s: Seq<char>) -> Seq<char>
    decreases s.len(),
{
    if s.len() > 0 && is_ws(s.last()) {
        trim_end(s.drop_last())
    } else {
        s
    }
}

/// `str::trim`.
pub open spec fn trim(s: Seq<char>) -> Seq<char> {
    trim_end(trim_start(s))
}

/// `str::starts_with`.
pub open spec fn starts_with(s: Seq<char>, p: Seq<char>) -> bool {
    p.len() <= s.len() && s.subrange(0, p.len() as int) == p
}

/// `str::ends_with`.
pub open spec fn ends_with(s: Seq<char>, p: Seq<char>) -> bool {
    p.len() <= s.len() && s.subrange(s.len() - p.len(), s.len() as int) == p
}

/// `p` occurs in `s` at position `i`.
pub open spec fn occurs_at(s: Seq<char>, p: Seq<char>, i: int) -> bool {
    0 <= i && i + p.len() <= s.len() && s.subrange(i, i + p.len()) == p
}

/// `str::contains`.
pub open spec fn contains(s: Seq<char>, p: Seq<char>) -> bool {
    exists|i: int| occurs_at(s, p, i)
}

/// Position of the first occurrence of `p` in `s` at or after `i`, or `s.len()`.
pub open spec fn find_from(s: Seq<char>, p: Seq<char>, i: int) -> int
    decreases s.len() + 1 - i,
{
    if i < 0 || i + p.len() > s.len() {
        s.len() as int
    } else if occurs_at(s, p, i) {
        i
    } else {
        find_from(s, p, i + 1)
    }
}

/// Position of the first occurrence of `p` in `s`, or `s.len()` (`str::find`).
pub open spec fn find(s: Seq<char>, p: Seq<char>) -> int {
    find_from(s, p, 0)
}

/// Position of the first `c` in `s`, or `s.len()` when there is none.
pub open spec fn index_of(s: Seq<char>, c: char) -> int
    decreases s.len(),
{
    if s.len() == 0 {
        0
    } else if s[0] == c {
        0
    } else {
        1 + index_of(s.drop_first(), c)
    }
}

/// Position of the first character of `s` that is in `seps`, or `s.len()`.
pub open spec fn index_of_any(s: Seq<char>, seps: Seq<char>) -> int
    decreases s.len(),
{
    if s.len() == 0 {
        0
    } else if seps.contains(s[0]) {
        0
    } else {
        1 + index_of_any(s.drop_first(), seps)
    }
}

/// `str::split` on any of the characters in `seps` (empty pieces kept).
pub open spec fn split_any(s: Seq<char>, seps: Seq<char>) -> Seq<Seq<char>>
    decreases s.len(),
{
    let i = index_of_any(s, seps);
    if i >= s.len() || i < 0 {
        seq![s]
    } else {
        seq![s.take(i)] + split_any(s.skip(i + 1), seps)
    }
}

/// Decimal digits of `n`, most significant first, without leading zeros.
pub open spec fn dec(n: nat) -> Seq<char>
    decreases n,
{
    if n < 10 {
        seq![digit_char(n)]
    } else {
        dec(n / 10).push(digit_char(n % 10))
    }
}

/// The decimal digit character for `d < 10`.
pub open spec fn digit_char(d: nat) -> char {
    (('0' as u32) + d) as char
}

/// Upper-case hexadecimal digit character for `d < 16`.
pub open spec fn hex_upper(d: nat) -> char {
    if d < 10 {
        (('0' as u32) + d) as char
    } else {
        (('A' as u32) + d - 10) as char
    }
}

/// `{:02X}` of a byte.
pub open spec fn hex2(b: u8) -> Seq<char> {
    seq![hex_upper((b / 16) as nat), hex_upper((b % 16) as nat)]
}

/// Value of a digit character.
pub open spec fn digit_value(c: char) -> nat {
    ((c as u32) - ('0' as u32)) as nat
}

/// All characters are ASCII digits.
pub open spec fn all_digits(s: Seq<char>) -> bool {
    forall|i: int| 0 <= i < s.len() ==> '0' <= #[trigger] s[i] && s[i] <= '9'
}

/// Value of a string of digits.
pub open spec fn digits_value(s: Seq<char>) -> nat
    decreases s.len(),
{
    if s.len() == 0 {
        0
    } else {
        digits_value(s.drop_last()) * 10 + digit_value(s.last())
    }
}

/// What `str::parse::<uN>` gives, as a number, before the range check: an
/// optional `+` followed by at least one digit.
pub open spec fn parse_unsigned(s: Seq<char>) -> Option<nat> {
    let body = if s.len() > 0 && s[0] == '+' {
        s.drop_first()
    } else {
        s
    };
    if body.len() > 0 && all_digits(body) {
        Some(digits_value(body))
    } else {
        None
    }
}

/// `char::to_ascii_lowercase`.
pub fn lower_char_exec(c: char) -> (r: char)
    ensures
        r == lower_char(c),
{
    if 'A' <= c && c <= 'Z' {
        let u = (c as u32) + 32;
        proof {
            assert(u < 0x80);
        }
        (u as u8) as char
    } else {
        c
    }
}

/// `char::to_ascii_uppercase`.
pub fn upper_char_exec(c: char) -> (r: char)
    ensures
        r == upper_char(c),
{
    if 'a' <= c && c <= 'z' {
        let u = (c as u32) - 32;
        (u as u8) as char
    } else {
        c
    }
}

/// Membership in Unicode `White_Space`.
pub fn is_ws_exec(c: char) -> (r: bool)
    ensures
        r == is_ws(c),
{
    let u = c as u32;
    (0x09 <= u && u <= 0x0D) || u == 0x20 || u == 0x85 || u == 0xA0 || u == 0x1680 || (0x2000
        <= u && u <= 0x200A) || u == 0x2028 || u == 0x2029 || u == 0x202F || u == 0x205F || u
        == 0x3000
}

/// The characters of `s`, in order.
pub fn chars_of(s: &str) -> (v: Vec<char>)
    ensures
        v@ == s@,
{
    let mut v: Vec<char> = Vec::new();
    for c in it: s.chars()
        invariant
            v@ == it.seq().take(it.index() as int),
            it.seq() == s@,
    {
        v.push(c);
    }
    v
}

/// A `String` holding exactly `v`.
pub fn string_of(v: &[char]) -> (s: String)
    ensures
        s@ == v@,
{
    let mut s = String::new();
    let mut i: usize = 0;
    while i < v.len()
        invariant
            0 <= i <= v@.len(),
            s@ == v@.take(i as int),
        decreases v@.len() - i,
    {
        push_char(&mut s, v[i]);
        i = i + 1;
        assert(s@ =~= v@.take(i as int));
    }
    assert(v@.take(v@.len() as int) =~= v@);
    s
}

/// `v[from..to]` as a new vector.
pub fn slice_chars(v: &[char], from: usize, to: usize) -> (r: Vec<char>)
    requires
        from <= to <= v@.len(),
    ensures
        r@ == v@.subrange(from as int, to as int),
{
    let mut r: Vec<char> = Vec::new();
    let mut i = from;
    while i < to
        invariant
            from <= i <= to <= v@.len(),
            r@ == v@.subrange(from as int, i as int),
        decreases to - i,
    {
        r.push(v[i]);
        i = i + 1;
        assert(r@ =~= v@.subrange(from as int, i as int));
    }
    r
}

/// Characters equal.
pub fn chars_eq(a: &[char], b: &[char]) -> (r: bool)
    ensures
        r == (a@ == b@),
{
    if a.len() != b.len() {
        return false;
    }
    let mut i: usize = 0;
    while i < a.len()
        invariant
            0 <= i <= a@.len(),
            a@.len() == b@.len(),
            forall|k: int| 0 <= k < i ==> a@[k] == b@[k],
        decreases a@.len() - i,
    {
        if a[i] != b[i] {
            return false;
        }
        i = i + 1;
    }
    assert(a@ =~= b@);
    true
}

/// `v` equals the characters of `lit`.
pub fn eq_str(v: &[char], lit: &str) -> (r: bool)
    ensures
        r == (v@ == lit@),
{
    let l = chars_of(lit);
    chars_eq(v, l.as_slice())
}

/// `v` starts with the characters of `lit`.
pub fn starts_with_str(v: &[char], lit: &str) -> (r: bool)
    ensures
        r == starts_with(v@, lit@),
{
    let l = chars_of(lit);
    if l.len() > v.len() {
        return false;
    }
    let head = slice_chars(v, 0, l.len());
    chars_eq(head.as_slice(), l.as_slice())
}

/// `v` ends with the characters of `lit`.
pub fn ends_with_str(v: &[char], lit: &str) -> (r: bool)
    ensures
        r == ends_with(v@, lit@),
{
    let l = chars_of(lit);
    if l.len() > v.len() {
        return false;
    }
    let tail = slice_chars(v, v.len() - l.len(), v.len());
    chars_eq(tail.as_slice(), l.as_slice())
}

/// `p` occurs somewhere in `v`.
pub fn contains_chars(v: &[char], p: &[char]) -> (r: bool)
    ensures
        r == contains(v@, p@),
{
    if p.len() > v.len() {
        assert forall|i: int| !occurs_at(v@, p@, i) by {}
        return false;
    }
    if p.len() == 0 {
        assert(occurs_at(v@, p@, 0)) by {
            assert(v@.subrange(0, 0) =~= p@);
        }
        return true;
    }
    let mut i: usize = 0;
    while i <= v.len() - p.len()
        invariant
            1 <= p@.len() <= v@.len(),
            0 <= i <= v@.len() - p@.len() + 1,
            forall|k: int| 0 <= k < i ==> !occurs_at(v@, p@, k),
        decreases v@.len() + 1 - i,
    {
        let part = slice_chars(v, i, i + p.len());
        if chars_eq(part.as_slice(), p) {
            assert(occurs_at(v@, p@, i as int));
            return true;
        }
        i = i + 1;
    }
    assert forall|k: int| !occurs_at(v@, p@, k) by {
        if 0 <= k < i {
        }
    }
    false
}

/// Position of the first occurrence of `p` in `v`, or `v.len()`.
pub fn find_chars(v: &[char], p: &[char]) -> (r: usize)
    ensures
        r == find(v@, p@),
        r <= v@.len(),
        r < v@.len() ==> occurs_at(v@, p@, r as int),
{
    if p.len() > v.len() {
        return v.len();
    }
    if p.len() == 0 {
        assert(occurs_at(v@, p@, 0)) by {
            assert(v@.subrange(0, 0) =~= p@);
        }
        return 0;
    }
    let mut i: usize = 0;
    while i <= v.len() - p.len()
        invariant
            1 <= p@.len() <= v@.len(),
            0 <= i <= v@.len() - p@.len() + 1,
            find(v@, p@) == find_from(v@, p@, i as int),
        decreases v@.len() + 1 - i,
    {
        let part = slice_chars(v, i, i + p.len());
        if chars_eq(part.as_slice(), p) {
            return i;
        }
        i = i + 1;
    }
    v.len()
}

/// Position of the first occurrence of `lit` in `v`, or `v.len()`.
pub fn find_str(v: &[char], lit: &str) -> (r: usize)
    ensures
        r == find(v@, lit@),
        r <= v@.len(),
        r < v@.len() ==> occurs_at(v@, lit@, r as int),
{
    let l = chars_of(lit);
    find_chars(v, l.as_slice())
}

/// The characters of `lit` occur somewhere in `v`.
pub fn contains_str(v: &[char], lit: &str) -> (r: bool)
    ensures
        r == contains(v@, lit@),
{
    let l = chars_of(lit);
    contains_chars(v, l.as_slice())
}

/// ASCII lower case of every character.
pub fn lower_chars(v: &[char]) -> (r: Vec<char>)
    ensures
        r@ == lower(v@),
{
    let mut r: Vec<char> = Vec::new();
    let mut i: usize = 0;
    while i < v.len()
        invariant
            0 <= i <= v@.len(),
            r@ == lower(v@.take(i as int)),
        decreases v@.len() - i,
    {
        let c = lower_char_exec(v[i]);
        r.push(c);
        i = i + 1;
        assert(r@ =~= lower(v@.take(i as int)));
    }
    assert(v@.take(v@.len() as int) =~= v@);
    r
}

proof fn lemma_trim_start_skip(s: Seq<char>, i: int)
    requires
        0 <= i < s.len(),
        is_ws(s[i]),
    ensures
        trim_start(s.skip(i)) == trim_start(s.skip(i + 1)),
{
    assert(s.skip(i).drop_first() =~= s.skip(i + 1));
}

proof fn lemma_trim_end_take(s: Seq<char>, j: int)
    requires
        0 < j <= s.len(),
        is_ws(s[j - 1]),
    ensures
        trim_end(s.take(j)) == trim_end(s.take(j - 1)),
{
    assert(s.take(j).drop_last() =~= s.take(j - 1));
}

/// Bounds `(a, b)` such that `v[a..b]` is `v` trimmed.
pub fn trim_bounds(v: &[char]) -> (r: (usize, usize))
    ensures
        r.0 <= r.1 <= v@.len(),
        v@.subrange(r.0 as int, r.1 as int) == trim(v@),
{
    let mut a: usize = 0;
    assert(v@.skip(0) =~= v@);
    while a < v.len() && is_ws_exec(v[a])
        invariant
            0 <= a <= v@.len(),
            trim_start(v@) == trim_start(v@.skip(a as int)),
        decreases v@.len() - a,
    {
        proof {
            lemma_trim_start_skip(v@, a as int);
        }
        a = a + 1;
    }
    let ghost t = v@.skip(a as int);
    assert(trim_start(t) == t);
    let mut b: usize = v.len();
    assert(t.take(t.len() as int) =~= t);
    while b > a && is_ws_exec(v[b - 1])
        invariant
            a <= b <= v@.len(),
            t == v@.skip(a as int),
            trim_end(t) == trim_end(t.take(b - a)),
        decreases b,
    {
        proof {
            assert(t[b - a - 1] == v@[b - 1]);
            lemma_trim_end_take(t, (b - a) as int);
        }
        b = b - 1;
    }
    assert(trim_end(t.take(b - a)) == t.take(b - a));
    assert(v@.subrange(a as int, b as int) =~= t.take(b - a));
    (a, b)
}

/// `v` trimmed, as a new vector.
pub fn trim_chars(v: &[char]) -> (r: Vec<char>)
    ensures
        r@ == trim(v@),
{
    let (a, b) = trim_bounds(v);
    slice_chars(v, a, b)
}

/// Position of the first character of `v` found in `seps` (or `v.len()`).
pub fn index_of_any_exec(v: &[char], seps: &[char]) -> (r: usize)
    ensures
        r == index_of_any(v@, seps@),
        r <= v@.len(),
{
    let mut i: usize = 0;
    assert(v@.skip(0) =~= v@);
    while i < v.len()
        invariant
            0 <= i <= v@.len(),
            index_of_any(v@, seps@) == i + index_of_any(v@.skip(i as int), seps@),
        decreases v@.len() - i,
    {
        let c = v[i];
        let mut k: usize = 0;
        let mut found = false;
        while k < seps.len()
            invariant
                0 <= k <= seps@.len(),
                found == (exists|j: int| 0 <= j < k && seps@[j] == c),
            decreases seps@.len() - k,
        {
            if seps[k] == c {
                found = true;
            }
            k = k + 1;
        }
        assert(found == seps@.contains(c));
        if found {
            return i;
        }
        assert(v@.skip(i as int).drop_first() =~= v@.skip(i + 1));
        i = i + 1;
    }
    i
}

/// Position of the first `c` in `v` (or `v.len()`).
pub fn index_of_exec(v: &[char], c: char) -> (r: usize)
    ensures
        r == index_of(v@, c),
        r <= v@.len(),
{
    let mut i: usize = 0;
    assert(v@.skip(0) =~= v@);
    while i < v.len()
        invariant
            0 <= i <= v@.len(),
            index_of(v@, c) == i + index_of(v@.skip(i as int), c),
        decreases v@.len() - i,
    {
        if v[i] == c {
            return i;
        }
        assert(v@.skip(i as int).drop_first() =~= v@.skip(i + 1));
        i = i + 1;
    }
    i
}

pub proof fn lemma_index_of_bounds(s: Seq<char>, c: char)
    ensures
        0 <= index_of(s, c) <= s.len(),
        index_of(s, c) < s.len() ==> s[index_of(s, c)] == c,
        forall|k: int| 0 <= k < index_of(s, c) ==> s[k] != c,
    decreases s.len(),
{
    if s.len() > 0 && s[0] != c {
        lemma_index_of_bounds(s.drop_first(), c);
        assert forall|k: int| 0 <= k < index_of(s, c) implies s[k] != c by {
            if k > 0 {
                assert(s[k] == s.drop_first()[k - 1]);
            }
        }
    }
}

pub proof fn lemma_index_of_any_bounds(s: Seq<char>, seps: Seq<char>)
    ensures
        0 <= index_of_any(s, seps) <= s.len(),
    decreases s.len(),
{
    if s.len() > 0 && !seps.contains(s[0]) {
        lemma_index_of_any_bounds(s.drop_first(), seps);
    }
}

/// `v` split at every character of `seps`.
pub fn split_any_exec(v: &[char], seps: &[char]) -> (r: Vec<Vec<char>>)
    ensures
        r@.len() == split_any(v@, seps@).len(),
        forall|k: int| 0 <= k < r@.len() ==> #[trigger] r@[k]@ == split_any(v@, seps@)[k],
{
    let mut out: Vec<Vec<char>> = Vec::new();
    let mut rest: Vec<char> = slice_chars(v, 0, v.len());
    let ghost acc: Seq<Seq<char>> = Seq::empty();
    assert(v@.subrange(0, v@.len() as int) =~= v@);
    loop
        invariant
            out@.len() == acc.len(),
            forall|k: int| 0 <= k < out@.len() ==> #[trigger] out@[k]@ == acc[k],
            acc + split_any(rest@, seps@) == split_any(v@, seps@),
        decreases rest@.len(),
    {
        let i = index_of_any_exec(rest.as_slice(), seps);
        if i >= rest.len() {
            let ghost r0 = rest@;
            out.push(rest);
            proof {
                assert(split_any(r0, seps@) == seq![r0]);
                acc = acc.push(r0);
                assert(acc =~= split_any(v@, seps@));
            }
            return out;
        }
        let piece = slice_chars(rest.as_slice(), 0, i);
        let next = slice_chars(rest.as_slice(), i + 1, rest.len());
        proof {
            let r0 = rest@;
            assert(piece@ =~= r0.take(i as int));
            assert(next@ =~= r0.skip(i + 1));
            assert(split_any(r0, seps@) == seq![r0.take(i as int)] + split_any(r0.skip(i + 1), seps@));
            assert(acc.push(piece@) + split_any(next@, seps@) =~= acc + split_any(r0, seps@));
            acc = acc.push(piece@);
        }
        out.push(piece);
        rest = next;
    }
}

/// Decimal representation of `n`.
pub fn dec_chars(n: u64) -> (r: Vec<char>)
    ensures
        r@ == dec(n as nat),
    decreases n,
{
    if n < 10 {
        let c = ((n as u8) + 48u8) as char;
        let mut r: Vec<char> = Vec::new();
        r.push(c);
        assert(r@ =~= seq![digit_char(n as nat)]);
        r
    } else {
        let mut r = dec_chars(n / 10);
        let d = ((n % 10) as u8 + 48u8) as char;
        r.push(d);
        r
    }
}

/// Appends the characters of `lit` to `out`.
pub fn push_str_chars(out: &mut Vec<char>, lit: &str)
    ensures
        final(out)@ == old(out)@ + lit@,
{
    let l = chars_of(lit);
    let mut i: usize = 0;
    while i < l.len()
        invariant
            0 <= i <= l@.len(),
            l@ == lit@,
            out@ == old(out)@ + l@.take(i as int),
        decreases l@.len() - i,
    {
        out.push(l[i]);
        i = i + 1;
        assert(out@ =~= old(out)@ + l@.take(i as int));
    }
    assert(l@.take(l@.len() as int) =~= l@);
}

/// Appends `v` to `out`.
pub fn push_chars(out: &mut Vec<char>, v: &[char])
    ensures
        final(out)@ == old(out)@ + v@,
{
    let mut i: usize = 0;
    while i < v.len()
        invariant
            0 <= i <= v@.len(),
            out@ == old(out)@ + v@.take(i as int),
        decreases v@.len() - i,
    {
        out.push(v[i]);
        i = i + 1;
        assert(out@ =~= old(out)@ + v@.take(i as int));
    }
    assert(v@.take(v@.len() as int) =~= v@);
}

/// Upper-case hexadecimal digit.
pub fn hex_upper_exec(d: u8) -> (r: char)
    requires
        d < 16,
    ensures
        r == hex_upper(d as nat),
{
    if d < 10 {
        (d + 48u8) as char
    } else {
        (d + 55u8) as char
    }
}

/// Parses an unsigned decimal as `str::parse::<uN>` reads it, returning the value
/// when it is at most `max`.
pub fn parse_unsigned_exec(v: &[char], max: u64) -> (r: Option<u64>)
    ensures
        r == (match parse_unsigned(v@) {
            Some(n) => if n <= max { Some(n as u64) } else { None::<u64> },
            None => None::<u64>,
        }),
{
    let start: usize = if v.len() > 0 && v[0] == '+' { 1 } else { 0 };
    let ghost body = if v@.len() > 0 && v@[0] == '+' { v@.drop_first() } else { v@ };
    assert(body =~= v@.skip(start as int));
    if start >= v.len() {
        return None;
    }
    let mut acc: u64 = 0;
    let mut i = start;
    let mut over = false;
    while i < v.len()
        invariant
            start <= i <= v@.len(),
            body == v@.skip(start as int),
            body == (if v@.len() > 0 && v@[0] == '+' { v@.drop_first() } else { v@ }),
            all_digits(v@.subrange(start as int, i as int)),
            !over ==> acc as nat == digits_value(v@.subrange(start as int, i as int)),
            !over ==> acc <= max,
            over ==> digits_value(v@.subrange(start as int, i as int)) > max,
        decreases v@.len() - i,
    {
        let c = v[i];
        if !('0' <= c && c <= '9') {
            proof {
                assert(body[i - start] == c);
                assert(!all_digits(body));
                assert(body.len() > 0);
            }
            return None;
        }
        let d = (c as u32 - 48) as u64;
        proof {
            let pre = v@.subrange(start as int, i as int);
            let post = v@.subrange(start as int, i + 1);
            assert(post.drop_last() =~= pre);
            assert(post.last() == c);
            assert(digits_value(post) == digits_value(pre) * 10 + digit_value(c));
            assert(all_digits(post));
        }
        if !over {
            if acc > max / 10 {
                over = true;
                proof {
                    assert(acc * 10 + d > max) by (nonlinear_arith)
                        requires
                            acc > max / 10,
                    ;
                }
            } else {
                proof {
                    assert(acc * 10 <= max) by (nonlinear_arith)
                        requires
                            acc <= max / 10,
                    ;
                }
                let t = acc * 10;
                if d > max - t {
                    over = true;
                } else {
                    acc = t + d;
                }
            }
        } else {
            proof {
                let pre = v@.subrange(start as int, i as int);
                assert(digits_value(pre) * 10 + digit_value(c) > max) by (nonlinear_arith)
                    requires
                        digits_value(pre) > max,
                ;
            }
        }
        i = i + 1;
    }
    assert(v@.subrange(start as int, v@.len() as int) =~= body);
    if over {
        None
    } else {
        Some(acc)
    }
}

} // verus!
