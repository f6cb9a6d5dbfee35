//! Korean / Latin input-method switching decisions: which input sources are
//! Korean or Latin, in which order sources are tried, and the retry-and-heal
//! sequence of an absolute switch. The host talks to the system's input
//! source API and reports what it observes.

use vstd::prelude::*;

use crate::text::{chars_of, contains, contains_str, lower, lower_chars, starts_with, starts_with_str, string_of};
use crate::tuning::HostOs;

verus! {

/// The input source id names a Korean input method.
pub open spec fn spec_is_korean_source_id(id: Seq<char>) -> bool {
    let l = lower(id);
    ||| contains(l, "korean"@)
    ||| contains(l, "hangul"@)
    ||| contains(l, "2set"@)
    ||| contains(l, "3set"@)
    ||| contains(l, "dubeolsik"@)
    ||| contains(l, "sebeolsik"@)
}

/// Whether an input source id is Korean (case-insensitive).
pub fn is_korean_source_id(id: &str) -> (r: bool)
    ensures
        r == spec_is_korean_source_id(id@),
{
    let l = lower_chars(chars_of(id).as_slice());
    let v = l.as_slice();
    contains_str(v, "korean") || contains_str(v, "hangul") || contains_str(v, "2set")
        || contains_str(v, "3set") || contains_str(v, "dubeolsik") || contains_str(v, "sebeolsik")
}

/// The input source id names a Latin keyboard layout.
pub open spec fn spec_is_latin_source_id(id: Seq<char>) -> bool {
    ||| starts_with(id, "com.apple.keylayout."@)
    ||| contains(id, "ABC"@)
    ||| contains(id, ".US"@)
    ||| contains(id, "British"@)
}

/// Whether an input source id is a Latin layout.
pub fn is_latin_source_id(id: &str) -> (r: bool)
    ensures
        r == spec_is_latin_source_id(id@),
{
    let c = chars_of(id);
    let v = c.as_slice();
    starts_with_str(v, "com.apple.keylayout.") || contains_str(v, "ABC") || contains_str(v, ".US")
        || contains_str(v, "British")
}

/// Label of the input mode for the browser.
pub open spec fn spec_ime_label(korean: bool) -> Seq<char> {
    if korean {
        "한"@
    } else {
        "A"@
    }
}

/// Input mode and its label, from whether Korean input is active.
pub fn current_state(korean: bool) -> (r: (bool, String))
    ensures
        r.0 == korean,
        r.1@ == spec_ime_label(korean),
{
    (korean, string_of(chars_of(if korean { "한" } else { "A" }).as_slice()))
}

/// Features advertised in the `hello` message; Korean input switching only
/// on macOS.
pub fn capabilities(os: HostOs) -> (r: Vec<String>)
    ensures
        r@.map_values(|s: String| s@) == seq!["capture"@, "input"@, "jpeg"@, "h264"@, "window-list"@, "display-list"@]
            + if os == HostOs::MacOs {
            seq!["ime-korean"@]
        } else {
            Seq::<Seq<char>>::empty()
        },
{
    let mut v: Vec<String> = Vec::new();
    v.push(string_of(chars_of("capture").as_slice()));
    v.push(string_of(chars_of("input").as_slice()));
    v.push(string_of(chars_of("jpeg").as_slice()));
    v.push(string_of(chars_of("h264").as_slice()));
    v.push(string_of(chars_of("window-list").as_slice()));
    v.push(string_of(chars_of("display-list").as_slice()));
    if os == HostOs::MacOs {
        v.push(string_of(chars_of("ime-korean").as_slice()));
    }
    proof {
        let ghost m = v@.map_values(|s: String| s@);
        if os == HostOs::MacOs {
            assert(m =~= seq!["capture"@, "input"@, "jpeg"@, "h264"@, "window-list"@, "display-list"@]
                + seq!["ime-korean"@]);
        } else {
            assert(m =~= seq!["capture"@, "input"@, "jpeg"@, "h264"@, "window-list"@, "display-list"@]
                + Seq::<Seq<char>>::empty());
        }
    }
    v
}

/// A source id answers a wanted id: equal, or a more specific id under it.
pub open spec fn spec_source_matches(id: Seq<char>, want: Seq<char>) -> bool {
    id == want || starts_with(id, want)
}

/// Whether source `id` answers the wanted id `want`.
pub fn source_matches(id: &str, want: &str) -> (r: bool)
    ensures
        r == spec_source_matches(id@, want@),
{
    assert(id@.subrange(0, id@.len() as int) =~= id@);
    starts_with_str(chars_of(id).as_slice(), want)
}

/// Step of an absolute input-mode switch.
#[derive(Debug, Clone, Copy, PartialEq, Eq, Structural)]
pub enum ImeStage {
    /// Nothing done yet.
    Start,
    /// The wanted mode was selected once.
    Selected,
    /// It was selected a second time.
    Retried,
    /// The opposite mode, then the wanted one, were selected.
    Healed,
}

/// What to do after observing the active mode.
#[derive(Debug)]
pub enum ImeNext {
    /// The switch is over; this is the active mode.
    Finish(bool),
    /// Select these modes in order (true: Korean), wait briefly, observe
    /// again, and continue from `stage`.
    Select { modes: Vec<bool>, stage: ImeStage },
}

/// The switch to `want`: done as soon as the observed mode is the wanted
/// one; otherwise select it, then retry once, then flip to the opposite
/// mode and back, and report whatever is active after that.
pub open spec fn spec_ime_next(want: bool, stage: ImeStage, observed: bool) -> (bool, Seq<bool>, ImeStage) {
    if observed == want {
        (true, seq![], stage)
    } else {
        match stage {
            ImeStage::Start => (false, seq![want], ImeStage::Selected),
            ImeStage::Selected => (false, seq![want], ImeStage::Retried),
            ImeStage::Retried => (false, seq![!want, want], ImeStage::Healed),
            ImeStage::Healed => (true, seq![], stage),
        }
    }
}

/// Next step of the switch to `want` at `stage`, given the observed mode.
pub fn ime_next(want: bool, stage: ImeStage, observed: bool) -> (r: ImeNext)
    ensures
        match r {
            ImeNext::Finish(k) => spec_ime_next(want, stage, observed).0 && k == observed,
            ImeNext::Select { modes, stage: s } => !spec_ime_next(want, stage, observed).0
                && modes@ == spec_ime_next(want, stage, observed).1 && s == spec_ime_next(
                want,
                stage,
                observed,
            ).2,
        },
{
    if observed == want {
        return ImeNext::Finish(observed);
    }
    match stage {
        ImeStage::Start => {
            let mut m: Vec<bool> = Vec::new();
            m.push(want);
            assert(m@ =~= seq![want]);
            ImeNext::Select { modes: m, stage: ImeStage::Selected }
        },
        ImeStage::Selected => {
            let mut m: Vec<bool> = Vec::new();
            m.push(want);
            assert(m@ =~= seq![want]);
            ImeNext::Select { modes: m, stage: ImeStage::Retried }
        },
        ImeStage::Retried => {
            let mut m: Vec<bool> = Vec::new();
            m.push(!want);
            m.push(want);
            assert(m@ =~= seq![!want, want]);
            ImeNext::Select { modes: m, stage: ImeStage::Healed }
        },
        ImeStage::Healed => ImeNext::Finish(observed),
    }
}

/// The switch never injects keys (no Escape): it only selects the wanted
/// mode, except the single flip to the opposite mode while healing.
pub proof fn lemma_ime_only_selects_wanted(want: bool, stage: ImeStage, observed: bool)
    ensures
        ({
            let (_, modes, next) = spec_ime_next(want, stage, observed);
            forall|i: int| 0 <= i < modes.len() && modes[i] != want ==> next == ImeStage::Healed && i == 0
        }),
{
}

/// The switch ends after at most four observations: from `Healed` it always
/// finishes.
pub proof fn lemma_ime_terminates(want: bool, observed: bool)
    ensures
        spec_ime_next(want, ImeStage::Healed, observed).0,
{
}

/// Indices of the ids that answer `want`, in order.
pub open spec fn matching(ids: Seq<Seq<char>>, want: Seq<char>) -> Seq<int>
    decreases ids.len(),
{
    if ids.len() == 0 {
        Seq::empty()
    } else {
        let r = matching(ids.drop_last(), want);
        if spec_source_matches(ids.last(), want) {
            r.push(ids.len() - 1)
        } else {
            r
        }
    }
}

/// Indices of the Korean ids, in order.
pub open spec fn korean_indices(ids: Seq<Seq<char>>) -> Seq<int>
    decreases ids.len(),
{
    if ids.len() == 0 {
        Seq::empty()
    } else {
        let r = korean_indices(ids.drop_last());
        if spec_is_korean_source_id(ids.last()) {
            r.push(ids.len() - 1)
        } else {
            r
        }
    }
}

/// Indices of the Latin, non-Korean ids, in order.
pub open spec fn latin_indices(ids: Seq<Seq<char>>) -> Seq<int>
    decreases ids.len(),
{
    if ids.len() == 0 {
        Seq::empty()
    } else {
        let r = latin_indices(ids.drop_last());
        if spec_is_latin_source_id(ids.last()) && !spec_is_korean_source_id(ids.last()) {
            r.push(ids.len() - 1)
        } else {
            r
        }
    }
}

pub open spec fn ids_view(ids: Seq<String>) -> Seq<Seq<char>> {
    ids.map_values(|s: String| s@)
}

pub open spec fn idx_view(v: Seq<usize>) -> Seq<int> {
    v.map_values(|i: usize| i as int)
}

/// Which of the three lists of indices.
#[derive(Debug, Clone, Copy, PartialEq, Eq, Structural)]
enum Pick {
    Matching,
    Korean,
    Latin,
}

spec fn picked(ids: Seq<Seq<char>>, want: Seq<char>, p: Pick) -> Seq<int> {
    match p {
        Pick::Matching => matching(ids, want),
        Pick::Korean => korean_indices(ids),
        Pick::Latin => latin_indices(ids),
    }
}

fn indices(ids: &[String], want: &str, p: Pick) -> (r: Vec<usize>)
    ensures
        idx_view(r@) == picked(ids_view(ids@), want@, p),
{
    let ghost iv = ids_view(ids@);
    let mut out: Vec<usize> = Vec::new();
    let mut i: usize = 0;
    while i < ids.len()
        invariant
            i <= ids@.len(),
            iv == ids_view(ids@),
            idx_view(out@) == picked(iv.take(i as int), want@, p),
        decreases ids@.len() - i,
    {
        let id = ids[i].as_str();
        let hit = match p {
            Pick::Matching => source_matches(id, want),
            Pick::Korean => is_korean_source_id(id),
            Pick::Latin => is_latin_source_id(id) && !is_korean_source_id(id),
        };
        proof {
            assert(iv.take(i as int + 1).drop_last() =~= iv.take(i as int));
            assert(iv.take(i as int + 1).last() == id@);
        }
        let ghost before = out@;
        if hit {
            out.push(i);
            assert(idx_view(out@) =~= idx_view(before).push(i as int));
        }
        i += 1;
    }
    assert(iv.take(ids@.len() as int) =~= iv);
    out
}

/// Preferred Korean input sources, best first.
pub open spec fn korean_preferred() -> Seq<Seq<char>> {
    seq![
        "com.apple.inputmethod.Korean.2SetKorean"@,
        "com.apple.inputmethod.Korean.3SetKorean"@,
        "com.apple.inputmethod.Korean"@,
        "com.apple.inputmethod.Korean.390Sebulshik"@,
    ]
}

/// Preferred Latin layouts, best first.
pub open spec fn latin_preferred() -> Seq<Seq<char>> {
    seq!["com.apple.keylayout.ABC"@, "com.apple.keylayout.US"@, "com.apple.keylayout.British"@]
}

/// Order in which sources are tried to turn Korean on: the sources that
/// answer each preferred id (in preference order), then every Korean source.
/// The host selects them in this order until one selection succeeds.
pub fn korean_candidates(ids: &[String]) -> (r: Vec<usize>)
    ensures
        idx_view(r@) == matching(ids_view(ids@), korean_preferred()[0]) + matching(
            ids_view(ids@),
            korean_preferred()[1],
        ) + matching(ids_view(ids@), korean_preferred()[2]) + matching(
            ids_view(ids@),
            korean_preferred()[3],
        ) + korean_indices(ids_view(ids@)),
{
    let mut out = indices(ids, "com.apple.inputmethod.Korean.2SetKorean", Pick::Matching);
    let mut b = indices(ids, "com.apple.inputmethod.Korean.3SetKorean", Pick::Matching);
    out.append(&mut b);
    let mut c = indices(ids, "com.apple.inputmethod.Korean", Pick::Matching);
    out.append(&mut c);
    let mut d = indices(ids, "com.apple.inputmethod.Korean.390Sebulshik", Pick::Matching);
    out.append(&mut d);
    let mut e = indices(ids, "", Pick::Korean);
    out.append(&mut e);
    assert(idx_view(out@) =~= matching(ids_view(ids@), korean_preferred()[0]) + matching(
        ids_view(ids@),
        korean_preferred()[1],
    ) + matching(ids_view(ids@), korean_preferred()[2]) + matching(
        ids_view(ids@),
        korean_preferred()[3],
    ) + korean_indices(ids_view(ids@)));
    out
}

/// A source to try when turning Korean off.
#[derive(Debug, Clone, Copy, PartialEq, Eq, Structural)]
pub enum LatinCandidate {
    /// Source of the list at this index.
    Listed(usize),
    /// The system's current ASCII-capable source.
    AsciiCurrent,
}

/// Order in which sources are tried to turn Korean off: the sources that
/// answer each preferred layout, then the current ASCII-capable source
/// (when it exists and is not Korean), then every Latin, non-Korean source.
pub fn latin_candidates(ids: &[String], ascii_current: Option<&str>) -> (r: Vec<LatinCandidate>)
    ensures
        r@ == (matching(ids_view(ids@), latin_preferred()[0]) + matching(
            ids_view(ids@),
            latin_preferred()[1],
        ) + matching(ids_view(ids@), latin_preferred()[2])).map_values(
            |i: int| LatinCandidate::Listed(i as usize),
        ) + (match ascii_current {
            Some(a) => if !spec_is_korean_source_id(a@) {
                seq![LatinCandidate::AsciiCurrent]
            } else {
                Seq::empty()
            },
            None => Seq::empty(),
        }) + latin_indices(ids_view(ids@)).map_values(|i: int| LatinCandidate::Listed(i as usize)),
{
    let mut idx = indices(ids, "com.apple.keylayout.ABC", Pick::Matching);
    let mut b = indices(ids, "com.apple.keylayout.US", Pick::Matching);
    idx.append(&mut b);
    let mut c = indices(ids, "com.apple.keylayout.British", Pick::Matching);
    idx.append(&mut c);
    let tail = indices(ids, "", Pick::Latin);
    let mut out: Vec<LatinCandidate> = Vec::new();
    let mut i: usize = 0;
    while i < idx.len()
        invariant
            i <= idx@.len(),
            out@ == idx_view(idx@).take(i as int).map_values(|k: int| LatinCandidate::Listed(k as usize)),
        decreases idx@.len() - i,
    {
        out.push(LatinCandidate::Listed(idx[i]));
        assert(idx_view(idx@).take(i as int + 1) =~= idx_view(idx@).take(i as int).push(idx@[i as int] as int));
        assert(out@ =~= idx_view(idx@).take(i as int + 1).map_values(|k: int| LatinCandidate::Listed(k as usize)));
        i += 1;
    }
    assert(idx_view(idx@).take(idx@.len() as int) =~= idx_view(idx@));
    let ghost mid = out@;
    let ascii_ok = match ascii_current {
        Some(a) => !is_korean_source_id(a),
        None => false,
    };
    if ascii_ok {
        out.push(LatinCandidate::AsciiCurrent);
    }
    let ghost with_ascii = out@;
    let mut j: usize = 0;
    while j < tail.len()
        invariant
            j <= tail@.len(),
            out@ == with_ascii + idx_view(tail@).take(j as int).map_values(|k: int| LatinCandidate::Listed(k as usize)),
        decreases tail@.len() - j,
    {
        out.push(LatinCandidate::Listed(tail[j]));
        assert(idx_view(tail@).take(j as int + 1) =~= idx_view(tail@).take(j as int).push(tail@[j as int] as int));
        assert(out@ =~= with_ascii + idx_view(tail@).take(j as int + 1).map_values(|k: int| LatinCandidate::Listed(k as usize)));
        j += 1;
    }
    assert(idx_view(tail@).take(tail@.len() as int) =~= idx_view(tail@));
    proof {
        let pre = matching(ids_view(ids@), latin_preferred()[0]) + matching(ids_view(ids@), latin_preferred()[1]) + matching(ids_view(ids@), latin_preferred()[2]);
        assert(idx_view(idx@) =~= pre);
        if ascii_ok {
            assert(with_ascii == mid.push(LatinCandidate::AsciiCurrent));
        }
    }
    out
}

} // verus!
