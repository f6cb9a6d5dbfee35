//! Rate limit of token logins: at most ten attempts per address per minute.
//!
//! Each address keeps the times of its recent attempts, oldest first. Times are
//! nanoseconds since the limiter was created; `check_at` takes the time as an
//! argument, `check` reads the monotonic clock.

use vstd::prelude::*;

use std::time::Instant;

use crate::clock::{instant_now, nanos_since};
use crate::seat::elapsed;
use crate::text::{chars_of, string_of};
use vstd::hash_map::StringHashMap;

verus! {

/// Attempts allowed per address within the window.
pub const LOGIN_MAX_ATTEMPTS: usize = 10;

/// Length of the window, in seconds.
pub const LOGIN_WINDOW_SECS: u64 = 60;

/// Length of the window, in nanoseconds.
pub open spec fn login_window() -> u64 {
    (LOGIN_WINDOW_SECS * 1_000_000_000) as u64
}

/// The attempts that remain after the oldest ones that fell out of the
/// window are dropped from the front.
pub open spec fn drop_stale(q: Seq<u64>, now: u64) -> Seq<u64>
    decreases q.len(),
{
    if q.len() > 0 && elapsed(now, q[0]) > login_window() {
        drop_stale(q.drop_first(), now)
    } else {
        q
    }
}

/// Recorded attempts of `ip`.
pub open spec fn attempts_of(m: Map<Seq<char>, Seq<u64>>, ip: Seq<char>) -> Seq<u64> {
    if m.contains_key(ip) {
        m[ip]
    } else {
        Seq::empty()
    }
}

/// Whether an attempt of `ip` at `now` is let through.
pub open spec fn login_allowed(m: Map<Seq<char>, Seq<u64>>, ip: Seq<char>, now: u64) -> bool {
    drop_stale(attempts_of(m, ip), now).len() < LOGIN_MAX_ATTEMPTS
}

/// Record after an attempt of `ip` at `now`.
pub open spec fn after_attempt(m: Map<Seq<char>, Seq<u64>>, ip: Seq<char>, now: u64) -> Map<
    Seq<char>,
    Seq<u64>,
> {
    let q = drop_stale(attempts_of(m, ip), now);
    if q.len() < LOGIN_MAX_ATTEMPTS {
        m.insert(ip, q.push(now))
    } else {
        m.insert(ip, q)
    }
}

pub proof fn lemma_drop_stale_suffix(q: Seq<u64>, now: u64)
    ensures
        drop_stale(q, now).len() <= q.len(),
        exists|k: int| 0 <= k <= q.len() && drop_stale(q, now) == #[trigger] q.subrange(k, q.len() as int),
    decreases q.len(),
{
    if q.len() > 0 && elapsed(now, q[0]) > login_window() {
        lemma_drop_stale_suffix(q.drop_first(), now);
        let k = choose|k: int|
            0 <= k <= q.drop_first().len() && drop_stale(q.drop_first(), now)
                == #[trigger] q.drop_first().subrange(k, q.drop_first().len() as int);
        assert(q.drop_first().subrange(k, q.drop_first().len() as int) =~= q.subrange(
            k + 1,
            q.len() as int,
        ));
    } else {
        assert(q.subrange(0, q.len() as int) =~= q);
    }
}

fn stale(now: u64, t: u64) -> (r: bool)
    ensures
        r == (elapsed(now, t) > login_window()),
{
    let gap = if now >= t { now - t } else { 0 };
    gap > LOGIN_WINDOW_SECS * 1_000_000_000
}

/// Attempt record per address.
pub struct LoginLimiter {
    attempts: StringHashMap<Vec<u64>>,
    origin: Instant,
    /// Latest time an attempt was made at.
    last: u64,
}

impl View for LoginLimiter {
    type V = Map<Seq<char>, Seq<u64>>;

    closed spec fn view(&self) -> Map<Seq<char>, Seq<u64>> {
        self.attempts@.map_values(|v: Vec<u64>| v@)
    }
}

impl LoginLimiter {
    /// Every address holds at most the allowed number of attempts.
    pub closed spec fn wf(&self) -> bool {
        forall|ip: Seq<char>| #[trigger] self@.contains_key(ip) ==> self@[ip].len() <= LOGIN_MAX_ATTEMPTS
    }

    /// Latest time an attempt was made at (0 before the first).
    pub closed spec fn last_seen(&self) -> u64 {
        self.last
    }

    /// No attempts yet.
    pub fn new() -> (l: LoginLimiter)
        ensures
            l.wf(),
            l@ == Map::<Seq<char>, Seq<u64>>::empty(),
            l.last_seen() == 0,
    {
        let l = LoginLimiter { attempts: StringHashMap::new(), origin: instant_now(), last: 0 };
        assert(l@ =~= Map::<Seq<char>, Seq<u64>>::empty());
        l
    }

    /// Records an attempt of `ip` at `now`: refused (false) when the
    /// address already made the allowed number of attempts within the window.
    pub fn check_at(&mut self, ip: &str, now: u64) -> (ok: bool)
        requires
            old(self).wf(),
        ensures
            final(self).wf(),
            ok == login_allowed(old(self)@, ip@, now),
            final(self)@ == after_attempt(old(self)@, ip@, now),
            final(self).last_seen() == if now > old(self).last_seen() {
                now
            } else {
                old(self).last_seen()
            },
    {
        let q: Vec<u64> = match self.attempts.get(ip) {
            Some(v) => {
                let mut c: Vec<u64> = Vec::new();
                let mut i: usize = 0;
                while i < v.len()
                    invariant
                        i <= v@.len(),
                        c@ =~= v@.take(i as int),
                    decreases v@.len() - i,
                {
                    c.push(v[i]);
                    i += 1;
                }
                assert(v@.take(v@.len() as int) =~= v@);
                c
            },
            None => Vec::new(),
        };
        assert(q@ == attempts_of(old(self)@, ip@));
        let mut k: usize = 0;
        while k < q.len() && stale(now, q[k])
            invariant
                k <= q@.len(),
                drop_stale(q@, now) == drop_stale(q@.subrange(k as int, q@.len() as int), now),
            decreases q@.len() - k,
        {
            let ghost t = q@.subrange(k as int, q@.len() as int);
            assert(t.drop_first() =~= q@.subrange(k as int + 1, q@.len() as int));
            k += 1;
        }
        let ghost rest = q@.subrange(k as int, q@.len() as int);
        assert(drop_stale(rest, now) == rest);
        let mut kept: Vec<u64> = Vec::new();
        let mut j: usize = k;
        while j < q.len()
            invariant
                k <= j <= q@.len(),
                kept@ =~= q@.subrange(k as int, j as int),
            decreases q@.len() - j,
        {
            kept.push(q[j]);
            j += 1;
        }
        assert(kept@ == drop_stale(attempts_of(old(self)@, ip@), now));
        let ok = kept.len() < LOGIN_MAX_ATTEMPTS;
        if ok {
            kept.push(now);
        }
        let ghost kv = kept@;
        proof {
            lemma_drop_stale_suffix(q@, now);
        }
        self.attempts.insert(string_of(chars_of(ip).as_slice()), kept);
        if now > self.last {
            self.last = now;
        }
        proof {
            assert(self@ =~= old(self)@.insert(ip@, kv));
            assert forall|x: Seq<char>| #[trigger] self@.contains_key(x) implies self@[x].len()
                <= LOGIN_MAX_ATTEMPTS by {
                if x != ip@ {
                    assert(old(self)@.contains_key(x));
                }
            }
        }
        ok
    }

    /// The current time of the limiter's clock, never before the latest
    /// attempt (so that successive attempts go forward in time).
    pub fn now(&self) -> (t: u64)
        ensures
            t >= self.last_seen(),
    {
        let n = nanos_since(&self.origin);
        if n > self.last {
            n
        } else {
            self.last
        }
    }

    /// [`LoginLimiter::check_at`] at the current time, which is not before
    /// the time of the previous attempt.
    pub fn check(&mut self, ip: &str) -> (ok: bool)
        requires
            old(self).wf(),
        ensures
            final(self).wf(),
            exists|now: u64|
                now >= old(self).last_seen() && final(self).last_seen() == now && ok == login_allowed(
                    old(self)@,
                    ip@,
                    now,
                ) && final(self)@ == after_attempt(old(self)@, ip@, now),
    {
        let now = self.now();
        self.check_at(ip, now)
    }
}

/// A burst is refused: an address with the allowed number of attempts, all
/// within the window before `now`, is refused at `now`.
pub proof fn lemma_burst_refused(m: Map<Seq<char>, Seq<u64>>, ip: Seq<char>, now: u64)
    requires
        attempts_of(m, ip).len() >= LOGIN_MAX_ATTEMPTS,
        forall|i: int|
            0 <= i < attempts_of(m, ip).len() ==> elapsed(now, #[trigger] attempts_of(m, ip)[i])
                <= login_window(),
    ensures
        !login_allowed(m, ip, now),
{
}

/// A refused attempt is not recorded: the attempt count does not grow.
pub proof fn lemma_refused_not_recorded(m: Map<Seq<char>, Seq<u64>>, ip: Seq<char>, now: u64)
    requires
        !login_allowed(m, ip, now),
    ensures
        attempts_of(after_attempt(m, ip, now), ip).len() <= attempts_of(m, ip).len(),
{
    lemma_drop_stale_suffix(attempts_of(m, ip), now);
}

/// An address with no attempt in the window is let through.
pub proof fn lemma_quiet_address_allowed(m: Map<Seq<char>, Seq<u64>>, ip: Seq<char>, now: u64)
    requires
        !m.contains_key(ip),
    ensures
        login_allowed(m, ip, now),
        attempts_of(after_attempt(m, ip, now), ip) == seq![now],
{
    assert(Seq::<u64>::empty().push(now) =~= seq![now]);
}

/// State of the record after a series of attempts (address, time), in order.
pub open spec fn replay(m: Map<Seq<char>, Seq<u64>>, evs: Seq<(Seq<char>, u64)>) -> Map<Seq<char>, Seq<u64>>
    decreases evs.len(),
{
    if evs.len() == 0 {
        m
    } else {
        after_attempt(replay(m, evs.drop_last()), evs.last().0, evs.last().1)
    }
}

/// Whether attempt `k` of a series, made on a fresh limiter, is let through.
pub open spec fn granted(evs: Seq<(Seq<char>, u64)>, k: int) -> bool {
    login_allowed(replay(Map::empty(), evs.take(k)), evs[k].0, evs[k].1)
}

/// Times of the attempts of `ip` among the first `k` of a series that were
/// let through and lie within the window before `now`, in order.
pub open spec fn recent_grants(evs: Seq<(Seq<char>, u64)>, ip: Seq<char>, now: u64, k: int) -> Seq<u64>
    decreases k,
{
    if k <= 0 {
        Seq::empty()
    } else {
        let r = recent_grants(evs, ip, now, k - 1);
        let e = evs[k - 1];
        if e.0 == ip && granted(evs, k - 1) && elapsed(now, e.1) <= login_window() {
            r.push(e.1)
        } else {
            r
        }
    }
}

/// The times of a series never go back.
pub open spec fn times_ordered(evs: Seq<(Seq<char>, u64)>) -> bool {
    forall|i: int, j: int| 0 <= i <= j < evs.len() ==> #[trigger] evs[i].1 <= #[trigger] evs[j].1
}

proof fn lemma_drop_stale_twice(q: Seq<u64>, t: u64, now: u64)
    requires
        t <= now,
    ensures
        drop_stale(drop_stale(q, t), now) == drop_stale(q, now),
    decreases q.len(),
{
    if q.len() > 0 && elapsed(t, q[0]) > login_window() {
        lemma_drop_stale_twice(q.drop_first(), t, now);
    }
}

proof fn lemma_drop_stale_push(q: Seq<u64>, x: u64, now: u64)
    ensures
        drop_stale(q.push(x), now) == if drop_stale(q, now).len() > 0 {
            drop_stale(q, now).push(x)
        } else {
            drop_stale(seq![x], now)
        },
    decreases q.len(),
{
    if q.len() == 0 {
        assert(q.push(x) =~= seq![x]);
    } else {
        assert(q.push(x)[0] == q[0]);
        if elapsed(now, q[0]) > login_window() {
            assert(q.push(x).drop_first() =~= q.drop_first().push(x));
            lemma_drop_stale_push(q.drop_first(), x, now);
        }
    }
}

proof fn lemma_replay_bound(evs: Seq<(Seq<char>, u64)>, k: int, ip: Seq<char>)
    requires
        times_ordered(evs),
        0 <= k <= evs.len(),
    ensures
        forall|i: int|
            0 <= i < attempts_of(replay(Map::empty(), evs.take(k)), ip).len() ==> k > 0
                && #[trigger] attempts_of(replay(Map::empty(), evs.take(k)), ip)[i] <= evs[k - 1].1,
    decreases k,
{
    if k > 0 {
        let e = evs[k - 1];
        let m0 = replay(Map::empty(), evs.take(k - 1));
        assert(evs.take(k).drop_last() =~= evs.take(k - 1));
        assert(evs.take(k).last() == e);
        lemma_replay_bound(evs, k - 1, ip);
        lemma_replay_bound(evs, k - 1, e.0);
        let a = attempts_of(replay(Map::empty(), evs.take(k)), ip);
        if ip == e.0 {
            let q = drop_stale(attempts_of(m0, ip), e.1);
            lemma_drop_stale_suffix(attempts_of(m0, ip), e.1);
            let j = choose|j: int|
                0 <= j <= attempts_of(m0, ip).len() && q == #[trigger] attempts_of(m0, ip).subrange(
                    j,
                    attempts_of(m0, ip).len() as int,
                );
            assert forall|i: int| 0 <= i < a.len() implies #[trigger] a[i] <= evs[k - 1].1 by {
                if i < q.len() {
                    assert(q[i] == attempts_of(m0, ip)[i + j]);
                    assert(evs[k - 2].1 <= evs[k - 1].1);
                }
            }
        } else {
            assert(a == attempts_of(m0, ip));
            assert forall|i: int| 0 <= i < a.len() implies #[trigger] a[i] <= evs[k - 1].1 by {
                assert(evs[k - 2].1 <= evs[k - 1].1);
            }
        }
    }
}

proof fn lemma_replay_recent(evs: Seq<(Seq<char>, u64)>, k: int, ip: Seq<char>, now: u64)
    requires
        times_ordered(evs),
        0 <= k <= evs.len(),
        k > 0 ==> now >= evs[k - 1].1,
    ensures
        drop_stale(attempts_of(replay(Map::empty(), evs.take(k)), ip), now) == recent_grants(evs, ip, now, k),
    decreases k,
{
    if k > 0 {
        let e = evs[k - 1];
        let m0 = replay(Map::empty(), evs.take(k - 1));
        assert(evs.take(k).drop_last() =~= evs.take(k - 1));
        assert(evs.take(k).last() == e);
        if k > 1 {
            assert(evs[k - 2].1 <= evs[k - 1].1);
        }
        lemma_replay_recent(evs, k - 1, ip, now);
        if ip == e.0 {
            let a0 = attempts_of(m0, ip);
            lemma_replay_recent(evs, k - 1, ip, e.1);
            let q = drop_stale(a0, e.1);
            assert(granted(evs, k - 1) == (q.len() < LOGIN_MAX_ATTEMPTS));
            lemma_drop_stale_twice(a0, e.1, now);
            let d = drop_stale(q, now);
            assert(d == recent_grants(evs, ip, now, k - 1));
            if q.len() < LOGIN_MAX_ATTEMPTS {
                assert(attempts_of(replay(Map::empty(), evs.take(k)), ip) == q.push(e.1));
                lemma_drop_stale_push(q, e.1, now);
                if d.len() > 0 {
                    lemma_drop_stale_head(q, now);
                    lemma_replay_bound(evs, k - 1, ip);
                    lemma_drop_stale_suffix(q, now);
                    lemma_drop_stale_suffix(a0, e.1);
                    let j1 = choose|j: int| 0 <= j <= q.len() && d == #[trigger] q.subrange(j, q.len() as int);
                    let j0 = choose|j: int|
                        0 <= j <= a0.len() && q == #[trigger] a0.subrange(j, a0.len() as int);
                    assert(d[0] == a0[j0 + j1]);
                    assert(d[0] <= e.1);
                    assert(elapsed(now, e.1) <= login_window());
                } else {
                    assert(seq![e.1].drop_first() =~= Seq::<u64>::empty());
                    assert(drop_stale(Seq::<u64>::empty(), now) == Seq::<u64>::empty());
                    assert(d =~= Seq::<u64>::empty());
                    assert(seq![e.1][0] == e.1);
                    assert(Seq::<u64>::empty().push(e.1) =~= seq![e.1]);
                }
            } else {
                assert(attempts_of(replay(Map::empty(), evs.take(k)), ip) == q);
            }
        } else {
            assert(attempts_of(replay(Map::empty(), evs.take(k)), ip) == attempts_of(m0, ip));
        }
    }
}

proof fn lemma_drop_stale_head(q: Seq<u64>, now: u64)
    ensures
        drop_stale(q, now).len() > 0 ==> elapsed(now, drop_stale(q, now)[0]) <= login_window(),
    decreases q.len(),
{
    if q.len() > 0 && elapsed(now, q[0]) > login_window() {
        lemma_drop_stale_head(q.drop_first(), now);
    }
}

/// The limit over a series of attempts on one limiter, with times that do
/// not go back: an attempt is let through exactly when fewer than the
/// allowed number of earlier attempts of the same address were let through
/// within the window before it; attempts of other addresses do not count.
pub proof fn lemma_login_series(evs: Seq<(Seq<char>, u64)>, k: int)
    requires
        times_ordered(evs),
        0 <= k < evs.len(),
    ensures
        granted(evs, k) == (recent_grants(evs, evs[k].0, evs[k].1, k).len() < LOGIN_MAX_ATTEMPTS),
{
    if k > 0 {
        assert(evs[k - 1].1 <= evs[k].1);
    }
    lemma_replay_recent(evs, k, evs[k].0, evs[k].1);
}

proof fn lemma_replay_short(evs: Seq<(Seq<char>, u64)>, ip: Seq<char>)
    ensures
        attempts_of(replay(Map::empty(), evs), ip).len() <= LOGIN_MAX_ATTEMPTS,
    decreases evs.len(),
{
    if evs.len() > 0 {
        let m0 = replay(Map::empty(), evs.drop_last());
        lemma_replay_short(evs.drop_last(), ip);
        lemma_replay_short(evs.drop_last(), evs.last().0);
        lemma_drop_stale_suffix(attempts_of(m0, evs.last().0), evs.last().1);
    }
}

/// Over a series of attempts with times that do not go back, at most the
/// allowed number of attempts of one address are let through within the
/// window before any attempt of the series (that attempt included).
pub proof fn lemma_login_window_bound(evs: Seq<(Seq<char>, u64)>, ip: Seq<char>, k: int)
    requires
        times_ordered(evs),
        0 <= k < evs.len(),
    ensures
        recent_grants(evs, ip, evs[k].1, k + 1).len() <= LOGIN_MAX_ATTEMPTS,
{
    lemma_replay_recent(evs, k + 1, ip, evs[k].1);
    let a = attempts_of(replay(Map::empty(), evs.take(k + 1)), ip);
    lemma_replay_short(evs.take(k + 1), ip);
    lemma_drop_stale_suffix(a, evs[k].1);
}

} // verus!
