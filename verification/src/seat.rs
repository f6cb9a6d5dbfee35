//! Exclusive input seat: one browser controls input at a time, with a grace
//! period that lets the owner finish a drag.
//!
//! Times are nanoseconds since the seat was created. The rules are stated by
//! the spec functions of this module; `acquire_at`, `should_notify_busy_at` and
//! `release` follow them exactly, and `acquire` / `should_notify_busy` read the
//! monotonic clock first.

use vstd::prelude::*;

use std::time::Instant;

use crate::clock::{instant_now, nanos_since};
use crate::text::string_of;
use crate::tuning::{DRAG_GRACE_MS, INPUT_BUSY_NOTIFY_INTERVAL_MS, INPUT_SEAT_TTL_MS};
use vstd::hash_map::HashMapWithView;

verus! {

/// Kind of remote input event.
#[derive(Debug, Clone, Copy, PartialEq, Eq, Structural)]
pub enum InputKind {
    Move,
    Down,
    Up,
    Scroll,
    Key,
    Text,
}

/// Outcome of asking for the seat.
#[derive(Debug, Clone)]
pub enum SeatResult {
    Allowed,
    /// Another peer holds the seat; `who` is its label.
    Busy { who: String },
}

/// Idle lifetime of a held seat, in nanoseconds.
pub open spec fn seat_ttl() -> u64 {
    (INPUT_SEAT_TTL_MS * 1_000_000) as u64
}

/// Drag grace after a press, in nanoseconds.
pub open spec fn drag_grace() -> u64 {
    (DRAG_GRACE_MS * 1_000_000) as u64
}

/// Minimum gap between two busy notices to one peer, in nanoseconds.
pub open spec fn busy_interval() -> u64 {
    (INPUT_BUSY_NOTIFY_INTERVAL_MS * 1_000_000) as u64
}

/// Mathematical model of the seat.
pub struct SeatView {
    pub owner: Option<u64>,
    pub label: Seq<char>,
    pub last: u64,
    pub drag_until: Option<u64>,
    /// Time of the last busy notice per peer.
    pub notified: Map<u64, u64>,
}

/// `a - b`, or 0 when `b > a` (a clock never runs backwards, but the model
/// does not rely on it).
pub open spec fn elapsed(now: u64, then: u64) -> u64 {
    if now >= then {
        (now - then) as u64
    } else {
        0
    }
}

/// `a + b`, saturating at `u64::MAX`.
pub open spec fn sat_add(a: u64, b: u64) -> u64 {
    if a + b <= u64::MAX {
        (a + b) as u64
    } else {
        u64::MAX
    }
}

impl SeatView {
    /// The owner's grace period is still running.
    pub open spec fn in_drag(self, now: u64) -> bool {
        match self.drag_until {
            Some(t) => now <= t,
            None => false,
        }
    }

    /// The seat has an owner that went idle and is not dragging.
    pub open spec fn expired(self, now: u64) -> bool {
        self.owner is Some && elapsed(now, self.last) > seat_ttl() && !self.in_drag(now)
    }

    /// Another live owner holds the seat.
    pub open spec fn busy_for(self, peer: u64, now: u64) -> bool {
        self.owner is Some && !self.expired(now) && self.owner->0 != peer
    }

    /// State after `peer` is granted the seat at `now` with an event of `kind`.
    pub open spec fn granted(self, peer: u64, kind: InputKind, label: Seq<char>, now: u64) -> SeatView {
        SeatView {
            owner: Some(peer),
            label,
            last: now,
            drag_until: if kind == InputKind::Down {
                Some(sat_add(now, drag_grace()))
            } else if kind == InputKind::Up || self.expired(now) {
                None
            } else {
                self.drag_until
            },
            notified: self.notified,
        }
    }

    /// A busy notice to `peer` is due at `now`.
    pub open spec fn notice_due(self, peer: u64, now: u64) -> bool {
        !(self.notified.contains_key(peer) && elapsed(now, self.notified[peer]) < busy_interval())
    }

    /// State after a busy notice to `peer` at `now` is recorded.
    pub open spec fn noticed(self, peer: u64, now: u64) -> SeatView {
        SeatView { notified: self.notified.insert(peer, now), ..self }
    }

    /// State after `peer` disconnects or gives up the seat.
    pub open spec fn released(self, peer: u64) -> SeatView {
        if self.owner == Some(peer) {
            SeatView { owner: None, drag_until: None, notified: self.notified.remove(peer), ..self }
        } else {
            SeatView { notified: self.notified.remove(peer), ..self }
        }
    }
}

/// Thread-unsafe seat state (the host wraps it in a lock).
pub struct InputSeat {
    owner: Option<u64>,
    label: String,
    last: u64,
    drag_until: Option<u64>,
    last_busy_notify: HashMapWithView<u64, u64>,
    origin: Instant,
}

impl View for InputSeat {
    type V = SeatView;

    closed spec fn view(&self) -> SeatView {
        SeatView {
            owner: self.owner,
            label: self.label@,
            last: self.last,
            drag_until: self.drag_until,
            notified: self.last_busy_notify@,
        }
    }
}

impl InputSeat {
    /// A free seat.
    pub fn new() -> (s: InputSeat)
        ensures
            s@.owner is None,
            s@.drag_until is None,
            s@.notified == Map::<u64, u64>::empty(),
    {
        InputSeat {
            owner: None,
            label: String::new(),
            last: 0,
            drag_until: None,
            last_busy_notify: HashMapWithView::new(),
            origin: instant_now(),
        }
    }

    /// Asks for the seat at time `now`: busy when another live owner holds
    /// it (state unchanged, answer names that owner), else granted.
    pub fn acquire_at(&mut self, peer_id: u64, kind: InputKind, label: &str, now: u64) -> (r:
        SeatResult)
        ensures
            old(self)@.busy_for(peer_id, now) ==> final(self)@ == old(self)@ && (r matches SeatResult::Busy { who } && who@ == old(self)@.label),
            !old(self)@.busy_for(peer_id, now) ==> final(self)@ == old(self)@.granted(peer_id, kind, label@, now) && (r is Allowed),
    {
        let in_drag = match self.drag_until {
            Some(t) => now <= t,
            None => false,
        };
        let idle = if now >= self.last { now - self.last } else { 0 };
        let expired = self.owner.is_some() && idle > INPUT_SEAT_TTL_MS * 1_000_000 && !in_drag;
        if expired {
            self.owner = None;
            self.drag_until = None;
        } else if let Some(o) = self.owner {
            if o != peer_id {
                let who = string_of(crate::text::chars_of(self.label.as_str()).as_slice());
                return SeatResult::Busy { who };
            }
        }
        self.owner = Some(peer_id);
        self.label = string_of(crate::text::chars_of(label).as_slice());
        self.last = now;
        if kind == InputKind::Down {
            let g = DRAG_GRACE_MS * 1_000_000;
            self.drag_until = Some(if now <= u64::MAX - g { now + g } else { u64::MAX });
        }
        if kind == InputKind::Up {
            self.drag_until = None;
        }
        SeatResult::Allowed
    }

    /// Whether a busy notice to `peer_id` is due at `now` (at most one per
    /// interval); records the notice when it is.
    pub fn should_notify_busy_at(&mut self, peer_id: u64, now: u64) -> (r: bool)
        ensures
            r == old(self)@.notice_due(peer_id, now),
            r ==> final(self)@ == old(self)@.noticed(peer_id, now),
            !r ==> final(self)@ == old(self)@,
    {
        if let Some(last) = self.last_busy_notify.get(&peer_id) {
            let gap = if now >= *last { now - *last } else { 0 };
            if gap < INPUT_BUSY_NOTIFY_INTERVAL_MS * 1_000_000 {
                return false;
            }
        }
        self.last_busy_notify.insert(peer_id, now);
        true
    }

    /// Gives up the seat if `peer_id` holds it and forgets its notices.
    pub fn release(&mut self, peer_id: u64)
        ensures
            final(self)@ == old(self)@.released(peer_id),
    {
        if self.owner == Some(peer_id) {
            self.owner = None;
            self.drag_until = None;
        }
        let _ = self.last_busy_notify.remove(&peer_id);
        assert(self@.notified =~= old(self)@.notified.remove(peer_id));
    }

    /// [`InputSeat::acquire_at`] at the current time.
    pub fn acquire(&mut self, peer_id: u64, kind: InputKind, label: &str) -> (r: SeatResult)
        ensures
            exists|now: u64|
                {
                    &&& (old(self)@.busy_for(peer_id, now) ==> final(self)@ == old(self)@ && (r is Busy))
                    &&& (!old(self)@.busy_for(peer_id, now) ==> final(self)@ == old(self)@.granted(
                        peer_id,
                        kind,
                        label@,
                        now,
                    ) && (r is Allowed))
                },
    {
        let now = nanos_since(&self.origin);
        self.acquire_at(peer_id, kind, label, now)
    }

    /// [`InputSeat::should_notify_busy_at`] at the current time.
    pub fn should_notify_busy(&mut self, peer_id: u64) -> (r: bool)
        ensures
            exists|now: u64|
                {
                    &&& r == old(self)@.notice_due(peer_id, now)
                    &&& (r ==> final(self)@ == old(self)@.noticed(peer_id, now))
                    &&& (!r ==> final(self)@ == old(self)@)
                },
    {
        let now = nanos_since(&self.origin);
        self.should_notify_busy_at(peer_id, now)
    }
}

} // verus!

verus! {

/// While a live owner holds the seat, every other peer is refused.
pub proof fn lemma_seat_exclusive(s: SeatView, owner: u64, other: u64, now: u64)
    requires
        s.owner == Some(owner),
        !s.expired(now),
        other != owner,
    ensures
        s.busy_for(other, now),
{
}

/// The owner is never refused its own seat.
pub proof fn lemma_owner_keeps_seat(s: SeatView, owner: u64, now: u64)
    requires
        s.owner == Some(owner),
    ensures
        !s.busy_for(owner, now),
{
}

/// Once the owner releases the seat, any peer is granted it.
pub proof fn lemma_release_frees(s: SeatView, owner: u64, other: u64, now: u64)
    requires
        s.owner == Some(owner),
    ensures
        s.released(owner).owner is None,
        !s.released(owner).busy_for(other, now),
{
}

/// After a press is granted, the seat stays with the presser for the whole drag
/// grace period, however long the gap between events.
pub proof fn lemma_drag_grace_holds(
    s: SeatView,
    owner: u64,
    label: Seq<char>,
    t: u64,
    now: u64,
    other: u64,
)
    requires
        !s.busy_for(owner, t),
        t <= now <= sat_add(t, drag_grace()),
        other != owner,
    ensures
        s.granted(owner, InputKind::Down, label, t).busy_for(other, now),
{
}

/// A busy notice is not repeated to the same peer within the interval.
pub proof fn lemma_notice_rate_limited(s: SeatView, peer: u64, t1: u64, t2: u64)
    requires
        t1 <= t2,
        t2 - t1 < busy_interval(),
    ensures
        !s.noticed(peer, t1).notice_due(peer, t2),
{
}

/// A peer that was never noticed gets a notice.
pub proof fn lemma_first_notice_due(s: SeatView, peer: u64, now: u64)
    requires
        !s.notified.contains_key(peer),
    ensures
        s.notice_due(peer, now),
{
}

} // verus!
