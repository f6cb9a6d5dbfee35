//! Peer bookkeeping of the host: who is connected, which route each browser
//! views, and which routes have a capture task. A capture task carries a
//! generation number so that the exit of a task that was restarted does not
//! clear the marker of its successor.

use vstd::prelude::*;

use crate::pairs::{
    has_key, has_value, keys_distinct, lemma_has_value_map, lemma_pairs_absent, lemma_pairs_at,
    lemma_pairs_push, lemma_pairs_remove, lemma_pairs_update, pairs_map,
};
use crate::protocol::{ClientInfo, RouteId, WindowInfo};
use crate::text::{chars_of, dec, dec_chars, push_chars, push_str_chars, string_of};

verus! {

/// What the hub keeps of one connected browser.
pub struct PeerSlot {
    pub ip: String,
    /// Copy of the host clipboard is pushed after Cmd/Ctrl+C.
    pub clip_auto: bool,
}

/// Mathematical model of the hub.
pub struct HubView {
    /// Connected peers in registration order: id, address, clipboard flag.
    pub peers: Seq<(u64, (Seq<char>, bool))>,
    /// Route viewed by each peer.
    pub viewing: Map<u64, i64>,
    /// Generation of the capture task of each streaming route.
    pub streaming: Map<i64, u64>,
    pub next_id: u64,
    pub next_gen: u64,
}

impl HubView {
    pub open spec fn peer_map(self) -> Map<u64, (Seq<char>, bool)> {
        pairs_map(self.peers)
    }

    /// Some peer views `route`.
    pub open spec fn watched(self, route: i64) -> bool {
        exists|p: u64| #[trigger] self.viewing.contains_key(p) && self.viewing[p] == route
    }

    /// `route` loses its capture marker when nobody views it; the flag says
    /// whether it did (and the capture is to be stopped).
    pub open spec fn release_if_unused(self, route: i64) -> (HubView, bool) {
        if self.watched(route) {
            (self, false)
        } else {
            (HubView { streaming: self.streaming.remove(route), ..self }, true)
        }
    }

    /// State after `peer` starts viewing `route`, and whether the stream of
    /// the route it viewed before was released.
    pub open spec fn with_viewing(self, peer: u64, route: i64) -> (HubView, bool) {
        let h = HubView { viewing: self.viewing.insert(peer, route), ..self };
        if self.viewing.contains_key(peer) && self.viewing[peer] != route {
            h.release_if_unused(self.viewing[peer])
        } else {
            (h, false)
        }
    }

    /// State after a capture task is started for `route` (if none is marked).
    pub open spec fn marked(self, route: i64) -> (HubView, Option<u64>) {
        if self.streaming.contains_key(route) {
            (self, None)
        } else {
            (
                HubView {
                    streaming: self.streaming.insert(route, self.next_gen),
                    next_gen: self.next_gen.wrapping_add(1),
                    ..self
                },
                Some(self.next_gen),
            )
        }
    }

    /// State after the task of generation `gen` for `route` ended.
    pub open spec fn unmarked(self, route: i64, gen: u64) -> HubView {
        if self.streaming.contains_key(route) && self.streaming[route] == gen {
            HubView { streaming: self.streaming.remove(route), ..self }
        } else {
            self
        }
    }

    /// State after the clipboard flag of `peer` is set to `on`.
    pub open spec fn with_clip_auto(self, peer: u64, on: bool) -> HubView {
        HubView {
            peers: self.peers.map_values(
                |p: (u64, (Seq<char>, bool))|
                    if p.0 == peer {
                        (p.0, (p.1.0, on))
                    } else {
                        p
                    },
            ),
            ..self
        }
    }

    /// State after the marker of `route` is cleared unconditionally.
    pub open spec fn cleared(self, route: i64) -> HubView {
        HubView { streaming: self.streaming.remove(route), ..self }
    }
}

/// Label of a viewed window in the client list: `name — title`, or the name
/// alone for an untitled window.
pub open spec fn window_label(name: Seq<char>, title: Seq<char>) -> Seq<char> {
    if title.len() == 0 {
        name
    } else {
        name + " — "@ + title
    }
}

/// Index of the first window of `route` in `ws`, or `ws.len()`.
pub open spec fn first_window(ws: Seq<WindowInfo>, route: i64) -> int
    decreases ws.len(),
{
    if ws.len() == 0 {
        0
    } else if ws[0].id.0 == route {
        0
    } else {
        1 + first_window(ws.drop_first(), route)
    }
}

/// The "viewing" label of a peer that views `route`.
pub open spec fn viewing_label(ws: Seq<WindowInfo>, route: Option<i64>) -> Option<Seq<char>> {
    match route {
        Some(r) => {
            let i = first_window(ws, r);
            if i < ws.len() {
                Some(window_label(ws[i].name@, ws[i].title@))
            } else {
                None
            }
        },
        None => None,
    }
}

pub proof fn lemma_first_window(ws: Seq<WindowInfo>, route: i64)
    ensures
        0 <= first_window(ws, route) <= ws.len(),
        first_window(ws, route) < ws.len() ==> ws[first_window(ws, route)].id.0 == route,
        forall|j: int| 0 <= j < first_window(ws, route) ==> #[trigger] ws[j].id.0 != route,
    decreases ws.len(),
{
    if ws.len() > 0 && ws[0].id.0 != route {
        let t = ws.drop_first();
        lemma_first_window(t, route);
        assert forall|j: int| 0 <= j < first_window(ws, route) implies #[trigger] ws[j].id.0 != route by {
            if j > 0 {
                assert(ws[j] == t[j - 1]);
            }
        }
    }
}

/// Peer hub (the host keeps it under one lock).
pub struct PeerHub {
    peers: Vec<(u64, PeerSlot)>,
    viewing: Vec<(u64, i64)>,
    streaming: Vec<(i64, u64)>,
    next_id: u64,
    next_gen: u64,
}

pub open spec fn slot_view(p: (u64, PeerSlot)) -> (u64, (Seq<char>, bool)) {
    (p.0, (p.1.ip@, p.1.clip_auto))
}

impl View for PeerHub {
    type V = HubView;

    closed spec fn view(&self) -> HubView {
        HubView {
            peers: self.peers@.map_values(|p: (u64, PeerSlot)| slot_view(p)),
            viewing: pairs_map(self.viewing@),
            streaming: pairs_map(self.streaming@),
            next_id: self.next_id,
            next_gen: self.next_gen,
        }
    }
}

impl PeerHub {
    /// Well-formedness: no key occurs twice in any list.
    pub closed spec fn wf(&self) -> bool {
        &&& keys_distinct(self.peers@.map_values(|p: (u64, PeerSlot)| slot_view(p)))
        &&& keys_distinct(self.viewing@)
        &&& keys_distinct(self.streaming@)
    }

    /// A well-formed hub lists each peer once.
    pub proof fn lemma_wf_peers(&self)
        requires
            self.wf(),
        ensures
            keys_distinct(self@.peers),
    {
    }

    /// An empty hub; ids and generations start at 1.
    pub fn new() -> (h: PeerHub)
        ensures
            h.wf(),
            h@.peers.len() == 0,
            h@.viewing == Map::<u64, i64>::empty(),
            h@.streaming == Map::<i64, u64>::empty(),
            h@.next_id == 1,
            h@.next_gen == 1,
    {
        let h = PeerHub {
            peers: Vec::new(),
            viewing: Vec::new(),
            streaming: Vec::new(),
            next_id: 1,
            next_gen: 1,
        };
        assert(h@.peers =~= Seq::<(u64, (Seq<char>, bool))>::empty());
        assert(h@.viewing =~= Map::<u64, i64>::empty());
        assert(h@.streaming =~= Map::<i64, u64>::empty());
        h
    }

    /// A fresh peer id (the counter wraps as an atomic counter does).
    pub fn alloc_peer_id(&mut self) -> (id: u64)
        requires
            old(self).wf(),
        ensures
            final(self).wf(),
            id == old(self)@.next_id,
            final(self)@ == (HubView { next_id: old(self)@.next_id.wrapping_add(1), ..old(self)@ }),
    {
        let id = self.next_id;
        self.next_id = self.next_id.wrapping_add(1);
        id
    }

    fn find_peer(&self, id: u64) -> (r: Option<usize>)
        requires
            self.wf(),
        ensures
            match r {
                Some(i) => i < self.peers@.len() && self.peers@[i as int].0 == id,
                None => forall|i: int| 0 <= i < self.peers@.len() ==> #[trigger] self.peers@[i].0 != id,
            },
    {
        let mut i: usize = 0;
        while i < self.peers.len()
            invariant
                i <= self.peers@.len(),
                forall|j: int| 0 <= j < i ==> #[trigger] self.peers@[j].0 != id,
            decreases self.peers@.len() - i,
        {
            if self.peers[i].0 == id {
                return Some(i);
            }
            i += 1;
        }
        None
    }

    fn find_viewer(&self, id: u64) -> (r: Option<usize>)
        ensures
            match r {
                Some(i) => i < self.viewing@.len() && self.viewing@[i as int].0 == id,
                None => forall|i: int| 0 <= i < self.viewing@.len() ==> #[trigger] self.viewing@[i].0 != id,
            },
    {
        let mut i: usize = 0;
        while i < self.viewing.len()
            invariant
                i <= self.viewing@.len(),
                forall|j: int| 0 <= j < i ==> #[trigger] self.viewing@[j].0 != id,
            decreases self.viewing@.len() - i,
        {
            if self.viewing[i].0 == id {
                return Some(i);
            }
            i += 1;
        }
        None
    }

    fn find_stream(&self, route: i64) -> (r: Option<usize>)
        ensures
            match r {
                Some(i) => i < self.streaming@.len() && self.streaming@[i as int].0 == route,
                None => forall|i: int| 0 <= i < self.streaming@.len() ==> #[trigger] self.streaming@[i].0 != route,
            },
    {
        let mut i: usize = 0;
        while i < self.streaming.len()
            invariant
                i <= self.streaming@.len(),
                forall|j: int| 0 <= j < i ==> #[trigger] self.streaming@[j].0 != route,
            decreases self.streaming@.len() - i,
        {
            if self.streaming[i].0 == route {
                return Some(i);
            }
            i += 1;
        }
        None
    }

    /// Records a connected peer (a second registration of an id replaces
    /// the first).
    pub fn register_peer(&mut self, id: u64, ip: String)
        requires
            old(self).wf(),
        ensures
            final(self).wf(),
            final(self)@.peer_map() == old(self)@.peer_map().insert(id, (ip@, false)),
            final(self)@.viewing == old(self)@.viewing,
            final(self)@.streaming == old(self)@.streaming,
            final(self)@.next_id == old(self)@.next_id,
            final(self)@.next_gen == old(self)@.next_gen,
    {
        let ghost s0 = self.peers@.map_values(|p: (u64, PeerSlot)| slot_view(p));
        let ghost ipv = ip@;
        match self.find_peer(id) {
            Some(i) => {
                self.peers.set(i, (id, PeerSlot { ip, clip_auto: false }));
                proof {
                    lemma_pairs_update(s0, i as int, (ipv, false));
                    assert(self.peers@.map_values(|p: (u64, PeerSlot)| slot_view(p)) =~= s0.update(
                        i as int,
                        (s0[i as int].0, (ipv, false)),
                    ));
                }
            },
            None => {
                self.peers.push((id, PeerSlot { ip, clip_auto: false }));
                proof {
                    assert forall|j: int| 0 <= j < s0.len() implies #[trigger] s0[j].0 != id by {
                        assert(s0[j].0 == old(self).peers@[j].0);
                    }
                    lemma_pairs_absent(s0, id);
                    lemma_pairs_push(s0, id, (ipv, false));
                    assert(self.peers@.map_values(|p: (u64, PeerSlot)| slot_view(p)) =~= s0.push(
                        (id, (ipv, false)),
                    ));
                }
            },
        }
    }

    /// Sets the clipboard flag of a connected peer (no effect otherwise).
    pub fn set_clip_auto(&mut self, id: u64, on: bool)
        requires
            old(self).wf(),
        ensures
            final(self).wf(),
            final(self)@ == old(self)@.with_clip_auto(id, on),
            old(self)@.peer_map().contains_key(id) ==> final(self)@.peer_map() == old(
                self,
            )@.peer_map().insert(id, (old(self)@.peer_map()[id].0, on)),
            !old(self)@.peer_map().contains_key(id) ==> final(self)@.peer_map() == old(
                self,
            )@.peer_map(),
    {
        let ghost s0 = self.peers@.map_values(|p: (u64, PeerSlot)| slot_view(p));
        match self.find_peer(id) {
            Some(i) => {
                let ip = string_of(chars_of(self.peers[i].1.ip.as_str()).as_slice());
                let ghost ipv = ip@;
                proof {
                    lemma_pairs_at(s0, i as int);
                }
                self.peers.set(i, (id, PeerSlot { ip, clip_auto: on }));
                proof {
                    lemma_pairs_update(s0, i as int, (ipv, on));
                    assert(self.peers@.map_values(|p: (u64, PeerSlot)| slot_view(p)) =~= s0.update(
                        i as int,
                        (s0[i as int].0, (ipv, on)),
                    ));
                    assert(self@.peers =~= old(self)@.with_clip_auto(id, on).peers);
                }
            },
            None => {
                proof {
                    assert forall|j: int| 0 <= j < s0.len() implies #[trigger] s0[j].0 != id by {
                        assert(s0[j].0 == self.peers@[j].0);
                    }
                    lemma_pairs_absent(s0, id);
                    assert(self@.peers =~= old(self)@.with_clip_auto(id, on).peers);
                }
            },
        }
    }

    /// Clipboard flag of a peer (false for an unknown peer).
    pub fn peer_clip_auto(&self, id: u64) -> (r: bool)
        requires
            self.wf(),
        ensures
            r == (self@.peer_map().contains_key(id) && self@.peer_map()[id].1),
    {
        let ghost s0 = self.peers@.map_values(|p: (u64, PeerSlot)| slot_view(p));
        match self.find_peer(id) {
            Some(i) => {
                proof {
                    lemma_pairs_at(s0, i as int);
                }
                self.peers[i].1.clip_auto
            },
            None => {
                proof {
                    assert forall|j: int| 0 <= j < s0.len() implies #[trigger] s0[j].0 != id by {
                        assert(s0[j].0 == self.peers@[j].0);
                    }
                    lemma_pairs_absent(s0, id);
                }
                false
            },
        }
    }

    /// Route viewed by `id`.
    pub fn viewing_of(&self, id: u64) -> (r: Option<i64>)
        requires
            self.wf(),
        ensures
            r == (if self@.viewing.contains_key(id) {
                Some(self@.viewing[id])
            } else {
                None::<i64>
            }),
    {
        match self.find_viewer(id) {
            Some(i) => {
                proof {
                    lemma_pairs_at(self.viewing@, i as int);
                }
                Some(self.viewing[i].1)
            },
            None => {
                proof {
                    lemma_pairs_absent(self.viewing@, id);
                }
                None
            },
        }
    }

    /// Whether any peer views `route`.
    pub fn viewing_of_any(&self, route: i64) -> (r: bool)
        requires
            self.wf(),
        ensures
            r == self@.watched(route),
    {
        proof {
            lemma_has_value_map(self.viewing@, route);
        }
        let mut i: usize = 0;
        while i < self.viewing.len()
            invariant
                self.wf(),
                i <= self.viewing@.len(),
                forall|j: int| 0 <= j < i ==> #[trigger] self.viewing@[j].1 != route,
            decreases self.viewing@.len() - i,
        {
            if self.viewing[i].1 == route {
                proof {
                    lemma_pairs_at(self.viewing@, i as int);
                    assert(self@.viewing.contains_key(self.viewing@[i as int].0));
                }
                return true;
            }
            i += 1;
        }
        assert(!has_value(self.viewing@, route));
        false
    }

    fn remove_stream(&mut self, route: i64)
        requires
            old(self).wf(),
        ensures
            final(self).wf(),
            final(self)@ == (HubView { streaming: old(self)@.streaming.remove(route), ..old(self)@ }),
    {
        match self.find_stream(route) {
            Some(i) => {
                proof {
                    lemma_pairs_remove(self.streaming@, i as int);
                }
                self.streaming.remove(i);
            },
            None => {
                proof {
                    lemma_pairs_absent(self.streaming@, route);
                    assert(self@.streaming =~= old(self)@.streaming.remove(route));
                }
            },
        }
    }

    /// Drops the capture marker of `route` when no peer views it; true when
    /// it did (the capture is then to be stopped).
    pub fn release_stream_if_unused(&mut self, route: i64) -> (stop: bool)
        requires
            old(self).wf(),
        ensures
            final(self).wf(),
            (final(self)@, stop) == old(self)@.release_if_unused(route),
    {
        if self.viewing_of_any(route) {
            return false;
        }
        self.remove_stream(route);
        true
    }

    /// `id` now views `route`. Returns the route it viewed before, and
    /// whether that route's capture marker was dropped because nobody views
    /// it any more (the capture is then to be stopped).
    pub fn set_viewing(&mut self, id: u64, route: i64) -> (r: (Option<i64>, bool))
        requires
            old(self).wf(),
        ensures
            final(self).wf(),
            r.0 == (if old(self)@.viewing.contains_key(id) {
                Some(old(self)@.viewing[id])
            } else {
                None::<i64>
            }),
            (final(self)@, r.1) == old(self)@.with_viewing(id, route),
    {
        let prev = self.viewing_of(id);
        let ghost h0 = self@;
        match self.find_viewer(id) {
            Some(i) => {
                proof {
                    lemma_pairs_update(self.viewing@, i as int, route);
                }
                self.viewing.set(i, (id, route));
            },
            None => {
                proof {
                    lemma_pairs_absent(self.viewing@, id);
                    lemma_pairs_push(self.viewing@, id, route);
                }
                self.viewing.push((id, route));
            },
        }
        assert(self@ == (HubView { viewing: h0.viewing.insert(id, route), ..h0 }));
        match prev {
            Some(p) => {
                if p != route {
                    let stop = self.release_stream_if_unused(p);
                    (prev, stop)
                } else {
                    (prev, false)
                }
            },
            None => (prev, false),
        }
    }

    /// Forgets a peer and the route it viewed. Returns that route and
    /// whether its capture marker was dropped (capture to be stopped).
    pub fn unregister_peer(&mut self, id: u64) -> (r: (Option<i64>, bool))
        requires
            old(self).wf(),
        ensures
            final(self).wf(),
            r.0 == (if old(self)@.viewing.contains_key(id) {
                Some(old(self)@.viewing[id])
            } else {
                None::<i64>
            }),
            final(self)@.peer_map() == old(self)@.peer_map().remove(id),
            final(self)@.viewing == old(self)@.viewing.remove(id),
            final(self)@.next_id == old(self)@.next_id,
            final(self)@.next_gen == old(self)@.next_gen,
            ({
                let h = HubView {
                    peers: final(self)@.peers,
                    viewing: old(self)@.viewing.remove(id),
                    ..old(self)@
                };
                match r.0 {
                    Some(route) => (final(self)@, r.1) == h.release_if_unused(route),
                    None => final(self)@ == h && !r.1,
                }
            }),
    {
        let ghost s0 = self.peers@.map_values(|p: (u64, PeerSlot)| slot_view(p));
        match self.find_peer(id) {
            Some(i) => {
                proof {
                    lemma_pairs_remove(s0, i as int);
                }
                self.peers.remove(i);
                proof {
                    assert(self.peers@.map_values(|p: (u64, PeerSlot)| slot_view(p)) =~= s0.remove(
                        i as int,
                    ));
                }
            },
            None => {
                proof {
                    assert forall|j: int| 0 <= j < s0.len() implies #[trigger] s0[j].0 != id by {
                        assert(s0[j].0 == self.peers@[j].0);
                    }
                    lemma_pairs_absent(s0, id);
                    assert(pairs_map(s0) =~= pairs_map(s0).remove(id));
                }
            },
        }
        let prev = self.viewing_of(id);
        match self.find_viewer(id) {
            Some(i) => {
                proof {
                    lemma_pairs_remove(self.viewing@, i as int);
                }
                self.viewing.remove(i);
            },
            None => {
                proof {
                    lemma_pairs_absent(self.viewing@, id);
                    assert(pairs_map(self.viewing@) =~= pairs_map(self.viewing@).remove(id));
                }
            },
        }
        match prev {
            Some(route) => {
                let stop = self.release_stream_if_unused(route);
                (prev, stop)
            },
            None => (prev, false),
        }
    }

    /// Marks `route` as streaming with a fresh generation, unless a task is
    /// already marked (then `None`: no task is to be started).
    pub fn mark_streaming(&mut self, route: i64) -> (r: Option<u64>)
        requires
            old(self).wf(),
        ensures
            final(self).wf(),
            (final(self)@, r) == old(self)@.marked(route),
    {
        match self.find_stream(route) {
            Some(i) => {
                proof {
                    lemma_pairs_at(self.streaming@, i as int);
                }
                None
            },
            None => {
                let gen = self.next_gen;
                proof {
                    lemma_pairs_absent(self.streaming@, route);
                    lemma_pairs_push(self.streaming@, route, gen);
                }
                self.streaming.push((route, gen));
                self.next_gen = self.next_gen.wrapping_add(1);
                Some(gen)
            },
        }
    }

    /// The capture task of generation `gen` ended: its marker is dropped
    /// unless a newer task took its place.
    pub fn unmark_streaming(&mut self, route: i64, gen: u64)
        requires
            old(self).wf(),
        ensures
            final(self).wf(),
            final(self)@ == old(self)@.unmarked(route, gen),
    {
        match self.find_stream(route) {
            Some(i) => {
                proof {
                    lemma_pairs_at(self.streaming@, i as int);
                }
                if self.streaming[i].1 == gen {
                    proof {
                        lemma_pairs_remove(self.streaming@, i as int);
                    }
                    self.streaming.remove(i);
                }
            },
            None => {
                proof {
                    lemma_pairs_absent(self.streaming@, route);
                }
            },
        }
    }

    /// Drops the marker of `route` whatever its generation (before a restart).
    pub fn clear_streaming(&mut self, route: i64)
        requires
            old(self).wf(),
        ensures
            final(self).wf(),
            final(self)@ == old(self)@.cleared(route),
    {
        self.remove_stream(route);
    }

    /// Ids of the connected peers that view `route`, in registration order.
    pub fn viewers_of(&self, route: i64) -> (r: Vec<u64>)
        requires
            self.wf(),
        ensures
            r@ == self@.peers.filter(
                |p: (u64, (Seq<char>, bool))|
                    self@.viewing.contains_key(p.0) && self@.viewing[p.0] == route,
            ).map_values(|p: (u64, (Seq<char>, bool))| p.0),
    {
        let ghost pv = self@.peers;
        let ghost f = |p: (u64, (Seq<char>, bool))|
            self@.viewing.contains_key(p.0) && self@.viewing[p.0] == route;
        let mut out: Vec<u64> = Vec::new();
        let mut i: usize = 0;
        while i < self.peers.len()
            invariant
                self.wf(),
                i <= self.peers@.len(),
                pv == self@.peers,
                pv.len() == self.peers@.len(),
                f == (|p: (u64, (Seq<char>, bool))|
                    self@.viewing.contains_key(p.0) && self@.viewing[p.0] == route),
                out@ == pv.take(i as int).filter(f).map_values(|p: (u64, (Seq<char>, bool))| p.0),
            decreases self.peers@.len() - i,
        {
            let id = self.peers[i].0;
            let v = self.viewing_of(id);
            proof {
                assert(pv[i as int] == slot_view(self.peers@[i as int]));
                assert(pv.take(i as int + 1).drop_last() =~= pv.take(i as int));
                reveal(Seq::filter);
            }
            let hit = match v {
                Some(r) => r == route,
                None => false,
            };
            if hit {
                out.push(id);
            }
            proof {
                assert(pv.take(i as int + 1).last() == pv[i as int]);
            }
            i += 1;
        }
        proof {
            assert(pv.take(pv.len() as int) =~= pv);
        }
        out
    }

    /// Ids of all connected peers, in registration order.
    pub fn peer_ids(&self) -> (r: Vec<u64>)
        ensures
            r@ == self@.peers.map_values(|p: (u64, (Seq<char>, bool))| p.0),
    {
        let mut out: Vec<u64> = Vec::new();
        let mut i: usize = 0;
        while i < self.peers.len()
            invariant
                i <= self.peers@.len(),
                out@ =~= self@.peers.take(i as int).map_values(|p: (u64, (Seq<char>, bool))| p.0),
            decreases self.peers@.len() - i,
        {
            out.push(self.peers[i].0);
            i += 1;
        }
        assert(self@.peers.take(self@.peers.len() as int) =~= self@.peers);
        out
    }
}


/// `Some(s@)` of an optional string.
pub open spec fn opt_string(o: Option<String>) -> Option<Seq<char>> {
    match o {
        Some(s) => Some(s@),
        None => None,
    }
}

/// Route viewed by `peer` in `h`.
pub open spec fn viewed_by(h: HubView, peer: u64) -> Option<i64> {
    if h.viewing.contains_key(peer) {
        Some(h.viewing[peer])
    } else {
        None
    }
}

/// One row of the client list, as the browser shows it.
pub open spec fn client_row_ok(h: HubView, ws: Seq<WindowInfo>, p: (u64, (Seq<char>, bool)), c: ClientInfo) -> bool {
    &&& c.id@ == dec(p.0 as nat)
    &&& c.ip@ == p.1.0
    &&& c.window_id == (match viewed_by(h, p.0) {
        Some(r) => Some(RouteId(r)),
        None => None::<RouteId>,
    })
    &&& opt_string(c.viewing) == viewing_label(ws, viewed_by(h, p.0))
}

fn window_label_exec(name: &str, title: &str) -> (r: String)
    ensures
        r@ == window_label(name@, title@),
{
    let t = chars_of(title);
    let mut out = chars_of(name);
    if t.len() > 0 {
        push_str_chars(&mut out, " — ");
        push_chars(&mut out, t.as_slice());
    }
    string_of(out.as_slice())
}

fn viewing_label_exec(ws: &[WindowInfo], route: Option<i64>) -> (r: Option<String>)
    ensures
        opt_string(r) == viewing_label(ws@, route),
{
    match route {
        None => None,
        Some(rt) => {
            proof {
                lemma_first_window(ws@, rt);
            }
            let mut i: usize = 0;
            while i < ws.len()
                invariant
                    route == Some(rt),
                    i <= ws@.len(),
                    0 <= first_window(ws@, rt) <= ws@.len(),
                    first_window(ws@, rt) < ws@.len() ==> ws@[first_window(ws@, rt)].id.0 == rt,
                    forall|j: int| 0 <= j < first_window(ws@, rt) ==> #[trigger] ws@[j].id.0 != rt,
                    forall|j: int| 0 <= j < i ==> #[trigger] ws@[j].id.0 != rt,
                decreases ws@.len() - i,
            {
                if ws[i].id.0 == rt {
                    assert(first_window(ws@, rt) == i);
                    let w = &ws[i];
                    let l = window_label_exec(w.name.as_str(), w.title.as_str());
                    assert(l@ == window_label(ws@[i as int].name@, ws@[i as int].title@));
                    return Some(l);
                }
                i += 1;
            }
            assert(first_window(ws@, rt) == ws@.len());
            None
        },
    }
}

impl PeerHub {
    /// Rows of the client list: every connected peer with its address and
    /// the window it views, labelled from `windows`.
    pub fn client_rows(&self, windows: &[WindowInfo]) -> (r: Vec<ClientInfo>)
        requires
            self.wf(),
        ensures
            r@.len() == self@.peers.len(),
            forall|i: int| 0 <= i < r@.len() ==> #[trigger] client_row_ok(self@, windows@, self@.peers[i], r@[i]),
    {
        let mut out: Vec<ClientInfo> = Vec::new();
        let mut i: usize = 0;
        while i < self.peers.len()
            invariant
                self.wf(),
                i <= self.peers@.len(),
                out@.len() == i,
                forall|j: int| 0 <= j < i ==> #[trigger] client_row_ok(self@, windows@, self@.peers[j], out@[j]),
            decreases self.peers@.len() - i,
        {
            let id = self.peers[i].0;
            let win = self.viewing_of(id);
            let viewing = viewing_label_exec(windows, win);
            let idc = dec_chars(id);
            let row = ClientInfo {
                id: string_of(idc.as_slice()),
                ip: string_of(chars_of(self.peers[i].1.ip.as_str()).as_slice()),
                viewing,
                window_id: match win {
                    Some(r) => Some(RouteId(r)),
                    None => None,
                },
            };
            proof {
                assert(self@.peers[i as int] == slot_view(self.peers@[i as int]));
            }
            let ghost before = out@;
            out.push(row);
            proof {
                assert forall|j: int| 0 <= j < i + 1 implies #[trigger] client_row_ok(self@, windows@, self@.peers[j], out@[j]) by {
                    if j < i {
                        assert(out@[j] == before[j]);
                    }
                }
            }
            i += 1;
        }
        out
    }
}

/// After a peer selects a route, the hub reports that route as the one it views.
pub proof fn lemma_viewing_reads_back(h: HubView, peer: u64, route: i64)
    ensures
        viewed_by(h.with_viewing(peer, route).0, peer) == Some(route),
{
}

/// A route that some peer still views keeps its capture: releasing it is a no-op.
pub proof fn lemma_release_keeps_watched(h: HubView, route: i64)
    requires
        h.watched(route),
    ensures
        h.release_if_unused(route) == (h, false),
{
}

/// Restart safety: after a restart (clear, then mark anew) the task started
/// before the restart cannot clear its successor's marker when it exits.
pub proof fn lemma_restart_safe_unmark(h: HubView, route: i64)
    requires
        h.streaming.contains_key(route),
        h.streaming[route] < h.next_gen,
    ensures
        ({
            let old_gen = h.streaming[route];
            let (h2, g) = h.cleared(route).marked(route);
            &&& g == Some(h.next_gen)
            &&& h2.unmarked(route, old_gen) == h2
            &&& h2.streaming[route] == h.next_gen
        }),
{
}

/// The task that holds the current marker clears it when it exits.
pub proof fn lemma_current_task_unmarks(h: HubView, route: i64)
    requires
        !h.streaming.contains_key(route),
    ensures
        ({
            let (h2, g) = h.marked(route);
            &&& g == Some(h.next_gen)
            &&& !h2.unmarked(route, h.next_gen).streaming.contains_key(route)
        }),
{
}

/// A route already marked is not started twice.
pub proof fn lemma_mark_once(h: HubView, route: i64)
    ensures
        h.marked(route).0.marked(route).1 is None,
{
}

/// Some window of `ws` belongs to `pid`.
pub open spec fn pid_listed(ws: Seq<WindowInfo>, pid: i32) -> bool {
    exists|i: int| 0 <= i < ws.len() && #[trigger] ws[i].pid == pid
}

/// Some entry of `ws` is route `route`.
pub open spec fn route_listed(ws: Seq<WindowInfo>, route: i64) -> bool {
    exists|i: int| 0 <= i < ws.len() && #[trigger] ws[i].id.0 == route
}

/// Whether `pid` owns a window of the current list (`None`: the list could
/// not be read). No pid at or below 0 is ever counted as listed.
pub fn pid_in_window_list(list: Option<&[WindowInfo]>, pid: i32) -> (r: bool)
    ensures
        r == (pid > 0 && match list {
            Some(l) => pid_listed(l@, pid),
            None => false,
        }),
{
    if pid <= 0 {
        return false;
    }
    let l = match list {
        Some(l) => l,
        None => return false,
    };
    let mut i: usize = 0;
    while i < l.len()
        invariant
            i <= l@.len(),
            pid > 0,
            list == Some(l),
            forall|j: int| 0 <= j < i ==> #[trigger] l@[j].pid != pid,
        decreases l@.len() - i,
    {
        if l[i].pid == pid {
            assert(l@[i as int].pid == pid);
            return true;
        }
        i += 1;
    }
    false
}

/// Whether route `route` (window or display) is in the current list
/// (`None`: the list could not be read).
pub fn route_in_window_list(list: Option<&[WindowInfo]>, route: i64) -> (r: bool)
    ensures
        r == match list {
            Some(l) => route_listed(l@, route),
            None => false,
        },
{
    let l = match list {
        Some(l) => l,
        None => return false,
    };
    let mut i: usize = 0;
    while i < l.len()
        invariant
            i <= l@.len(),
            list == Some(l),
            forall|j: int| 0 <= j < i ==> #[trigger] l@[j].id.0 != route,
        decreases l@.len() - i,
    {
        if l[i].id.0 == route {
            assert(l@[i as int].id.0 == route);
            return true;
        }
        i += 1;
    }
    false
}

/// Owner pid of the first window of `route` in `ws`.
pub open spec fn listed_pid(ws: Seq<WindowInfo>, route: i64) -> Option<i32> {
    let i = first_window(ws, route);
    if i < ws.len() {
        Some(ws[i].pid)
    } else {
        None
    }
}

/// Owner pid of route `route` as the window list gives it: none for a
/// display route, nor when the list could not be read (`None`) or lacks it.
pub fn pid_for_route(list: Option<&[WindowInfo]>, route: RouteId) -> (r: Option<i32>)
    ensures
        r == (if crate::route::spec_is_display_route(route.0) {
            None
        } else {
            match list {
                Some(l) => listed_pid(l@, route.0),
                None => None,
            }
        }),
{
    if crate::route::is_display_route(route) {
        return None;
    }
    let ws = match list {
        Some(l) => l,
        None => return None,
    };
    let rt = route.0;
    proof {
        lemma_first_window(ws@, rt);
    }
    let mut i: usize = 0;
    while i < ws.len()
        invariant
            list == Some(ws),
            rt == route.0,
            !crate::route::spec_is_display_route(route.0),
            i <= ws@.len(),
            0 <= first_window(ws@, rt) <= ws@.len(),
            first_window(ws@, rt) < ws@.len() ==> ws@[first_window(ws@, rt)].id.0 == rt,
            forall|j: int| 0 <= j < first_window(ws@, rt) ==> #[trigger] ws@[j].id.0 != rt,
            forall|j: int| 0 <= j < i ==> #[trigger] ws@[j].id.0 != rt,
        decreases ws@.len() - i,
    {
        if ws[i].id.0 == rt {
            assert(first_window(ws@, rt) == i);
            return Some(ws[i].pid);
        }
        i += 1;
    }
    assert(first_window(ws@, rt) == ws@.len());
    None
}

} // verus!
