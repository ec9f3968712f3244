//! The membership table: the peers a node knows, unique by identifier,
//! never the node itself, and never more than a fixed number.

use crate::identity::{PeerId, PeerIdView};
use vstd::prelude::*;
use vstd::std_specs::cmp::PartialEqSpecImpl;

verus! {

/// A point in time: seconds since the Unix epoch and nanoseconds within
/// the second.
#[derive(Clone, Copy, Debug, PartialEq, Eq, Structural)]
pub struct Timestamp {
    pub secs: i64,
    pub nanos: u32,
}

/// Reads the system clock with `std::time::SystemTime::now` and converts
/// the reading with chrono's `From<SystemTime>` for `DateTime<Utc>`, then
/// takes `timestamp` and `timestamp_subsec_nanos` of it. A clock set
/// before 1970 gives negative seconds. Trusted: nothing is claimed of the
/// reading, which differs from call to call.
#[verifier::external_body]
pub(crate) fn now() -> (at: Timestamp) {
    let at = chrono::DateTime::<chrono::Utc>::from(std::time::SystemTime::now());
    Timestamp { secs: at.timestamp(), nanos: at.timestamp_subsec_nanos() }
}

/// An entry in a `PeerStore`.
#[derive(Debug)]
pub struct PeerStoreEntry {
    last_seen: Option<Timestamp>,
    id: PeerId,
}

/// What a `PeerStoreEntry` holds.
pub ghost struct EntryView {
    pub last_seen: Option<Timestamp>,
    pub id: PeerIdView,
}

impl View for PeerStoreEntry {
    type V = EntryView;

    closed spec fn view(&self) -> EntryView {
        EntryView { last_seen: self.last_seen, id: self.id@ }
    }
}

impl Clone for PeerStoreEntry {
    fn clone(&self) -> (copy: Self)
        ensures
            copy@ == self@,
    {
        PeerStoreEntry { last_seen: self.last_seen, id: self.id.clone() }
    }
}

impl PartialEq for PeerStoreEntry {
    /// Entries are the same when they are about the same peer; when the
    /// peer was last seen takes no part.
    fn eq(&self, other: &Self) -> (same: bool) {
        self.id == other.id
    }
}

impl PartialEqSpecImpl for PeerStoreEntry {
    open spec fn obeys_eq_spec() -> bool {
        true
    }

    open spec fn eq_spec(&self, other: &Self) -> bool {
        self@.id.id == other@.id.id
    }
}

impl Eq for PeerStoreEntry {

}

impl PeerStoreEntry {
    /// A fresh entry for `id`, not seen yet.
    pub fn new(id: PeerId) -> (entry: Self)
        ensures
            entry@ == (EntryView { last_seen: None, id: id@ }),
    {
        PeerStoreEntry { last_seen: None, id }
    }

    /// An entry from its stored parts.
    pub fn from_parts(id: PeerId, last_seen: Option<Timestamp>) -> (entry: Self)
        ensures
            entry@ == (EntryView { last_seen, id: id@ }),
    {
        PeerStoreEntry { last_seen, id }
    }

    /// The peer this entry is about.
    pub fn id(&self) -> (id: &PeerId)
        ensures
            id@ == self@.id,
    {
        &self.id
    }

    /// When the peer last re-affirmed that it is alive, if it ever did.
    pub fn last_seen(&self) -> (at: Option<Timestamp>)
        ensures
            at == self@.last_seen,
    {
        self.last_seen
    }
}

/// The views of a sequence of entries, in order.
pub open spec fn entry_views(entries: Seq<PeerStoreEntry>) -> Seq<EntryView> {
    Seq::new(entries.len(), |i: int| entries[i]@)
}

/// The index of the first entry with identifier `id`, or the length of
/// `entries` when there is none.
pub open spec fn position(entries: Seq<EntryView>, id: Seq<char>) -> int
    decreases entries.len(),
{
    if entries.len() == 0 {
        0
    } else {
        let before = position(entries.drop_last(), id);
        if before < entries.len() - 1 {
            before
        } else if entries.last().id.id == id {
            entries.len() - 1
        } else {
            entries.len() as int
        }
    }
}

/// `position` is the least index that holds `id`.
pub proof fn lemma_position(entries: Seq<EntryView>, id: Seq<char>)
    ensures
        0 <= position(entries, id) <= entries.len(),
        position(entries, id) < entries.len() ==> entries[position(entries, id)].id.id == id,
        forall|j: int| 0 <= j < position(entries, id) ==> (#[trigger] entries[j]).id.id != id,
    decreases entries.len(),
{
    if entries.len() > 0 {
        lemma_position(entries.drop_last(), id);
        assert forall|j: int| 0 <= j < position(entries, id) implies (#[trigger] entries[j]).id.id
            != id by {
            if j < entries.len() - 1 {
                assert(entries[j] == entries.drop_last()[j]);
            }
        }
    }
}

/// An index that holds `id`, with no earlier one that does, is `position`.
pub proof fn lemma_position_is(entries: Seq<EntryView>, id: Seq<char>, at: int)
    requires
        0 <= at <= entries.len(),
        at < entries.len() ==> entries[at].id.id == id,
        forall|j: int| 0 <= j < at ==> (#[trigger] entries[j]).id.id != id,
    ensures
        position(entries, id) == at,
{
    lemma_position(entries, id);
    let p = position(entries, id);
    if p < at {
        assert(entries[p].id.id == id);
    }
}

/// What a `PeerStore` holds: whose table it is, how many entries it may
/// keep, and the entries in the order in which they joined.
pub ghost struct PeerStoreView {
    pub local: PeerIdView,
    pub capacity: nat,
    pub entries: Seq<EntryView>,
}

impl PeerStoreView {
    /// The table's invariant: it is within its capacity, the local node is
    /// not a member, and no two entries share an identifier.
    pub open spec fn wf(self) -> bool {
        &&& self.entries.len() <= self.capacity
        &&& forall|i: int|
            0 <= i < self.entries.len() ==> (#[trigger] self.entries[i]).id.id != self.local.id
        &&& forall|i: int, j: int|
            0 <= i < j < self.entries.len() ==> (#[trigger] self.entries[i]).id.id != (
            #[trigger] self.entries[j]).id.id
    }

    /// Whether some entry has identifier `id`.
    pub open spec fn has(self, id: Seq<char>) -> bool {
        exists|i: int| 0 <= i < self.entries.len() && (#[trigger] self.entries[i]).id.id == id
    }

    /// Whether adding `peer` would insert a new entry: it is not the local
    /// node, there is room, and it is not a member yet.
    pub open spec fn admits(self, peer: PeerIdView) -> bool {
        peer.id != self.local.id && self.entries.len() < self.capacity && !self.has(peer.id)
    }

    /// Whether adding `peer` would refresh an entry: it is not the local
    /// node, the table is not full, and it is a member already. Only then
    /// does an add need to know the time.
    pub open spec fn refreshes(self, peer: PeerIdView) -> bool {
        peer.id != self.local.id && self.entries.len() < self.capacity && self.has(peer.id)
    }

    /// The table after `peer` was added at time `now`. The local node and
    /// a full table leave it unchanged; a member has its `last_seen` set to
    /// `now` and keeps the identity it was stored with; anyone else is
    /// appended, not yet seen.
    pub open spec fn add(self, peer: PeerIdView, now: Timestamp) -> PeerStoreView {
        let at = position(self.entries, peer.id);
        if peer.id == self.local.id || self.entries.len() >= self.capacity {
            self
        } else if at < self.entries.len() {
            PeerStoreView {
                local: self.local,
                capacity: self.capacity,
                entries: self.entries.update(
                    at,
                    EntryView { last_seen: Some(now), id: self.entries[at].id },
                ),
            }
        } else {
            PeerStoreView {
                local: self.local,
                capacity: self.capacity,
                entries: self.entries.push(EntryView { last_seen: None, id: peer }),
            }
        }
    }

    /// The table after the entry with identifier `id` was removed, if any.
    pub open spec fn remove(self, id: Seq<char>) -> PeerStoreView {
        let at = position(self.entries, id);
        if at < self.entries.len() {
            PeerStoreView {
                local: self.local,
                capacity: self.capacity,
                entries: self.entries.remove(at),
            }
        } else {
            self
        }
    }
}

/// `has` holds exactly when `position` points at an entry.
pub proof fn lemma_has_position(store: PeerStoreView, id: Seq<char>)
    ensures
        store.has(id) <==> position(store.entries, id) < store.entries.len(),
{
    lemma_position(store.entries, id);
    if store.has(id) {
        let i = choose|i: int|
            0 <= i < store.entries.len() && (#[trigger] store.entries[i]).id.id == id;
        if position(store.entries, id) >= store.entries.len() {
            assert(store.entries[i].id.id != id);
        }
    }
}

/// An add that refreshes nothing does not depend on the time.
pub proof fn lemma_add_timeless(
    store: PeerStoreView,
    peer: PeerIdView,
    first: Timestamp,
    second: Timestamp,
)
    requires
        !store.refreshes(peer),
    ensures
        store.add(peer, first) == store.add(peer, second),
{
    lemma_position(store.entries, peer.id);
    lemma_has_position(store, peer.id);
}

/// Adding grows the table by one entry when the peer newly joins, and
/// leaves its size alone otherwise.
pub proof fn lemma_add_len(store: PeerStoreView, peer: PeerIdView, now: Timestamp)
    ensures
        store.add(peer, now).entries.len() == store.entries.len() + if store.admits(peer) {
            1int
        } else {
            0int
        },
{
    lemma_position(store.entries, peer.id);
    lemma_has_position(store, peer.id);
}

/// Adding keeps the table's invariant.
pub proof fn lemma_add_wf(store: PeerStoreView, peer: PeerIdView, now: Timestamp)
    requires
        store.wf(),
    ensures
        store.add(peer, now).wf(),
{
    lemma_position(store.entries, peer.id);
    let after = store.add(peer, now);
    let at = position(store.entries, peer.id);
    if peer.id == store.local.id || store.entries.len() >= store.capacity {
    } else if at < store.entries.len() {
        assert forall|i: int| 0 <= i < after.entries.len() implies (
        #[trigger] after.entries[i]).id.id == store.entries[i].id.id by {}
        assert forall|i: int, j: int| 0 <= i < j < after.entries.len() implies (
        #[trigger] after.entries[i]).id.id != (#[trigger] after.entries[j]).id.id by {
            assert(store.entries[i].id.id != store.entries[j].id.id);
        }
        assert forall|i: int| 0 <= i < after.entries.len() implies (
        #[trigger] after.entries[i]).id.id != after.local.id by {
            assert(store.entries[i].id.id != store.local.id);
        }
    } else {
        assert forall|i: int, j: int| 0 <= i < j < after.entries.len() implies (
        #[trigger] after.entries[i]).id.id != (#[trigger] after.entries[j]).id.id by {
            if j < store.entries.len() {
                assert(store.entries[i].id.id != store.entries[j].id.id);
            } else {
                assert(store.entries[i].id.id != peer.id);
            }
        }
        assert forall|i: int| 0 <= i < after.entries.len() implies (
        #[trigger] after.entries[i]).id.id != after.local.id by {
            if i < store.entries.len() {
                assert(store.entries[i].id.id != store.local.id);
            }
        }
    }
}

/// Who is a member after an add: whoever was one before, and the peer
/// that was added if it newly joined.
pub proof fn lemma_add_has(store: PeerStoreView, peer: PeerIdView, now: Timestamp, id: Seq<char>)
    ensures
        store.add(peer, now).has(id) <==> store.has(id) || (store.admits(peer) && id == peer.id),
{
    lemma_position(store.entries, peer.id);
    lemma_has_position(store, peer.id);
    let after = store.add(peer, now);
    let at = position(store.entries, peer.id);
    if peer.id == store.local.id || store.entries.len() >= store.capacity {
    } else if at < store.entries.len() {
        if store.has(id) {
            let i = choose|i: int|
                0 <= i < store.entries.len() && (#[trigger] store.entries[i]).id.id == id;
            assert(after.entries[i].id.id == id);
        }
        if after.has(id) {
            let i = choose|i: int|
                0 <= i < after.entries.len() && (#[trigger] after.entries[i]).id.id == id;
            assert(store.entries[i].id.id == id);
        }
    } else {
        if store.has(id) {
            let i = choose|i: int|
                0 <= i < store.entries.len() && (#[trigger] store.entries[i]).id.id == id;
            assert(after.entries[i].id.id == id);
        }
        if id == peer.id {
            assert(after.entries[store.entries.len() as int].id.id == id);
        }
        if after.has(id) {
            let i = choose|i: int|
                0 <= i < after.entries.len() && (#[trigger] after.entries[i]).id.id == id;
            if i < store.entries.len() {
                assert(store.entries[i].id.id == id);
            }
        }
    }
}

/// The local node is never admitted to its own table: adding it changes
/// nothing, and a well-formed table does not hold it.
pub proof fn lemma_self_excluded(store: PeerStoreView, now: Timestamp)
    ensures
        !store.admits(store.local),
        store.add(store.local, now) == store,
        store.wf() ==> !store.has(store.local.id),
{
}

/// Joining twice counts once: after a peer was added, adding it again
/// never reports a new join, and if the first add was a new join the two
/// adds together grow the table by exactly one entry.
pub proof fn lemma_add_twice(
    store: PeerStoreView,
    peer: PeerIdView,
    first: Timestamp,
    second: Timestamp,
)
    ensures
        !store.add(peer, first).admits(peer),
        store.admits(peer) ==> store.add(peer, first).add(peer, second).entries.len()
            == store.entries.len() + 1,
{
    lemma_add_has(store, peer, first, peer.id);
    lemma_add_len(store, peer, first);
    lemma_add_len(store.add(peer, first), peer, second);
}

/// A full table takes nobody in: an add leaves it as it is and reports
/// no new join. With the invariant, the size never exceeds the capacity.
pub proof fn lemma_full_rejects(store: PeerStoreView, peer: PeerIdView, now: Timestamp)
    requires
        store.entries.len() >= store.capacity,
    ensures
        !store.admits(peer),
        store.add(peer, now) == store,
        store.wf() ==> store.add(peer, now).entries.len() <= store.capacity,
{
}

/// The table after each of `peers` was added in turn, the `k`-th at time
/// `times[k]`.
pub open spec fn add_all(store: PeerStoreView, peers: Seq<PeerIdView>, times: Seq<Timestamp>)
    -> PeerStoreView
    decreases peers.len(),
{
    if peers.len() == 0 || times.len() != peers.len() {
        store
    } else {
        add_all(store, peers.drop_last(), times.drop_last()).add(peers.last(), times.last())
    }
}

/// Whether `peers` are all new to the table and to each other: none is
/// the local node, none is a member, and no two share an identifier.
pub open spec fn newcomers(store: PeerStoreView, peers: Seq<PeerIdView>) -> bool {
    &&& forall|k: int| 0 <= k < peers.len() ==> (#[trigger] peers[k]).id != store.local.id
    &&& forall|k: int| 0 <= k < peers.len() ==> !store.has((#[trigger] peers[k]).id)
    &&& forall|j: int, k: int|
        0 <= j < k < peers.len() ==> (#[trigger] peers[j]).id != (#[trigger] peers[k]).id
}

/// No join is lost: when newcomers that fit in the table are added one
/// after the other, in whatever order they arrive, every one of them
/// newly joins, and the table ends up larger by their number.
pub proof fn lemma_no_lost_joins(
    store: PeerStoreView,
    peers: Seq<PeerIdView>,
    times: Seq<Timestamp>,
)
    requires
        store.wf(),
        times.len() == peers.len(),
        newcomers(store, peers),
        store.entries.len() + peers.len() <= store.capacity,
    ensures
        forall|k: int|
            0 <= k < peers.len() ==> add_all(store, peers.take(k), times.take(k)).admits(
                #[trigger] peers[k],
            ),
        add_all(store, peers, times).entries.len() == store.entries.len() + peers.len(),
        add_all(store, peers, times).wf(),
        add_all(store, peers, times).local == store.local,
        add_all(store, peers, times).capacity == store.capacity,
        forall|id: Seq<char>|
            add_all(store, peers, times).has(id) <==> store.has(id) || exists|k: int|
                0 <= k < peers.len() && (#[trigger] peers[k]).id == id,
    decreases peers.len(),
{
    if peers.len() == 0 {
        assert(peers.take(0) =~= peers);
    } else {
        let front = peers.drop_last();
        let front_times = times.drop_last();
        let last = peers.last();
        let m = peers.len() - 1;
        assert forall|k: int| 0 <= k < front.len() implies (#[trigger] front[k]).id
            != store.local.id by {
            assert(front[k] == peers[k]);
        }
        assert forall|k: int| 0 <= k < front.len() implies !store.has((#[trigger] front[k]).id) by {
            assert(front[k] == peers[k]);
        }
        assert forall|j: int, k: int| 0 <= j < k < front.len() implies (#[trigger] front[j]).id != (
        #[trigger] front[k]).id by {
            assert(front[j] == peers[j]);
            assert(front[k] == peers[k]);
        }
        lemma_no_lost_joins(store, front, front_times);
        let before = add_all(store, front, front_times);
        assert(add_all(store, peers, times) == before.add(last, times.last()));
        assert(last == peers[m]);
        assert(!before.has(last.id)) by {
            if before.has(last.id) {
                assert(!store.has(peers[m].id));
                let k = choose|k: int| 0 <= k < front.len() && (#[trigger] front[k]).id == last.id;
                assert(front[k] == peers[k]);
                assert(peers[k].id != peers[m].id);
            }
        }
        assert(before.admits(last));
        lemma_add_len(before, last, times.last());
        lemma_add_wf(before, last, times.last());
        assert forall|k: int| 0 <= k < peers.len() implies add_all(
            store,
            peers.take(k),
            times.take(k),
        ).admits(#[trigger] peers[k]) by {
            if k < m {
                assert(peers.take(k) =~= front.take(k));
                assert(times.take(k) =~= front_times.take(k));
                assert(front[k] == peers[k]);
            } else {
                assert(peers.take(k) =~= front);
                assert(times.take(k) =~= front_times);
            }
        }
        assert forall|id: Seq<char>|
            add_all(store, peers, times).has(id) <==> store.has(id) || exists|k: int|
                0 <= k < peers.len() && (#[trigger] peers[k]).id == id by {
            lemma_add_has(before, last, times.last(), id);
            if exists|k: int| 0 <= k < front.len() && (#[trigger] front[k]).id == id {
                let k = choose|k: int| 0 <= k < front.len() && (#[trigger] front[k]).id == id;
                assert(peers[k].id == id);
            }
            if exists|k: int| 0 <= k < peers.len() && (#[trigger] peers[k]).id == id {
                let k = choose|k: int| 0 <= k < peers.len() && (#[trigger] peers[k]).id == id;
                if k < m {
                    assert(front[k].id == id);
                }
            }
        }
    }
}

/// Removing keeps the table's invariant.
pub proof fn lemma_remove_wf(store: PeerStoreView, id: Seq<char>)
    requires
        store.wf(),
    ensures
        store.remove(id).wf(),
{
    lemma_position(store.entries, id);
    let after = store.remove(id);
    let at = position(store.entries, id);
    if at < store.entries.len() {
        assert forall|i: int| 0 <= i < after.entries.len() implies (
        #[trigger] after.entries[i]).id.id != after.local.id by {
            if i < at {
                assert(store.entries[i].id.id != store.local.id);
            } else {
                assert(store.entries[i + 1].id.id != store.local.id);
            }
        }
        assert forall|i: int, j: int| 0 <= i < j < after.entries.len() implies (
        #[trigger] after.entries[i]).id.id != (#[trigger] after.entries[j]).id.id by {
            let oi = if i < at {
                i
            } else {
                i + 1
            };
            let oj = if j < at {
                j
            } else {
                j + 1
            };
            assert(store.entries[oi].id.id != store.entries[oj].id.id);
        }
    }
}

/// Leaving twice is leaving once: after a removal the peer is no member,
/// and removing it again changes nothing.
pub proof fn lemma_remove_idempotent(store: PeerStoreView, id: Seq<char>)
    requires
        store.wf(),
    ensures
        !store.remove(id).has(id),
        store.remove(id).remove(id) == store.remove(id),
{
    lemma_position(store.entries, id);
    let after = store.remove(id);
    let at = position(store.entries, id);
    if after.has(id) {
        let i = choose|i: int|
            0 <= i < after.entries.len() && (#[trigger] after.entries[i]).id.id == id;
        if at < store.entries.len() {
            if i < at {
                assert(store.entries[i].id.id == id);
            } else {
                assert(store.entries[i + 1].id.id == id);
                assert(store.entries[at].id.id != store.entries[i + 1].id.id);
            }
        } else {
            assert(store.entries[i].id.id == id);
        }
    }
    lemma_has_position(after, id);
}

/// The set of peers this node knows.
#[derive(Debug)]
pub struct PeerStore {
    local: PeerId,
    capacity: usize,
    entries: Vec<PeerStoreEntry>,
}

impl View for PeerStore {
    type V = PeerStoreView;

    closed spec fn view(&self) -> PeerStoreView {
        PeerStoreView {
            local: self.local@,
            capacity: self.capacity as nat,
            entries: entry_views(self.entries@),
        }
    }
}

impl PeerStore {
    /// An empty table for the node `local`, holding at most `capacity` peers.
    pub fn new(local: PeerId, capacity: usize) -> (store: Self)
        ensures
            store@ == (PeerStoreView {
                local: local@,
                capacity: capacity as nat,
                entries: Seq::empty(),
            }),
            store@.wf(),
    {
        let store = PeerStore { local, capacity, entries: Vec::new() };
        assert(store@.entries =~= Seq::empty());
        store
    }

    /// The index of the entry for `peer`, or the number of entries.
    fn find(&self, peer: &PeerId) -> (at: usize)
        ensures
            at == position(self@.entries, peer@.id),
            at <= self.entries.len(),
    {
        let mut i: usize = 0;
        while i < self.entries.len()
            invariant
                0 <= i <= self.entries.len(),
                forall|j: int| 0 <= j < i ==> (#[trigger] self@.entries[j]).id.id != peer@.id,
            decreases self.entries.len() - i,
        {
            if self.entries[i].id == *peer {
                proof {
                    lemma_position_is(self@.entries, peer@.id, i as int);
                }
                return i;
            }
            i = i + 1;
        }
        proof {
            lemma_position_is(self@.entries, peer@.id, i as int);
        }
        i
    }

    /// Whether adding `peer` would refresh the entry of a member.
    pub fn refreshes(&self, peer: &PeerId) -> (r: bool)
        ensures
            r == self@.refreshes(peer@),
    {
        proof {
            lemma_has_position(self@, peer@.id);
        }
        if *peer == self.local {
            return false;
        }
        if self.entries.len() >= self.capacity {
            return false;
        }
        self.find(peer) < self.entries.len()
    }

    /// Add a `peer` whose entry, if it has one, is not refreshed: the
    /// local node, anyone while the table is full, or a newcomer. No time
    /// enters. Returns whether it newly joined.
    pub(crate) fn add_unseen(&mut self, peer: PeerId) -> (joined: bool)
        requires
            old(self)@.wf(),
            !old(self)@.refreshes(peer@),
        ensures
            forall|now: Timestamp| final(self)@ == #[trigger] old(self)@.add(peer@, now),
            joined == old(self)@.admits(peer@),
            final(self)@.wf(),
    {
        let ghost any = Timestamp { secs: 0, nanos: 0 };
        proof {
            lemma_add_wf(self@, peer@, any);
            lemma_has_position(self@, peer@.id);
            lemma_position(self@.entries, peer@.id);
            assert forall|now: Timestamp| #[trigger]
                old(self)@.add(peer@, now) == old(self)@.add(peer@, any) by {
                lemma_add_timeless(old(self)@, peer@, now, any);
            }
        }
        if peer == self.local {
            return false;
        }
        if self.entries.len() >= self.capacity {
            return false;
        }
        self.entries.push(PeerStoreEntry::new(peer));
        assert(final(self)@.entries =~= old(self)@.add(peer@, any).entries);
        true
    }

    /// Add `peer` to the table at time `now`. Returns whether it newly
    /// joined.
    pub fn add_at(&mut self, peer: PeerId, now: Timestamp) -> (joined: bool)
        requires
            old(self)@.wf(),
        ensures
            final(self)@ == old(self)@.add(peer@, now),
            joined == old(self)@.admits(peer@),
            final(self)@.wf(),
    {
        proof {
            lemma_add_wf(self@, peer@, now);
            lemma_has_position(self@, peer@.id);
        }
        if peer == self.local {
            return false;
        }
        if self.entries.len() >= self.capacity {
            return false;
        }
        let at = self.find(&peer);
        if at < self.entries.len() {
            let id = self.entries[at].id.clone();
            self.entries.set(at, PeerStoreEntry { last_seen: Some(now), id });
            assert(final(self)@.entries =~= old(self)@.add(peer@, now).entries);
            false
        } else {
            self.entries.push(PeerStoreEntry::new(peer));
            assert(final(self)@.entries =~= old(self)@.add(peer@, now).entries);
            true
        }
    }

    /// Add `peer` to the table. The clock is read only to stamp the entry
    /// of a member that is refreshed. Returns whether it newly joined.
    pub fn add(&mut self, peer: PeerId) -> (joined: bool)
        requires
            old(self)@.wf(),
        ensures
            exists|now: Timestamp| final(self)@ == old(self)@.add(peer@, now),
            joined == old(self)@.admits(peer@),
            final(self)@.wf(),
    {
        if self.refreshes(&peer) {
            let at = now();
            self.add_at(peer, at)
        } else {
            let joined = self.add_unseen(peer);
            assert(final(self)@ == old(self)@.add(peer@, Timestamp { secs: 0, nanos: 0 }));
            joined
        }
    }

    /// Remove the entry for `peer`, if there is one. Returns whether there
    /// was.
    pub fn remove(&mut self, peer: &PeerId) -> (removed: bool)
        requires
            old(self)@.wf(),
        ensures
            final(self)@ == old(self)@.remove(peer@.id),
            removed == old(self)@.has(peer@.id),
            final(self)@.wf(),
    {
        proof {
            lemma_remove_wf(self@, peer@.id);
            lemma_has_position(self@, peer@.id);
        }
        let at = self.find(peer);
        if at < self.entries.len() {
            self.entries.remove(at);
            assert(final(self)@.entries =~= old(self)@.remove(peer@.id).entries);
            true
        } else {
            false
        }
    }

    /// Look `peer` up by its identifier. Returns the identity stored for it.
    pub fn contains(&self, peer: &PeerId) -> (found: Option<PeerId>)
        ensures
            found.is_some() == self@.has(peer@.id),
            found.is_some() ==> found.unwrap()@ == self@.entries[position(
                self@.entries,
                peer@.id,
            )].id,
    {
        proof {
            lemma_has_position(self@, peer@.id);
        }
        let at = self.find(peer);
        if at < self.entries.len() {
            Some(self.entries[at].id.clone())
        } else {
            None
        }
    }

    /// A copy of the current membership, in joining order. The copy shares
    /// nothing with the table.
    pub fn snapshot(&self) -> (copy: Vec<PeerStoreEntry>)
        ensures
            entry_views(copy@) == self@.entries,
    {
        let mut copy: Vec<PeerStoreEntry> = Vec::new();
        let mut i: usize = 0;
        while i < self.entries.len()
            invariant
                0 <= i <= self.entries.len(),
                copy@.len() == i,
                forall|j: int| 0 <= j < i ==> (#[trigger] copy@[j])@ == self.entries@[j]@,
            decreases self.entries.len() - i,
        {
            copy.push(self.entries[i].clone());
            i = i + 1;
        }
        assert(entry_views(copy@) =~= self@.entries);
        copy
    }

    /// The number of peers in the table.
    pub fn size(&self) -> (n: usize)
        ensures
            n == self@.entries.len(),
    {
        self.entries.len()
    }

    /// The most peers the table keeps.
    pub fn capacity(&self) -> (n: usize)
        ensures
            n == self@.capacity,
    {
        self.capacity
    }

    /// The node whose table this is.
    pub fn local(&self) -> (id: &PeerId)
        ensures
            id@ == self@.local,
    {
        &self.local
    }
}

} // verus!
