//! The node itself: its identity, its membership table, the seeding of the
//! table from a host list, routing to a destination, and the handlers of
//! the protocol.

use crate::addr::{parse_host, parse_host_spec, socket_text, Ipv4Address};
use crate::identity::{identity_of, PeerIdView};
use crate::protocol::{
    Handler, HandlerView, NetworkResult, Protocol, Request, RequestView, Response, ResponseView,
};
use crate::store::{
    lemma_add_len, lemma_add_timeless, lemma_position_is, now, position, EntryView,
    PeerStoreView, Timestamp,
};
use crate::transport::{addressed, outbound_views, send_request, Outbound, OutboundView};
use crate::util::{get_local_ip, LocalAddress};
use crate::{Error, ErrorView, NetworkError, NetworkErrorView, MAX_PEERS};
use vstd::prelude::*;
use vstd::string::StringExecFns;
use vstd::utf8::encode_utf8;

pub use crate::identity::{Key, PeerId};
pub use crate::store::{PeerStore, PeerStoreEntry};

verus! {

/// A peer on the network. This represents the peer running on this machine.
#[derive(Debug)]
pub struct Peer {
    id: PeerId,
    max_peers: u8,
    pub_ip: Option<Ipv4Address>,
    local: bool,
    peers: PeerStore,
}

/// What a `Peer` holds.
pub ghost struct PeerView {
    pub id: PeerIdView,
    pub max_peers: u8,
    pub pub_ip: Option<Ipv4Address>,
    pub local: bool,
    pub peers: PeerStoreView,
}

/// The UTF-8 bytes of each line, in order.
pub open spec fn line_bytes(lines: Seq<String>) -> Seq<Seq<u8>> {
    Seq::new(lines.len(), |i: int| encode_utf8(lines[i]@))
}

/// The table after the hosts named by `lines` were added in order at time
/// `now`. A line that names no endpoint changes nothing.
pub open spec fn seeded(store: PeerStoreView, lines: Seq<Seq<u8>>, now: Timestamp)
    -> PeerStoreView
    decreases lines.len(),
{
    if lines.len() == 0 {
        store
    } else {
        let before = seeded(store, lines.drop_last(), now);
        match parse_host_spec(lines.last()) {
            Some((ip, port)) => before.add(identity_of(ip, port), now),
            None => before,
        }
    }
}

/// How many of the hosts named by `lines` newly joined the table.
pub open spec fn seeded_count(store: PeerStoreView, lines: Seq<Seq<u8>>, now: Timestamp) -> int
    decreases lines.len(),
{
    if lines.len() == 0 {
        0
    } else {
        let before = seeded(store, lines.drop_last(), now);
        let joined = match parse_host_spec(lines.last()) {
            Some((ip, port)) => before.admits(identity_of(ip, port)),
            None => false,
        };
        seeded_count(store, lines.drop_last(), now) + if joined {
            1int
        } else {
            0int
        }
    }
}

/// Whether seeding from `lines` refreshed nobody, so that the outcome is
/// the same at every time as at the time `read`.
pub open spec fn unstamped(store: PeerStoreView, lines: Seq<Seq<u8>>, read: Timestamp) -> bool {
    forall|t: Timestamp|
        #![trigger seeded(store, lines, t)]
        seeded(store, lines, t) == seeded(store, lines, read) && seeded_count(store, lines, t)
            == seeded_count(store, lines, read)
}

/// Seeding stays independent of the time over one more line that
/// refreshes nobody.
pub proof fn lemma_unstamped_step(store: PeerStoreView, lines: Seq<Seq<u8>>, read: Timestamp)
    requires
        lines.len() > 0,
        unstamped(store, lines.drop_last(), read),
        match parse_host_spec(lines.last()) {
            Some((ip, port)) => !seeded(store, lines.drop_last(), read).refreshes(
                identity_of(ip, port),
            ),
            None => true,
        },
    ensures
        unstamped(store, lines, read),
{
    let before = seeded(store, lines.drop_last(), read);
    assert forall|t: Timestamp|
        #![trigger seeded(store, lines, t)]
        seeded(store, lines, t) == seeded(store, lines, read) && seeded_count(store, lines, t)
            == seeded_count(store, lines, read) by {
        assert(seeded(store, lines.drop_last(), t) == before);
        assert(seeded_count(store, lines.drop_last(), t) == seeded_count(
            store,
            lines.drop_last(),
            read,
        ));
        match parse_host_spec(lines.last()) {
            Some((ip, port)) => {
                lemma_add_timeless(before, identity_of(ip, port), t, read);
            },
            None => {},
        }
    }
}

impl PeerView {
    /// The node's invariant: its table is well formed, belongs to this
    /// node, and is bounded by the node's maximum.
    pub open spec fn wf(self) -> bool {
        &&& self.peers.wf()
        &&& self.peers.local == self.id
        &&& self.peers.capacity == self.max_peers
    }

    /// This node with another table.
    pub open spec fn with_peers(self, peers: PeerStoreView) -> PeerView {
        PeerView {
            id: self.id,
            max_peers: self.max_peers,
            pub_ip: self.pub_ip,
            local: self.local,
            peers,
        }
    }

    /// Where a message for `dest` goes when it may travel `hops` hops: to
    /// this node itself, or in one hop to the identity stored for a known
    /// peer. Anything else has no route.
    pub open spec fn route(self, dest: PeerIdView, hops: nat) -> Result<
        PeerIdView,
        NetworkErrorView,
    > {
        if dest.id == self.id.id {
            Ok(self.id)
        } else if hops >= 1 && self.peers.has(dest.id) {
            Ok(self.peers.entries[position(self.peers.entries, dest.id)].id)
        } else {
            Err(NetworkErrorView::NoRoute(dest))
        }
    }
}

/// One ping for every entry, in order, each dialed at the entry's socket.
pub open spec fn ping_plan(entries: Seq<EntryView>) -> Seq<OutboundView> {
    Seq::new(entries.len(), |i: int| addressed(entries[i].id, RequestView::Ping))
}

/// What a node does once it starts: where it listens and whom it pings.
#[derive(Debug)]
pub struct Startup {
    /// How many hosts of the list newly joined the table.
    pub bootstrapped: i32,
    /// The socket to listen on, `ip:port`.
    pub listen_on: String,
    /// The pings to send before serving.
    pub pings: Vec<Outbound>,
}

/// What a reply to a ping amounts to: a pong is success, a failure is
/// passed on, and anything else is a failure of its own.
pub open spec fn reply_outcome(response: ResponseView) -> Result<(), ErrorView> {
    match response {
        ResponseView::Pong => Ok(()),
        ResponseView::Failure(e) => Err(ErrorView::NetworkError(e)),
        _ => Err(ErrorView::NetworkError(NetworkErrorView::Fail("unexpected response"@))),
    }
}

/// The view of the outcome of a reply.
pub open spec fn outcome_view(r: Result<(), Error>) -> Result<(), ErrorView> {
    match r {
        Ok(_) => Ok(()),
        Err(e) => Err(e@),
    }
}

/// The view of a request that may have found no route.
pub open spec fn outbound_view(r: NetworkResult<Outbound>) -> Result<
    OutboundView,
    NetworkErrorView,
> {
    match r {
        Ok(out) => Ok(out@),
        Err(e) => Err(e@),
    }
}

/// The failure that carries `text` as its message.
pub open spec fn failure(text: Seq<char>) -> ResponseView {
    ResponseView::Failure(NetworkErrorView::Fail(text))
}

impl PeerView {
    /// The node after `new_peer` asked to join at time `now`.
    pub open spec fn joined(self, new_peer: PeerIdView, now: Timestamp) -> PeerView {
        self.with_peers(self.peers.add(new_peer, now))
    }

    /// The answer to a request to join: success for a peer that newly
    /// joins, a failure for one that does not.
    pub open spec fn join_answer(self, new_peer: PeerIdView) -> ResponseView {
        if self.peers.admits(new_peer) {
            ResponseView::Msg("join success"@)
        } else {
            failure("peer already joined"@)
        }
    }

    /// The node after `peer` left.
    pub open spec fn left(self, peer: PeerIdView) -> PeerView {
        self.with_peers(self.peers.remove(peer.id))
    }

    /// The node after a handler ran at time `now`. Only joining and
    /// leaving change it.
    pub open spec fn after(self, handler: HandlerView, now: Timestamp) -> PeerView {
        match handler {
            HandlerView::Join(new_peer) => self.joined(new_peer, now),
            HandlerView::Leave(peer) => self.left(peer),
            _ => self,
        }
    }

    /// The response a handler gives.
    pub open spec fn answer(self, handler: HandlerView) -> ResponseView {
        match handler {
            HandlerView::Ping => ResponseView::Pong,
            HandlerView::Identity => ResponseView::Identity(self.id),
            HandlerView::List => failure("no keys stored yet"@),
            HandlerView::PeerStore => ResponseView::PeerStore(self.peers.entries),
            HandlerView::Join(new_peer) => self.join_answer(new_peer),
            HandlerView::Leave(_) => ResponseView::Success,
            HandlerView::NotImplemented => failure("not implemented"@),
        }
    }
}

/// Routing resolves this node to itself, a stored identity to itself,
/// and has no route to anyone who is neither. With no hop to spend, only
/// this node itself is reached.
pub proof fn lemma_route(peer: PeerView, dest: PeerIdView, k: int)
    requires
        peer.wf(),
    ensures
        peer.route(peer.id, 1) == Ok::<PeerIdView, NetworkErrorView>(peer.id),
        dest.id != peer.id.id && !peer.peers.has(dest.id) ==> peer.route(dest, 1) == Err::<
            PeerIdView,
            NetworkErrorView,
        >(NetworkErrorView::NoRoute(dest)),
        0 <= k < peer.peers.entries.len() ==> peer.route(peer.peers.entries[k].id, 1) == Ok::<
            PeerIdView,
            NetworkErrorView,
        >(peer.peers.entries[k].id),
        dest.id != peer.id.id ==> peer.route(dest, 0) == Err::<PeerIdView, NetworkErrorView>(
            NetworkErrorView::NoRoute(dest),
        ),
{
    if 0 <= k < peer.peers.entries.len() {
        let known = peer.peers.entries[k].id;
        assert(known.id != peer.peers.local.id);
        assert forall|j: int| 0 <= j < k implies (#[trigger] peer.peers.entries[j]).id.id
            != known.id by {
            assert(peer.peers.entries[j].id.id != peer.peers.entries[k].id.id);
        }
        lemma_position_is(peer.peers.entries, known.id, k);
        assert(peer.peers.has(known.id));
    }
}

/// A freshly built node on `ip:port`: nobody known yet.
pub open spec fn fresh_peer(local: bool, ip: Ipv4Address, port: u16) -> PeerView {
    PeerView {
        id: identity_of(ip, port),
        max_peers: MAX_PEERS,
        pub_ip: None,
        local,
        peers: PeerStoreView {
            local: identity_of(ip, port),
            capacity: MAX_PEERS as nat,
            entries: Seq::empty(),
        },
    }
}

/// The view of a routing result.
pub open spec fn route_view(r: NetworkResult<PeerId>) -> Result<PeerIdView, NetworkErrorView> {
    match r {
        Ok(id) => Ok(id@),
        Err(e) => Err(e@),
    }
}

impl View for Peer {
    type V = PeerView;

    closed spec fn view(&self) -> PeerView {
        PeerView {
            id: self.id@,
            max_peers: self.max_peers,
            pub_ip: self.pub_ip,
            local: self.local,
            peers: self.peers@,
        }
    }
}

impl Peer {
    /// Construct a new peer that listens on `port` at the address that the
    /// lookup `found`.
    pub fn new(local: bool, port: u16, found: LocalAddress) -> (r: Result<Self, Error>)
        ensures
            match found {
                LocalAddress::V4(ip) => r.is_ok() && r.unwrap()@ == fresh_peer(local, ip, port)
                    && r.unwrap()@.wf(),
                LocalAddress::V6(v6) => r.is_err() && r.unwrap_err()@ == ErrorView::Ipv6Disabled(
                    v6@,
                ),
                LocalAddress::Unavailable => r.is_err() && r.unwrap_err()@ == ErrorView::NoIp,
            },
    {
        match get_local_ip(found) {
            Ok(ip) => {
                let id = PeerId::from(ip, port);
                let peers = PeerStore::new(id.clone(), MAX_PEERS as usize);
                Ok(Peer { id, max_peers: MAX_PEERS, pub_ip: None, local, peers })
            },
            Err(e) => Err(e),
        }
    }

    /// This node's identity.
    pub fn id(&self) -> (id: &PeerId)
        ensures
            id@ == self@.id,
    {
        &self.id
    }

    /// This node's membership table.
    pub fn peers(&self) -> (peers: &PeerStore)
        ensures
            peers@ == self@.peers,
    {
        &self.peers
    }

    /// Add a peer to this peer's table of known peers at time `now`.
    /// Returns whether it newly joined.
    pub fn add_peer_at(&mut self, new_peer: PeerId, now: Timestamp) -> (joined: bool)
        requires
            old(self)@.wf(),
        ensures
            final(self)@ == old(self)@.with_peers(old(self)@.peers.add(new_peer@, now)),
            joined == old(self)@.peers.admits(new_peer@),
            final(self)@.wf(),
    {
        self.peers.add_at(new_peer, now)
    }

    /// Add a peer to this peer's table of known peers. The clock is read
    /// only to stamp the entry of a member that is refreshed. Returns
    /// whether it newly joined.
    pub fn add_peer(&mut self, new_peer: PeerId) -> (joined: bool)
        requires
            old(self)@.wf(),
        ensures
            exists|now: Timestamp|
                final(self)@ == old(self)@.with_peers(old(self)@.peers.add(new_peer@, now)),
            joined == old(self)@.peers.admits(new_peer@),
            final(self)@.wf(),
    {
        self.peers.add(new_peer)
    }

    /// Seed the table at time `now` from the lines of a host list, one
    /// `ip:port` per line. Lines that name no endpoint are skipped. Returns
    /// how many hosts newly joined.
    pub fn bootstrap_at(&mut self, lines: &Vec<String>, now: Timestamp) -> (r: Result<i32, Error>)
        requires
            old(self)@.wf(),
        ensures
            final(self)@ == old(self)@.with_peers(
                seeded(old(self)@.peers, line_bytes(lines@), now),
            ),
            r.is_ok(),
            r.unwrap() == seeded_count(old(self)@.peers, line_bytes(lines@), now),
            0 <= r.unwrap() <= lines@.len(),
            final(self)@.peers.entries.len() == old(self)@.peers.entries.len() + r.unwrap(),
            final(self)@.wf(),
    {
        let mut count: i32 = 0;
        let mut i: usize = 0;
        let ghost all = line_bytes(lines@);
        assert(all.take(0) =~= Seq::<Seq<u8>>::empty());
        while i < lines.len()
            invariant
                0 <= i <= lines.len(),
                all == line_bytes(lines@),
                self@.wf(),
                self@ == old(self)@.with_peers(seeded(old(self)@.peers, all.take(i as int), now)),
                count == seeded_count(old(self)@.peers, all.take(i as int), now),
                0 <= count <= i,
                old(self)@.peers.entries.len() + count == self@.peers.entries.len(),
            decreases lines.len() - i,
        {
            proof {
                assert(all.take(i + 1).drop_last() =~= all.take(i as int));
                assert(all.take(i + 1).last() == encode_utf8(lines@[i as int]@));
            }
            let line = lines[i].as_str();
            match parse_host(line.as_bytes()) {
                Some((ip, port)) => {
                    let id = PeerId::from(ip, port);
                    proof {
                        lemma_add_len(self@.peers, id@, now);
                    }
                    if self.add_peer_at(id, now) {
                        count = count + 1;
                    }
                },
                None => {},
            }
            i = i + 1;
        }
        assert(all.take(i as int) =~= all);
        Ok(count)
    }

    /// Seed the table from the lines of a host list. The clock is read at
    /// most once, when the first line repeats a member, and that reading
    /// stamps every entry this call refreshes. Returns how many hosts newly
    /// joined.
    pub fn bootstrap(&mut self, lines: &Vec<String>) -> (r: Result<i32, Error>)
        requires
            old(self)@.wf(),
        ensures
            exists|now: Timestamp|
                {
                    &&& final(self)@ == old(self)@.with_peers(
                        seeded(old(self)@.peers, line_bytes(lines@), now),
                    )
                    &&& r.unwrap() == seeded_count(old(self)@.peers, line_bytes(lines@), now)
                },
            r.is_ok(),
            0 <= r.unwrap() <= lines@.len(),
            final(self)@.peers.entries.len() == old(self)@.peers.entries.len() + r.unwrap(),
            final(self)@.wf(),
    {
        let mut count: i32 = 0;
        let mut i: usize = 0;
        let mut stamp: Option<Timestamp> = None;
        let ghost mut read = Timestamp { secs: 0, nanos: 0 };
        let ghost all = line_bytes(lines@);
        let ghost start = old(self)@.peers;
        assert(all.take(0) =~= Seq::<Seq<u8>>::empty());
        while i < lines.len()
            invariant
                0 <= i <= lines.len(),
                all == line_bytes(lines@),
                start == old(self)@.peers,
                self@.wf(),
                self@ == old(self)@.with_peers(seeded(start, all.take(i as int), read)),
                count == seeded_count(start, all.take(i as int), read),
                0 <= count <= i,
                start.entries.len() + count == self@.peers.entries.len(),
                stamp.is_some() ==> stamp.unwrap() == read,
                stamp.is_none() ==> unstamped(start, all.take(i as int), read),
            decreases lines.len() - i,
        {
            let ghost before = self@.peers;
            let ghost done = all.take(i as int);
            let ghost next = all.take(i + 1);
            proof {
                assert(next.drop_last() =~= done);
                assert(next.last() == encode_utf8(lines@[i as int]@));
            }
            let line = lines[i].as_str();
            match parse_host(line.as_bytes()) {
                Some((ip, port)) => {
                    let id = PeerId::from(ip, port);
                    if self.peers.refreshes(&id) {
                        let at = match stamp {
                            Some(at) => at,
                            None => now(),
                        };
                        proof {
                            assert(seeded(start, done, at) == before);
                            assert(seeded_count(start, done, at) == count);
                            read = at;
                            lemma_add_len(before, id@, at);
                        }
                        stamp = Some(at);
                        if self.add_peer_at(id, at) {
                            count = count + 1;
                        }
                    } else {
                        proof {
                            lemma_add_len(before, id@, read);
                            if stamp.is_none() {
                                lemma_unstamped_step(start, next, read);
                            }
                        }
                        if self.peers.add_unseen(id) {
                            count = count + 1;
                        }
                    }
                },
                None => {
                    proof {
                        if stamp.is_none() {
                            lemma_unstamped_step(start, next, read);
                        }
                    }
                },
            }
            i = i + 1;
            assert(all.take(i as int) == next);
        }
        assert(all.take(i as int) =~= all);
        assert(self@ == old(self)@.with_peers(seeded(old(self)@.peers, line_bytes(lines@), read)));
        Ok(count)
    }

    /// Find where a message for `peer` goes when it may travel `hops` hops.
    pub fn route_within(&self, peer: PeerId, hops: u16) -> (r: NetworkResult<PeerId>)
        ensures
            route_view(r) == self@.route(peer@, hops as nat),
    {
        if peer == self.id {
            return Ok(self.id.clone());
        }
        if hops == 0 {
            return Err(NetworkError::NoRoute(peer));
        }
        match self.peers.contains(&peer) {
            Some(known) => Ok(known),
            None => Err(NetworkError::NoRoute(peer)),
        }
    }

    /// Attempt to find a route to the given identity: this node itself, or
    /// a peer it knows, reached in a single hop.
    pub fn router(&self, peer: PeerId) -> (r: NetworkResult<PeerId>)
        ensures
            route_view(r) == self@.route(peer@, 1),
    {
        self.route_within(peer, 1)
    }
}

impl Peer {
    /// Handle an incoming `Request::Join` for `new_peer` at time `now`:
    /// the identity carried in the request is the one added.
    pub fn handle_join_at(&mut self, new_peer: PeerId, now: Timestamp) -> (res: Response)
        requires
            old(self)@.wf(),
        ensures
            final(self)@ == old(self)@.joined(new_peer@, now),
            res@ == old(self)@.join_answer(new_peer@),
            final(self)@.wf(),
    {
        if self.add_peer_at(new_peer, now) {
            Response::Msg(String::from_str("join success"))
        } else {
            Response::Failure(NetworkError::Fail(String::from_str("peer already joined")))
        }
    }

    /// Run a handler at time `now` and return its response.
    pub fn handle_at(&mut self, handler: Handler, now: Timestamp) -> (res: Response)
        requires
            old(self)@.wf(),
        ensures
            final(self)@ == old(self)@.after(handler@, now),
            res@ == old(self)@.answer(handler@),
            final(self)@.wf(),
    {
        match handler {
            Handler::Ping => self.handle_ping(),
            Handler::Identity => self.handle_identity(),
            Handler::List => self.handle_list(),
            Handler::PeerStore => self.handle_peerstore(),
            Handler::Join(new_peer) => self.handle_join_at(new_peer, now),
            Handler::Leave(peer) => self.handle_leave(peer),
            Handler::NotImplemented => Response::Failure(
                NetworkError::Fail(String::from_str("not implemented")),
            ),
        }
    }

    /// Run a handler and return its response. The clock is read only by a
    /// join that refreshes a member.
    pub fn handle(&mut self, handler: Handler) -> (res: Response)
        requires
            old(self)@.wf(),
        ensures
            exists|now: Timestamp| final(self)@ == old(self)@.after(handler@, now),
            res@ == old(self)@.answer(handler@),
            final(self)@.wf(),
    {
        let ghost any = Timestamp { secs: 0, nanos: 0 };
        let res = match handler {
            Handler::Ping => self.handle_ping(),
            Handler::Identity => self.handle_identity(),
            Handler::List => self.handle_list(),
            Handler::PeerStore => self.handle_peerstore(),
            Handler::Join(new_peer) => {
                let ghost who = new_peer@;
                let res = self.handle_join(new_peer);
                proof {
                    let at = choose|at: Timestamp| self@ == old(self)@.joined(who, at);
                    assert(self@ == old(self)@.after(handler@, at));
                }
                return res;
            },
            Handler::Leave(peer) => self.handle_leave(peer),
            Handler::NotImplemented => Response::Failure(
                NetworkError::Fail(String::from_str("not implemented")),
            ),
        };
        assert(final(self)@ == old(self)@.after(handler@, any));
        res
    }
}

impl Peer {
    /// Handle the response to a ping.
    pub fn handle_response(&self, response: Response) -> (r: Result<(), Error>)
        ensures
            outcome_view(r) == reply_outcome(response@),
    {
        match response {
            Response::Pong => Ok(()),
            Response::Failure(e) => Err(Error::NetworkError(e)),
            _ => Err(
                Error::NetworkError(NetworkError::Fail(String::from_str("unexpected response"))),
            ),
        }
    }

    /// Prepare a ping for every peer in the table, from a copy of the
    /// table taken at the time of the call.
    pub fn send_pings(&self) -> (pings: Vec<Outbound>)
        ensures
            outbound_views(pings@) == ping_plan(self@.peers.entries),
    {
        let known = self.peers.snapshot();
        let mut pings: Vec<Outbound> = Vec::new();
        let mut i: usize = 0;
        while i < known.len()
            invariant
                0 <= i <= known.len(),
                pings@.len() == i,
                forall|j: int|
                    0 <= j < i ==> (#[trigger] pings@[j])@ == addressed(
                        known@[j]@.id,
                        RequestView::Ping,
                    ),
            decreases known.len() - i,
        {
            pings.push(send_request(known[i].id(), Request::Ping));
            i = i + 1;
        }
        assert(outbound_views(pings@) =~= ping_plan(self@.peers.entries));
        pings
    }

    /// Prepare a ping request to a peer, routed first: the ping goes to
    /// whatever the router resolves `to` to, or nowhere.
    pub fn send_ping(&self, to: &PeerId) -> (r: NetworkResult<Outbound>)
        ensures
            outbound_view(r) == match self@.route(to@, 1) {
                Ok(dest) => Ok::<OutboundView, NetworkErrorView>(
                    addressed(dest, RequestView::Ping),
                ),
                Err(e) => Err::<OutboundView, NetworkErrorView>(e),
            },
    {
        match self.router(to.clone()) {
            Ok(dest) => Ok(send_request(&dest, Request::Ping)),
            Err(e) => Err(e),
        }
    }

    /// The plan of a node that bootstrapped `bootstrapped` hosts: where
    /// it listens and, if asked, whom it pings first.
    fn plan(&self, bootstrapped: i32, send_pings: bool) -> (plan: Startup)
        ensures
            plan.bootstrapped == bootstrapped,
            plan.listen_on@ == socket_text(self@.id.ip, self@.id.port),
            outbound_views(plan.pings@) == if send_pings {
                ping_plan(self@.peers.entries)
            } else {
                Seq::<OutboundView>::empty()
            },
    {
        let listen_on = self.id.as_socket();
        let pings = if send_pings {
            self.send_pings()
        } else {
            Vec::new()
        };
        assert(!send_pings ==> outbound_views(pings@) =~= Seq::<OutboundView>::empty());
        Startup { bootstrapped, listen_on, pings }
    }

    /// Start this peer at time `now`: seed the table from the host list,
    /// then say where to listen and, if asked, whom to ping first.
    pub fn start_at(&mut self, lines: &Vec<String>, send_pings: bool, now: Timestamp) -> (r: Result<
        Startup,
        Error,
    >)
        requires
            old(self)@.wf(),
        ensures
            final(self)@ == old(self)@.with_peers(
                seeded(old(self)@.peers, line_bytes(lines@), now),
            ),
            final(self)@.wf(),
            r.is_ok(),
            r.unwrap().bootstrapped == seeded_count(old(self)@.peers, line_bytes(lines@), now),
            r.unwrap().listen_on@ == socket_text(old(self)@.id.ip, old(self)@.id.port),
            outbound_views(r.unwrap().pings@) == if send_pings {
                ping_plan(final(self)@.peers.entries)
            } else {
                Seq::<OutboundView>::empty()
            },
    {
        match self.bootstrap_at(lines, now) {
            Ok(count) => Ok(self.plan(count, send_pings)),
            Err(e) => Err(e),
        }
    }

    /// Start this peer: seed the table from the host list, then say where
    /// to listen and, if asked, whom to ping first. The clock is read only
    /// if the list repeats a member.
    pub fn start(&mut self, lines: &Vec<String>, send_pings: bool) -> (r: Result<Startup, Error>)
        requires
            old(self)@.wf(),
        ensures
            exists|now: Timestamp|
                {
                    &&& final(self)@ == old(self)@.with_peers(
                        seeded(old(self)@.peers, line_bytes(lines@), now),
                    )
                    &&& r.unwrap().bootstrapped == seeded_count(
                        old(self)@.peers,
                        line_bytes(lines@),
                        now,
                    )
                },
            final(self)@.wf(),
            r.is_ok(),
            r.unwrap().listen_on@ == socket_text(old(self)@.id.ip, old(self)@.id.port),
            outbound_views(r.unwrap().pings@) == if send_pings {
                ping_plan(final(self)@.peers.entries)
            } else {
                Seq::<OutboundView>::empty()
            },
    {
        match self.bootstrap(lines) {
            Ok(count) => Ok(self.plan(count, send_pings)),
            Err(e) => Err(e),
        }
    }
}

/// The bootstrap peer listens on this port; it pings nobody when it starts.
pub const BOOTSTRAP_PORT: u16 = 3300;

/// Build the node for `port` at the address that the lookup `found`, and
/// start it on the host list `lines`. Every node but the bootstrap peer
/// pings the peers it knows before it serves.
pub fn peer(port: u16, found: LocalAddress, lines: &Vec<String>) -> (r: Result<
    (Peer, Startup),
    Error,
>)
    ensures
        match found {
            LocalAddress::V4(ip) => {
                &&& r.is_ok()
                &&& r.unwrap().0@.wf()
                &&& exists|now: Timestamp|
                    {
                        &&& r.unwrap().0@ == fresh_peer(true, ip, port).with_peers(
                            seeded(fresh_peer(true, ip, port).peers, line_bytes(lines@), now),
                        )
                        &&& r.unwrap().1.bootstrapped == seeded_count(
                            fresh_peer(true, ip, port).peers,
                            line_bytes(lines@),
                            now,
                        )
                    }
                &&& r.unwrap().1.listen_on@ == socket_text(ip, port)
                &&& outbound_views(r.unwrap().1.pings@) == if port != BOOTSTRAP_PORT {
                    ping_plan(r.unwrap().0@.peers.entries)
                } else {
                    Seq::<OutboundView>::empty()
                }
            },
            LocalAddress::V6(v6) => r.is_err() && r.unwrap_err()@ == ErrorView::Ipv6Disabled(v6@),
            LocalAddress::Unavailable => r.is_err() && r.unwrap_err()@ == ErrorView::NoIp,
        },
{
    let mut node = match Peer::new(true, port, found) {
        Ok(node) => node,
        Err(e) => {
            return Err(e);
        },
    };
    let plan = match node.start(lines, port != BOOTSTRAP_PORT) {
        Ok(plan) => plan,
        Err(e) => {
            return Err(e);
        },
    };
    Ok((node, plan))
}

impl Protocol for Peer {
    open spec fn ready(&self) -> bool {
        self@.wf()
    }

    /// Handle an incoming `Request::Ping`.
    fn handle_ping(&self) -> (res: Response)
        ensures
            res@ == ResponseView::Pong,
    {
        Response::Pong
    }

    /// Handle an incoming `Request::Identity`.
    fn handle_identity(&self) -> (res: Response)
        ensures
            res@ == ResponseView::Identity(self@.id),
    {
        Response::Identity(self.id.clone())
    }

    /// Return a list of keys stored on this peer. No layer stores keys
    /// yet, so this always fails.
    fn handle_list(&self) -> (res: Response)
        ensures
            res@ == failure("no keys stored yet"@),
    {
        Response::Failure(NetworkError::Fail(String::from_str("no keys stored yet")))
    }

    /// Return a copy of this peer's entire membership table.
    fn handle_peerstore(&self) -> (res: Response)
        ensures
            res@ == ResponseView::PeerStore(self@.peers.entries),
    {
        Response::PeerStore(self.peers.snapshot())
    }

    /// Request to join this peer's table. The clock is read only to
    /// stamp the entry of a member that is refreshed.
    fn handle_join(&mut self, new_peer: PeerId) -> (res: Response)
        ensures
            exists|now: Timestamp| final(self)@ == old(self)@.joined(new_peer@, now),
            res@ == old(self)@.join_answer(new_peer@),
    {
        let ghost who = new_peer@;
        let joined = self.add_peer(new_peer);
        proof {
            let at = choose|at: Timestamp|
                self@ == old(self)@.with_peers(old(self)@.peers.add(who, at));
            assert(self@ == old(self)@.joined(who, at));
        }
        if joined {
            Response::Msg(String::from_str("join success"))
        } else {
            Response::Failure(NetworkError::Fail(String::from_str("peer already joined")))
        }
    }

    /// Request to leave this peer's table. Leaving twice is the same as
    /// leaving once.
    fn handle_leave(&mut self, peer: PeerId) -> (res: Response)
        ensures
            final(self)@ == old(self)@.left(peer@),
            res@ == ResponseView::Success,
    {
        self.peers.remove(&peer);
        Response::Success
    }
}

} // verus!
