//! The wire protocol: the requests a node accepts, the responses it gives,
//! and the table that sends each request to its one handler.

use crate::identity::{Key, PeerId, PeerIdView};
use crate::store::{entry_views, EntryView, PeerStoreEntry};
use crate::{NetworkError, NetworkErrorView};
use vstd::prelude::*;

verus! {

/// The result of an exchange on the network.
pub type NetworkResult<T> = Result<T, NetworkError>;

/// The maximum size of data that can be in a request over the network, in
/// bytes.
pub const MAX_TRANSFER_SIZE: usize = 5096;

/// Possible peer request types.
#[derive(Debug)]
pub enum Request {
    /// Ping this peer. Answered with `Response::Pong`.
    Ping,
    /// Ask this peer for its identity. Answered with `Response::Identity`.
    Identity,
    /// Ask this peer for its list of stored files.
    List,
    /// Ask for this peer's membership table.
    PeerStore,
    /// Ask this peer to add the given identity to its table of peers.
    Join(PeerId),
    /// Ask whether this peer has any record of the key within `tts` hops.
    QueryKey { key: Key, tts: u16 },
    /// Tell this peer that `holding_id` has a record of the key.
    RespondKey { holding_id: PeerId, key: Key },
    /// Ask this peer to send its copy of the key's value.
    Get(Key),
    /// Sync this peer's table with another peer's within `tts` hops.
    SyncPeers { tts: u16 },
    /// Remove the given peer from this peer's table of peers.
    Leave(PeerId),
}

/// What a `Request` holds.
pub ghost enum RequestView {
    Ping,
    Identity,
    List,
    PeerStore,
    Join(PeerIdView),
    QueryKey { key: Seq<char>, tts: u16 },
    RespondKey { holding_id: PeerIdView, key: Seq<char> },
    Get(Seq<char>),
    SyncPeers { tts: u16 },
    Leave(PeerIdView),
}

impl View for Request {
    type V = RequestView;

    open spec fn view(&self) -> RequestView {
        match self {
            Request::Ping => RequestView::Ping,
            Request::Identity => RequestView::Identity,
            Request::List => RequestView::List,
            Request::PeerStore => RequestView::PeerStore,
            Request::Join(id) => RequestView::Join(id@),
            Request::QueryKey { key, tts } => RequestView::QueryKey { key: key@, tts: *tts },
            Request::RespondKey { holding_id, key } => RequestView::RespondKey {
                holding_id: holding_id@,
                key: key@,
            },
            Request::Get(key) => RequestView::Get(key@),
            Request::SyncPeers { tts } => RequestView::SyncPeers { tts: *tts },
            Request::Leave(id) => RequestView::Leave(id@),
        }
    }
}

/// Possible answers to a request.
#[derive(Debug)]
pub enum Response {
    /// Success, with nothing to add.
    Success,
    /// Failure, with the error.
    Failure(NetworkError),
    /// A message for people.
    Msg(String),
    /// The answer to `Request::Ping`.
    Pong,
    /// A single identity.
    Identity(PeerId),
    /// The keys of this peer's stored files.
    List(Vec<Key>),
    /// A copy of this peer's membership table.
    PeerStore(Vec<PeerStoreEntry>),
}

/// What a `Response` holds.
pub ghost enum ResponseView {
    Success,
    Failure(NetworkErrorView),
    Msg(Seq<char>),
    Pong,
    Identity(PeerIdView),
    List(Seq<Seq<char>>),
    PeerStore(Seq<EntryView>),
}

/// The names of a sequence of keys, in order.
pub open spec fn key_views(keys: Seq<Key>) -> Seq<Seq<char>> {
    Seq::new(keys.len(), |i: int| keys[i]@)
}

impl View for Response {
    type V = ResponseView;

    open spec fn view(&self) -> ResponseView {
        match self {
            Response::Success => ResponseView::Success,
            Response::Failure(e) => ResponseView::Failure(e@),
            Response::Msg(text) => ResponseView::Msg(text@),
            Response::Pong => ResponseView::Pong,
            Response::Identity(id) => ResponseView::Identity(id@),
            Response::List(keys) => ResponseView::List(key_views(keys@)),
            Response::PeerStore(entries) => ResponseView::PeerStore(entry_views(entries@)),
        }
    }
}

/// The handlers of the protocol, each with what it needs from the request.
#[derive(Debug)]
pub enum Handler {
    Ping,
    Identity,
    List,
    PeerStore,
    Join(PeerId),
    Leave(PeerId),
    /// Reserved requests that no layer serves yet.
    NotImplemented,
}

/// What a `Handler` holds.
pub ghost enum HandlerView {
    Ping,
    Identity,
    List,
    PeerStore,
    Join(PeerIdView),
    Leave(PeerIdView),
    NotImplemented,
}

impl View for Handler {
    type V = HandlerView;

    open spec fn view(&self) -> HandlerView {
        match self {
            Handler::Ping => HandlerView::Ping,
            Handler::Identity => HandlerView::Identity,
            Handler::List => HandlerView::List,
            Handler::PeerStore => HandlerView::PeerStore,
            Handler::Join(id) => HandlerView::Join(id@),
            Handler::Leave(id) => HandlerView::Leave(id@),
            Handler::NotImplemented => HandlerView::NotImplemented,
        }
    }
}

/// The dispatch table: the one handler that serves each request.
pub open spec fn handler_for(request: RequestView) -> HandlerView {
    match request {
        RequestView::Ping => HandlerView::Ping,
        RequestView::Identity => HandlerView::Identity,
        RequestView::List => HandlerView::List,
        RequestView::PeerStore => HandlerView::PeerStore,
        RequestView::Join(id) => HandlerView::Join(id),
        RequestView::Leave(id) => HandlerView::Leave(id),
        RequestView::QueryKey { .. } => HandlerView::NotImplemented,
        RequestView::RespondKey { .. } => HandlerView::NotImplemented,
        RequestView::Get(_) => HandlerView::NotImplemented,
        RequestView::SyncPeers { .. } => HandlerView::NotImplemented,
    }
}

/// Pick the handler for a request.
pub fn dispatch(request: Request) -> (handler: Handler)
    ensures
        handler@ == handler_for(request@),
{
    match request {
        Request::Ping => Handler::Ping,
        Request::Identity => Handler::Identity,
        Request::List => Handler::List,
        Request::PeerStore => Handler::PeerStore,
        Request::Join(id) => Handler::Join(id),
        Request::Leave(id) => Handler::Leave(id),
        Request::QueryKey { .. } => Handler::NotImplemented,
        Request::RespondKey { .. } => Handler::NotImplemented,
        Request::Get(_) => Handler::NotImplemented,
        Request::SyncPeers { .. } => Handler::NotImplemented,
    }
}

/// The handlers of the protocol, as a node offers them. Each returns the
/// response to write back; writing it is the caller's business.
pub trait Protocol {
    /// Whether the node is in a state to serve requests.
    spec fn ready(&self) -> bool;

    /// Handle an incoming `Request::Ping`.
    fn handle_ping(&self) -> (res: Response)
        requires
            self.ready(),
    ;

    /// Handle an incoming `Request::Identity`.
    fn handle_identity(&self) -> (res: Response)
        requires
            self.ready(),
    ;

    /// Handle an incoming `Request::List`.
    fn handle_list(&self) -> (res: Response)
        requires
            self.ready(),
    ;

    /// Handle an incoming `Request::PeerStore`.
    fn handle_peerstore(&self) -> (res: Response)
        requires
            self.ready(),
    ;

    /// Handle an incoming `Request::Join` for `new_peer`.
    fn handle_join(&mut self, new_peer: PeerId) -> (res: Response)
        requires
            old(self).ready(),
        ensures
            final(self).ready(),
    ;

    /// Handle an incoming `Request::Leave` for `peer`.
    fn handle_leave(&mut self, peer: PeerId) -> (res: Response)
        requires
            old(self).ready(),
        ensures
            final(self).ready(),
    ;
}

} // verus!
